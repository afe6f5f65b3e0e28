//! The change log: which transitions between two consecutive statuses of an
//! ECU are worth a line, and what that line says.

use vstd::prelude::*;
use crate::clock::{is_clock_text, local_time_text};
use crate::diagnostics::lookup_text;
use crate::diff_laws::lemma_unchanged_status_logs_nothing;
use crate::ecu::{EcuStatus, EcuStatusView};
use crate::text::{decimal, opt_text, owned, u32_to_decimal, u64_to_decimal};

verus! {

/// One logged transition of one field of one ECU.
pub struct StateChange {
    pub timestamp: String,
    pub ecu_id: String,
    pub field: String,
    pub value: String,
    pub prev_value: Option<String>,
}

/// The content of a [`StateChange`].
pub struct ChangeView {
    pub timestamp: Seq<char>,
    pub ecu_id: Seq<char>,
    pub field: Seq<char>,
    pub value: Seq<char>,
    pub prev_value: Option<Seq<char>>,
}

impl View for StateChange {
    type V = ChangeView;

    open spec fn view(&self) -> ChangeView {
        ChangeView {
            timestamp: self.timestamp@,
            ecu_id: self.ecu_id@,
            field: self.field@,
            value: self.value@,
            prev_value: opt_text(self.prev_value),
        }
    }
}

/// The content of a list of changes.
pub open spec fn changes_view(s: Seq<StateChange>) -> Seq<ChangeView> {
    s.map_values(|c: StateChange| c@)
}

/// The text of an optional string, the empty text when absent.
pub open spec fn or_empty(o: Option<Seq<char>>) -> Seq<char> {
    match o {
        Some(s) => s,
        None => Seq::empty(),
    }
}

/// The line logged for a tracked field whose previous text is `p` and new
/// text `n` (absent counting as empty): one when the text changed to a
/// non-empty one, none otherwise.  An empty previous text is logged as no
/// previous value.
pub open spec fn field_change(
    ts: Seq<char>,
    id: Seq<char>,
    field: Seq<char>,
    p: Seq<char>,
    n: Seq<char>,
) -> Seq<ChangeView> {
    if p != n && n.len() > 0 {
        seq![ChangeView {
            timestamp: ts,
            ecu_id: id,
            field,
            value: n,
            prev_value: if p.len() == 0 { None } else { Some(p) },
        }]
    } else {
        Seq::empty()
    }
}

/// The label of a health reading.
pub open spec fn health_label(r: Option<bool>) -> Option<Seq<char>> {
    match r {
        Some(true) => Some("ready"@),
        Some(false) => Some("notReady"@),
        None => None,
    }
}

/// The decimal rendering of an optional 32-bit value.
pub open spec fn decimal_u32(o: Option<u32>) -> Option<Seq<char>> {
    match o {
        Some(v) => Some(decimal(v as nat)),
        None => None,
    }
}

/// The decimal rendering of an optional 64-bit value.
pub open spec fn decimal_u64(o: Option<u64>) -> Option<Seq<char>> {
    match o {
        Some(v) => Some(decimal(v as nat)),
        None => None,
    }
}

/// What is known of an ECU before a status: the previous status, or, when
/// there is none, a status with every field absent.
pub open spec fn known(prev: Option<EcuStatusView>) -> EcuStatusView {
    match prev {
        Some(p) => p,
        None => EcuStatusView {
            id: Seq::empty(),
            name: Seq::empty(),
            transfer_state: None,
            activation_state: None,
            version: None,
            supports_rollback: false,
            progress_bits: None,
            error: None,
            diagnostics: Seq::empty(),
            ready: None,
            boot_id: None,
            hb_seq: None,
            boot_count: None,
        },
    }
}

/// The previous JSON text of diagnostic `key`: empty when the previous
/// status lacks the key.
pub open spec fn prev_diag_text(prev: EcuStatusView, key: Seq<char>) -> Seq<char> {
    or_empty(lookup_text(prev.diagnostics, key))
}

/// The line logged for one diagnostic entry: one when its JSON text differs
/// from the previous one and is not `null`; a previous text that is empty
/// or `null` is logged as no previous value.
pub open spec fn diag_entry_change(
    ts: Seq<char>,
    id: Seq<char>,
    prev: EcuStatusView,
    e: (Seq<char>, Seq<char>),
) -> Seq<ChangeView> {
    let n = e.1;
    let p = prev_diag_text(prev, e.0);
    if n != p && n != "null"@ {
        seq![ChangeView {
            timestamp: ts,
            ecu_id: id,
            field: e.0,
            value: n,
            prev_value: if p.len() == 0 || p == "null"@ { None } else { Some(p) },
        }]
    } else {
        Seq::empty()
    }
}

/// The lines logged for the diagnostic entries `d`, in their order.
pub open spec fn diag_changes(
    ts: Seq<char>,
    id: Seq<char>,
    prev: EcuStatusView,
    d: Seq<(Seq<char>, Seq<char>)>,
) -> Seq<ChangeView>
    decreases d.len(),
{
    if d.len() == 0 {
        Seq::empty()
    } else {
        diag_changes(ts, id, prev, d.drop_last()) + diag_entry_change(ts, id, prev, d.last())
    }
}

/// The line logged for the error: one when there is an error whose text
/// differs from the previous one (absent counting as empty), with no
/// previous value.
pub open spec fn error_change(
    ts: Seq<char>,
    id: Seq<char>,
    prev: EcuStatusView,
    err: Option<Seq<char>>,
) -> Seq<ChangeView> {
    match err {
        Some(e) => {
            let pe = or_empty(prev.error);
            if e != pe {
                seq![ChangeView { timestamp: ts, ecu_id: id, field: "Error"@, value: e, prev_value: None }]
            } else {
                Seq::empty()
            }
        },
        None => Seq::empty(),
    }
}

/// The lines logged when an ECU goes from `prev` (if it was seen before) to
/// `next`, stamped `ts`: transfer, activation and version state, health,
/// boot ID and boot count, each diagnostic entry, then the error.  The
/// heartbeat counter, progress, rollback support and name are never logged.
pub open spec fn ecu_changes(ts: Seq<char>, prev: Option<EcuStatusView>, next: EcuStatusView) -> Seq<ChangeView> {
    let id = next.id;
    let k = known(prev);
    tracked_changes(ts, k, next) + diag_changes(ts, id, k, next.diagnostics) + error_change(ts, id, k, next.error)
}

/// The line logged for the transfer state.
pub open spec fn transfer_line(ts: Seq<char>, k: EcuStatusView, next: EcuStatusView) -> Seq<ChangeView> {
    field_change(ts, next.id, "Transfer"@, or_empty(k.transfer_state), or_empty(next.transfer_state))
}

/// The line logged for the activation state.
pub open spec fn activation_line(ts: Seq<char>, k: EcuStatusView, next: EcuStatusView) -> Seq<ChangeView> {
    field_change(ts, next.id, "Activation"@, or_empty(k.activation_state), or_empty(next.activation_state))
}

/// The line logged for the firmware version.
pub open spec fn version_line(ts: Seq<char>, k: EcuStatusView, next: EcuStatusView) -> Seq<ChangeView> {
    field_change(ts, next.id, "Version"@, or_empty(k.version), or_empty(next.version))
}

/// The line logged for the health reading.
pub open spec fn health_line(ts: Seq<char>, k: EcuStatusView, next: EcuStatusView) -> Seq<ChangeView> {
    field_change(ts, next.id, "Health"@, or_empty(health_label(k.ready)), or_empty(health_label(next.ready)))
}

/// The line logged for the boot ID.
pub open spec fn boot_id_line(ts: Seq<char>, k: EcuStatusView, next: EcuStatusView) -> Seq<ChangeView> {
    field_change(ts, next.id, "Boot ID"@, or_empty(decimal_u32(k.boot_id)), or_empty(decimal_u32(next.boot_id)))
}

/// The line logged for the boot count.
pub open spec fn boot_count_line(ts: Seq<char>, k: EcuStatusView, next: EcuStatusView) -> Seq<ChangeView> {
    field_change(ts, next.id, "Boot Count"@, or_empty(decimal_u64(k.boot_count)),
        or_empty(decimal_u64(next.boot_count)))
}

/// The lines logged for the tracked single-valued fields, in this order.
pub open spec fn tracked_changes(ts: Seq<char>, k: EcuStatusView, next: EcuStatusView) -> Seq<ChangeView> {
    transfer_line(ts, k, next) + activation_line(ts, k, next) + version_line(ts, k, next)
        + health_line(ts, k, next) + boot_id_line(ts, k, next) + boot_count_line(ts, k, next)
}

/// The content of an optional status reference.
pub open spec fn opt_status(o: Option<&EcuStatus>) -> Option<EcuStatusView> {
    match o {
        Some(s) => Some(s@),
        None => None,
    }
}

fn or_empty_string(o: &Option<String>) -> (r: String)
    ensures
        r@ == or_empty(opt_text(*o)),
{
    match o {
        Some(s) => s.clone(),
        None => String::new(),
    }
}

fn push_field_change(
    changes: &mut Vec<StateChange>,
    ts: &String,
    id: &String,
    field: &str,
    p: String,
    n: String,
)
    ensures
        changes_view(final(changes)@) == changes_view(old(changes)@) + field_change(ts@, id@, field@, p@, n@),
{
    let ghost before = changes@;
    if !(p == n) && !n.as_str().is_empty() {
        let prev_value = if p.as_str().is_empty() { None } else { Some(p) };
        changes.push(StateChange {
            timestamp: ts.clone(),
            ecu_id: id.clone(),
            field: owned(field),
            value: n,
            prev_value,
        });
        assert(changes_view(changes@) =~= changes_view(before) + field_change(ts@, id@, field@, p@, n@));
    } else {
        assert(changes_view(changes@) =~= changes_view(before) + field_change(ts@, id@, field@, p@, n@));
    }
}

fn health_text(r: Option<bool>) -> (s: String)
    ensures
        s@ == or_empty(health_label(r)),
{
    match r {
        Some(true) => owned("ready"),
        Some(false) => owned("notReady"),
        None => String::new(),
    }
}

fn decimal_text_u32(o: Option<u32>) -> (s: String)
    ensures
        s@ == or_empty(decimal_u32(o)),
{
    match o {
        Some(v) => u32_to_decimal(v),
        None => String::new(),
    }
}

fn decimal_text_u64(o: Option<u64>) -> (s: String)
    ensures
        s@ == or_empty(decimal_u64(o)),
{
    match o {
        Some(v) => u64_to_decimal(v),
        None => String::new(),
    }
}

fn prev_diag_string(prev: Option<&EcuStatus>, key: &String) -> (r: String)
    ensures
        r@ == prev_diag_text(known(opt_status(prev)), key@),
{
    match prev {
        Some(p) => match p.diagnostics.lookup(key) {
            Some(v) => v,
            None => String::new(),
        },
        None => String::new(),
    }
}

fn push_diag_changes(
    changes: &mut Vec<StateChange>,
    ts: &String,
    prev: Option<&EcuStatus>,
    next: &EcuStatus,
)
    ensures
        changes_view(final(changes)@) == changes_view(old(changes)@)
            + diag_changes(ts@, next.id@, known(opt_status(prev)), next@.diagnostics),
{
    let ghost base = changes_view(changes@);
    let ghost dv = next@.diagnostics;
    let null = owned("null");
    let n = next.diagnostics.len();
    let mut i: usize = 0;
    while i < n
        invariant
            i <= n,
            dv == next@.diagnostics,
            dv.len() == n,
            null@ == "null"@,
            changes_view(changes@) == base + diag_changes(ts@, next.id@, known(opt_status(prev)), dv.take(i as int)),
        decreases n - i,
    {
        let ghost before = changes@;
        let e = next.diagnostics.entry(i);
        assert(dv.take(i as int + 1).drop_last() =~= dv.take(i as int));
        assert(dv.take(i as int + 1).last() == dv[i as int]);
        let next_str = e.json.clone();
        let prev_str = prev_diag_string(prev, &e.key);
        if !(next_str == prev_str) && !(next_str == null) {
            let prev_value = if prev_str.as_str().is_empty() || prev_str == null {
                None
            } else {
                Some(prev_str)
            };
            changes.push(StateChange {
                timestamp: ts.clone(),
                ecu_id: next.id.clone(),
                field: e.key.clone(),
                value: next_str,
                prev_value,
            });
            assert(changes_view(changes@) =~= changes_view(before)
                + diag_entry_change(ts@, next.id@, known(opt_status(prev)), dv[i as int]));
        } else {
            assert(changes_view(changes@) =~= changes_view(before)
                + diag_entry_change(ts@, next.id@, known(opt_status(prev)), dv[i as int]));
        }
        i = i + 1;
    }
    assert(dv.take(i as int) =~= dv);
}

fn push_error_change(
    changes: &mut Vec<StateChange>,
    ts: &String,
    prev: Option<&EcuStatus>,
    next: &EcuStatus,
)
    ensures
        changes_view(final(changes)@) == changes_view(old(changes)@)
            + error_change(ts@, next.id@, known(opt_status(prev)), next@.error),
{
    let ghost before = changes@;
    match &next.error {
        Some(err) => {
            let prev_err = match prev {
                Some(p) => or_empty_string(&p.error),
                None => String::new(),
            };
            if !(*err == prev_err) {
                changes.push(StateChange {
                    timestamp: ts.clone(),
                    ecu_id: next.id.clone(),
                    field: owned("Error"),
                    value: err.clone(),
                    prev_value: None,
                });
            }
        },
        None => {},
    }
    assert(changes_view(changes@) =~= changes_view(before)
        + error_change(ts@, next.id@, known(opt_status(prev)), next@.error));
}

proof fn lemma_concat_assoc(a: Seq<ChangeView>, b: Seq<ChangeView>, c: Seq<ChangeView>)
    ensures
        a + (b + c) == (a + b) + c,
{
    assert(a + (b + c) =~= (a + b) + c);
}

struct PrevTexts {
    transfer: String,
    activation: String,
    version: String,
    health: String,
    boot_id: String,
    boot_count: String,
}

fn prev_texts(prev: Option<&EcuStatus>) -> (r: PrevTexts)
    ensures
        r.transfer@ == or_empty(known(opt_status(prev)).transfer_state),
        r.activation@ == or_empty(known(opt_status(prev)).activation_state),
        r.version@ == or_empty(known(opt_status(prev)).version),
        r.health@ == or_empty(health_label(known(opt_status(prev)).ready)),
        r.boot_id@ == or_empty(decimal_u32(known(opt_status(prev)).boot_id)),
        r.boot_count@ == or_empty(decimal_u64(known(opt_status(prev)).boot_count)),
{
    match prev {
        Some(p) => PrevTexts {
            transfer: or_empty_string(&p.transfer_state),
            activation: or_empty_string(&p.activation_state),
            version: or_empty_string(&p.version),
            health: health_text(p.ready),
            boot_id: decimal_text_u32(p.boot_id),
            boot_count: decimal_text_u64(p.boot_count),
        },
        None => PrevTexts {
            transfer: String::new(),
            activation: String::new(),
            version: String::new(),
            health: String::new(),
            boot_id: String::new(),
            boot_count: String::new(),
        },
    }
}

fn push_tracked_changes(
    changes: &mut Vec<StateChange>,
    ts: &String,
    prev: Option<&EcuStatus>,
    next: &EcuStatus,
)
    ensures
        changes_view(final(changes)@) == changes_view(old(changes)@)
            + tracked_changes(ts@, known(opt_status(prev)), next@),
{
    let ghost k = known(opt_status(prev));
    let ghost nv = next@;
    let ghost id = next.id@;
    let ghost c0 = changes_view(changes@);
    let p = prev_texts(prev);
    let ghost f1 = transfer_line(ts@, k, nv);
    let ghost f2 = activation_line(ts@, k, nv);
    let ghost f3 = version_line(ts@, k, nv);
    let ghost f4 = health_line(ts@, k, nv);
    let ghost f5 = boot_id_line(ts@, k, nv);
    let ghost f6 = boot_count_line(ts@, k, nv);
    push_field_change(changes, ts, &next.id, "Transfer", p.transfer, or_empty_string(&next.transfer_state));
    push_field_change(changes, ts, &next.id, "Activation", p.activation, or_empty_string(&next.activation_state));
    proof { lemma_concat_assoc(c0, f1, f2); }
    push_field_change(changes, ts, &next.id, "Version", p.version, or_empty_string(&next.version));
    proof { lemma_concat_assoc(c0, f1 + f2, f3); }
    push_field_change(changes, ts, &next.id, "Health", p.health, health_text(next.ready));
    proof { lemma_concat_assoc(c0, f1 + f2 + f3, f4); }
    push_field_change(changes, ts, &next.id, "Boot ID", p.boot_id, decimal_text_u32(next.boot_id));
    proof { lemma_concat_assoc(c0, f1 + f2 + f3 + f4, f5); }
    push_field_change(changes, ts, &next.id, "Boot Count", p.boot_count, decimal_text_u64(next.boot_count));
    proof { lemma_concat_assoc(c0, f1 + f2 + f3 + f4 + f5, f6); }
    assert(tracked_changes(ts@, k, nv) == f1 + f2 + f3 + f4 + f5 + f6);
}

/// Appends to `changes` the lines logged when an ECU goes from `prev` to
/// `next`, each stamped `ts`.  A status compared with itself logs nothing.
pub fn diff_ecu_status_at(
    ts: &String,
    prev: Option<&EcuStatus>,
    next: &EcuStatus,
    changes: &mut Vec<StateChange>,
)
    ensures
        changes_view(final(changes)@) == changes_view(old(changes)@)
            + ecu_changes(ts@, opt_status(prev), next@),
        opt_status(prev) == Some(next@) ==> changes_view(final(changes)@) == changes_view(old(changes)@),
{
    proof {
        use_type_invariant(&next.diagnostics);
        lemma_unchanged_status_logs_nothing(ts@, next@);
    }
    let ghost base = changes_view(changes@);
    push_tracked_changes(changes, ts, prev, next);
    push_diag_changes(changes, ts, prev, next);
    proof {
        let k = known(opt_status(prev));
        lemma_concat_assoc(base, tracked_changes(ts@, k, next@), diag_changes(ts@, next.id@, k, next@.diagnostics));
    }
    push_error_change(changes, ts, prev, next);
    proof {
        let k = known(opt_status(prev));
        lemma_concat_assoc(base, tracked_changes(ts@, k, next@) + diag_changes(ts@, next.id@, k, next@.diagnostics),
            error_change(ts@, next.id@, k, next@.error));
    }
}

/// Appends to `changes` the lines logged when an ECU goes from `prev` (if
/// it was seen before) to `next`, all stamped with the local time of day
/// (`HH:MM:SS.mmm`) read once from the clock.
pub fn diff_ecu_status(prev: Option<&EcuStatus>, next: &EcuStatus, changes: &mut Vec<StateChange>)
    ensures
        exists|ts: Seq<char>| is_clock_text(ts) && changes_view(final(changes)@)
            == changes_view(old(changes)@) + ecu_changes(ts, opt_status(prev), next@),
        opt_status(prev) == Some(next@) ==> changes_view(final(changes)@) == changes_view(old(changes)@),
{
    let ts = local_time_text("%H:%M:%S%.3f");
    diff_ecu_status_at(&ts, prev, next, changes);
}

} // verus!
