//! What holds of every change log the diff produces.

use vstd::prelude::*;
use crate::diff::{ChangeView, diag_changes, diag_entry_change, ecu_changes,
    error_change, health_label, known, or_empty, transfer_line, activation_line, version_line,
    health_line, boot_id_line, boot_count_line, prev_diag_text, tracked_changes};
use crate::diagnostics::{distinct_keys, lemma_lookup_own_key};
use crate::ecu::EcuStatusView;
use crate::text::{decimal, lemma_decimal_injective, lemma_decimal_nonempty};

verus! {

proof fn lemma_unchanged_diagnostics(ts: Seq<char>, s: EcuStatusView, n: int)
    requires
        distinct_keys(s.diagnostics),
        0 <= n <= s.diagnostics.len(),
    ensures
        diag_changes(ts, s.id, s, s.diagnostics.take(n)) == Seq::<ChangeView>::empty(),
    decreases n,
{
    if n > 0 {
        let d = s.diagnostics;
        lemma_unchanged_diagnostics(ts, s, n - 1);
        assert(d.take(n).drop_last() =~= d.take(n - 1));
        assert(d.take(n).last() == d[n - 1]);
        lemma_lookup_own_key(d, n - 1);
        assert(diag_entry_change(ts, s.id, s, d[n - 1]) =~= Seq::<ChangeView>::empty());
        assert(diag_changes(ts, s.id, s, d.take(n)) =~= Seq::<ChangeView>::empty());
    }
}

/// A status compared with itself logs nothing: polling an ECU whose status
/// did not move adds no line to the change log.
pub proof fn lemma_unchanged_status_logs_nothing(ts: Seq<char>, s: EcuStatusView)
    requires
        distinct_keys(s.diagnostics),
    ensures
        ecu_changes(ts, Some(s), s) == Seq::<ChangeView>::empty(),
{
    lemma_unchanged_diagnostics(ts, s, s.diagnostics.len() as int);
    assert(s.diagnostics.take(s.diagnostics.len() as int) =~= s.diagnostics);
    assert(ecu_changes(ts, Some(s), s) =~= Seq::<ChangeView>::empty());
}

/// The heartbeat counter, the progress figure, rollback support and the
/// name are never logged: the lines logged for a status do not depend on them.
pub proof fn lemma_untracked_fields_not_logged(
    ts: Seq<char>,
    prev: Option<EcuStatusView>,
    next: EcuStatusView,
    name: Seq<char>,
    supports_rollback: bool,
    progress_bits: Option<u64>,
    hb_seq: Option<u32>,
)
    ensures
        ecu_changes(ts, prev, EcuStatusView { name, supports_rollback, progress_bits, hb_seq, ..next })
            == ecu_changes(ts, prev, next),
{
}

/// Every line is stamped `ts`, names the ECU of the new status, and, where
/// it records a previous value, records one that differs from the new value.
pub open spec fn lines_of(c: Seq<ChangeView>, ts: Seq<char>, id: Seq<char>) -> bool {
    forall|i: int| 0 <= i < c.len() ==> {
        &&& (#[trigger] c[i]).timestamp == ts
        &&& c[i].ecu_id == id
        &&& (c[i].prev_value matches Some(v) ==> v != c[i].value)
    }
}

proof fn lemma_lines_of_concat(a: Seq<ChangeView>, b: Seq<ChangeView>, ts: Seq<char>, id: Seq<char>)
    requires
        lines_of(a, ts, id),
        lines_of(b, ts, id),
    ensures
        lines_of(a + b, ts, id),
{
    assert forall|i: int| 0 <= i < (a + b).len() implies {
        &&& (#[trigger] (a + b)[i]).timestamp == ts
        &&& (a + b)[i].ecu_id == id
        &&& ((a + b)[i].prev_value matches Some(v) ==> v != (a + b)[i].value)
    } by {
        if i < a.len() {
            assert((a + b)[i] == a[i]);
        } else {
            assert((a + b)[i] == b[i - a.len()]);
        }
    }
}

proof fn lemma_diag_lines(ts: Seq<char>, id: Seq<char>, k: EcuStatusView, d: Seq<(Seq<char>, Seq<char>)>)
    ensures
        lines_of(diag_changes(ts, id, k, d), ts, id),
    decreases d.len(),
{
    if d.len() > 0 {
        lemma_diag_lines(ts, id, k, d.drop_last());
        lemma_lines_of_concat(diag_changes(ts, id, k, d.drop_last()), diag_entry_change(ts, id, k, d.last()), ts, id);
    }
}

/// Every line logged for a transition is stamped with the time given, names
/// the ECU whose status moved, and records as previous value only a value
/// that differs from the new one.
pub proof fn lemma_lines_are_stamped_transitions(ts: Seq<char>, prev: Option<EcuStatusView>, next: EcuStatusView)
    ensures
        lines_of(ecu_changes(ts, prev, next), ts, next.id),
{
    let k = known(prev);
    let id = next.id;
    lemma_diag_lines(ts, id, k, next.diagnostics);
    let f1 = transfer_line(ts, k, next);
    let f2 = activation_line(ts, k, next);
    let f3 = version_line(ts, k, next);
    let f4 = health_line(ts, k, next);
    let f5 = boot_id_line(ts, k, next);
    let f6 = boot_count_line(ts, k, next);
    assert(lines_of(f1, ts, id));
    assert(lines_of(f2, ts, id));
    assert(lines_of(f3, ts, id));
    assert(lines_of(f4, ts, id));
    assert(lines_of(f5, ts, id));
    assert(lines_of(f6, ts, id));
    lemma_lines_of_concat(f1, f2, ts, id);
    lemma_lines_of_concat(f1 + f2, f3, ts, id);
    lemma_lines_of_concat(f1 + f2 + f3, f4, ts, id);
    lemma_lines_of_concat(f1 + f2 + f3 + f4, f5, ts, id);
    lemma_lines_of_concat(f1 + f2 + f3 + f4 + f5, f6, ts, id);
    let e = error_change(ts, id, k, next.error);
    assert(lines_of(e, ts, id));
    lemma_lines_of_concat(tracked_changes(ts, k, next), diag_changes(ts, id, k, next.diagnostics), ts, id);
    lemma_lines_of_concat(tracked_changes(ts, k, next) + diag_changes(ts, id, k, next.diagnostics), e, ts, id);
}

/// A change of transfer state between two known, non-empty states is always
/// logged, with the new state and the old one.
pub proof fn lemma_transfer_change_is_logged(
    ts: Seq<char>,
    prev: EcuStatusView,
    next: EcuStatusView,
    a: Seq<char>,
    b: Seq<char>,
)
    requires
        prev.transfer_state == Some(a),
        next.transfer_state == Some(b),
        a != b,
        a.len() > 0,
        b.len() > 0,
    ensures
        ecu_changes(ts, Some(prev), next).contains(
            ChangeView { timestamp: ts, ecu_id: next.id, field: "Transfer"@, value: b, prev_value: Some(a) },
        ),
{
    let c = ChangeView { timestamp: ts, ecu_id: next.id, field: "Transfer"@, value: b, prev_value: Some(a) };
    assert(transfer_line(ts, prev, next) == seq![c]);
    lemma_tracked_line_logged(ts, Some(prev), next, c);
}

/// A change of activation state between two known, non-empty states is
/// always logged, with the new state and the old one.
pub proof fn lemma_activation_change_is_logged(
    ts: Seq<char>,
    prev: EcuStatusView,
    next: EcuStatusView,
    a: Seq<char>,
    b: Seq<char>,
)
    requires
        prev.activation_state == Some(a),
        next.activation_state == Some(b),
        a != b,
        a.len() > 0,
        b.len() > 0,
    ensures
        ecu_changes(ts, Some(prev), next).contains(
            ChangeView { timestamp: ts, ecu_id: next.id, field: "Activation"@, value: b, prev_value: Some(a) },
        ),
{
    let c = ChangeView { timestamp: ts, ecu_id: next.id, field: "Activation"@, value: b, prev_value: Some(a) };
    assert(activation_line(ts, prev, next) == seq![c]);
    lemma_tracked_line_logged(ts, Some(prev), next, c);
}

/// A change between two known, non-empty firmware versions is always
/// logged, with the new version and the old one.
pub proof fn lemma_version_change_is_logged(
    ts: Seq<char>,
    prev: EcuStatusView,
    next: EcuStatusView,
    a: Seq<char>,
    b: Seq<char>,
)
    requires
        prev.version == Some(a),
        next.version == Some(b),
        a != b,
        a.len() > 0,
        b.len() > 0,
    ensures
        ecu_changes(ts, Some(prev), next).contains(
            ChangeView { timestamp: ts, ecu_id: next.id, field: "Version"@, value: b, prev_value: Some(a) },
        ),
{
    let c = ChangeView { timestamp: ts, ecu_id: next.id, field: "Version"@, value: b, prev_value: Some(a) };
    assert(version_line(ts, prev, next) == seq![c]);
    lemma_tracked_line_logged(ts, Some(prev), next, c);
}

/// On the first sighting of an ECU, each non-empty tracked text field is
/// logged with no previous value.
pub proof fn lemma_first_sighting_logs_known_fields(ts: Seq<char>, next: EcuStatusView)
    ensures
        (next.transfer_state is Some && next.transfer_state.unwrap().len() > 0) ==> ecu_changes(ts, None, next).contains(
            ChangeView { timestamp: ts, ecu_id: next.id, field: "Transfer"@, value: next.transfer_state.unwrap(), prev_value: None },
        ),
        (next.activation_state is Some && next.activation_state.unwrap().len() > 0) ==> ecu_changes(ts, None, next).contains(
            ChangeView { timestamp: ts, ecu_id: next.id, field: "Activation"@, value: next.activation_state.unwrap(), prev_value: None },
        ),
        (next.version is Some && next.version.unwrap().len() > 0) ==> ecu_changes(ts, None, next).contains(
            ChangeView { timestamp: ts, ecu_id: next.id, field: "Version"@, value: next.version.unwrap(), prev_value: None },
        ),
{
    let k = known(None);
    if let Some(t) = next.transfer_state {
        if t.len() > 0 {
            let c = ChangeView { timestamp: ts, ecu_id: next.id, field: "Transfer"@, value: t, prev_value: None };
            assert(transfer_line(ts, k, next) == seq![c]);
            lemma_tracked_line_logged(ts, None, next, c);
        }
    }
    if let Some(t) = next.activation_state {
        if t.len() > 0 {
            let c = ChangeView { timestamp: ts, ecu_id: next.id, field: "Activation"@, value: t, prev_value: None };
            assert(activation_line(ts, k, next) == seq![c]);
            lemma_tracked_line_logged(ts, None, next, c);
        }
    }
    if let Some(t) = next.version {
        if t.len() > 0 {
            let c = ChangeView { timestamp: ts, ecu_id: next.id, field: "Version"@, value: t, prev_value: None };
            assert(version_line(ts, k, next) == seq![c]);
            lemma_tracked_line_logged(ts, None, next, c);
        }
    }
}

/// A new error whose text differs from the previous error (absent counting
/// as empty) is always logged, with no previous value; with no error, no
/// error line is logged.
pub proof fn lemma_error_is_logged(ts: Seq<char>, prev: Option<EcuStatusView>, next: EcuStatusView)
    ensures
        (next.error is Some && next.error.unwrap() != or_empty(known(prev).error)) ==> ecu_changes(ts, prev, next).contains(
            ChangeView { timestamp: ts, ecu_id: next.id, field: "Error"@, value: next.error.unwrap(), prev_value: None },
        ),
        next.error is None ==> error_change(ts, next.id, known(prev), next.error) == Seq::<ChangeView>::empty(),
{
    let k = known(prev);
    if let Some(e) = next.error {
        if e != or_empty(k.error) {
            let c = ChangeView { timestamp: ts, ecu_id: next.id, field: "Error"@, value: e, prev_value: None };
            let head = tracked_changes(ts, k, next) + diag_changes(ts, next.id, k, next.diagnostics);
            assert(error_change(ts, next.id, k, next.error) == seq![c]);
            let all = ecu_changes(ts, prev, next);
            assert(all[head.len() as int] == c);
        }
    }
}

/// A tracked field cleared to nothing (or to empty text) logs no line.
pub proof fn lemma_cleared_fields_not_logged(ts: Seq<char>, k: EcuStatusView, next: EcuStatusView)
    ensures
        or_empty(next.transfer_state).len() == 0 ==> transfer_line(ts, k, next) == Seq::<ChangeView>::empty(),
        or_empty(next.activation_state).len() == 0 ==> activation_line(ts, k, next) == Seq::<ChangeView>::empty(),
        or_empty(next.version).len() == 0 ==> version_line(ts, k, next) == Seq::<ChangeView>::empty(),
        next.ready is None ==> health_line(ts, k, next) == Seq::<ChangeView>::empty(),
        next.boot_id is None ==> boot_id_line(ts, k, next) == Seq::<ChangeView>::empty(),
        next.boot_count is None ==> boot_count_line(ts, k, next) == Seq::<ChangeView>::empty(),
{
}

/// A diagnostic whose new value is `null` logs no line, nor does one whose
/// value did not change.
pub proof fn lemma_null_or_unchanged_diagnostic_not_logged(
    ts: Seq<char>,
    id: Seq<char>,
    k: EcuStatusView,
    e: (Seq<char>, Seq<char>),
)
    ensures
        (e.1 == "null"@ || e.1 == prev_diag_text(k, e.0)) ==> diag_entry_change(ts, id, k, e)
            == Seq::<ChangeView>::empty(),
{
}

/// A tracked field whose line is `c` has `c` in the change log.
proof fn lemma_tracked_line_logged(ts: Seq<char>, prev: Option<EcuStatusView>, next: EcuStatusView, c: ChangeView)
    requires
        transfer_line(ts, known(prev), next) == seq![c] || activation_line(ts, known(prev), next) == seq![c]
            || version_line(ts, known(prev), next) == seq![c] || health_line(ts, known(prev), next) == seq![c]
            || boot_id_line(ts, known(prev), next) == seq![c] || boot_count_line(ts, known(prev), next) == seq![c],
    ensures
        ecu_changes(ts, prev, next).contains(c),
{
    let k = known(prev);
    let l1 = transfer_line(ts, k, next);
    let l2 = activation_line(ts, k, next);
    let l3 = version_line(ts, k, next);
    let l4 = health_line(ts, k, next);
    let l5 = boot_id_line(ts, k, next);
    let all = ecu_changes(ts, prev, next);
    if l1 == seq![c] {
        assert(all[0] == c);
    } else if l2 == seq![c] {
        assert(all[l1.len() as int] == c);
    } else if l3 == seq![c] {
        assert(all[(l1 + l2).len() as int] == c);
    } else if l4 == seq![c] {
        assert(all[(l1 + l2 + l3).len() as int] == c);
    } else if l5 == seq![c] {
        assert(all[(l1 + l2 + l3 + l4).len() as int] == c);
    } else {
        assert(all[(l1 + l2 + l3 + l4 + l5).len() as int] == c);
    }
}

/// A changed boot ID (the reboot witness) is always logged, with the old
/// and the new ID in decimal.
pub proof fn lemma_reboot_is_logged(ts: Seq<char>, prev: EcuStatusView, next: EcuStatusView, a: u32, b: u32)
    requires
        prev.boot_id == Some(a),
        next.boot_id == Some(b),
        a != b,
    ensures
        ecu_changes(ts, Some(prev), next).contains(ChangeView {
            timestamp: ts,
            ecu_id: next.id,
            field: "Boot ID"@,
            value: decimal(b as nat),
            prev_value: Some(decimal(a as nat)),
        }),
{
    let k = prev;
    let id = next.id;
    lemma_decimal_nonempty(a as nat);
    lemma_decimal_nonempty(b as nat);
    if decimal(a as nat) == decimal(b as nat) {
        lemma_decimal_injective(a as nat, b as nat);
    }
    let c = ChangeView {
        timestamp: ts,
        ecu_id: id,
        field: "Boot ID"@,
        value: decimal(b as nat),
        prev_value: Some(decimal(a as nat)),
    };
    assert(boot_id_line(ts, k, next) == seq![c]);
    lemma_tracked_line_logged(ts, Some(prev), next, c);
}

/// A change of health between two readings (ready / not ready) is always
/// logged, with both labels.
pub proof fn lemma_health_change_is_logged(ts: Seq<char>, prev: EcuStatusView, next: EcuStatusView, x: bool, y: bool)
    requires
        prev.ready == Some(x),
        next.ready == Some(y),
        x != y,
    ensures
        ecu_changes(ts, Some(prev), next).contains(ChangeView {
            timestamp: ts,
            ecu_id: next.id,
            field: "Health"@,
            value: or_empty(health_label(Some(y))),
            prev_value: health_label(Some(x)),
        }),
{
    reveal_strlit("ready");
    reveal_strlit("notReady");
    let k = prev;
    let id = next.id;
    assert("ready"@ != "notReady"@) by {
        assert("ready"@.len() != "notReady"@.len());
    }
    let c = ChangeView {
        timestamp: ts,
        ecu_id: id,
        field: "Health"@,
        value: or_empty(health_label(Some(y))),
        prev_value: health_label(Some(x)),
    };
    assert(health_line(ts, k, next) == seq![c]);
    lemma_tracked_line_logged(ts, Some(prev), next, c);
}

/// A changed boot count is always logged, with the old and the new count in
/// decimal.
pub proof fn lemma_boot_count_change_is_logged(ts: Seq<char>, prev: EcuStatusView, next: EcuStatusView, a: u64, b: u64)
    requires
        prev.boot_count == Some(a),
        next.boot_count == Some(b),
        a != b,
    ensures
        ecu_changes(ts, Some(prev), next).contains(ChangeView {
            timestamp: ts,
            ecu_id: next.id,
            field: "Boot Count"@,
            value: decimal(b as nat),
            prev_value: Some(decimal(a as nat)),
        }),
{
    let k = prev;
    let id = next.id;
    lemma_decimal_nonempty(a as nat);
    lemma_decimal_nonempty(b as nat);
    if decimal(a as nat) == decimal(b as nat) {
        lemma_decimal_injective(a as nat, b as nat);
    }
    let c = ChangeView {
        timestamp: ts,
        ecu_id: id,
        field: "Boot Count"@,
        value: decimal(b as nat),
        prev_value: Some(decimal(a as nat)),
    };
    assert(boot_count_line(ts, k, next) == seq![c]);
    lemma_tracked_line_logged(ts, Some(prev), next, c);
}

proof fn lemma_diag_entry_in_changes(
    ts: Seq<char>,
    id: Seq<char>,
    k: EcuStatusView,
    d: Seq<(Seq<char>, Seq<char>)>,
    i: int,
    c: ChangeView,
)
    requires
        0 <= i < d.len(),
        diag_entry_change(ts, id, k, d[i]) == seq![c],
    ensures
        diag_changes(ts, id, k, d).contains(c),
    decreases d.len(),
{
    let rest = diag_changes(ts, id, k, d.drop_last());
    if i == d.len() - 1 {
        assert(diag_changes(ts, id, k, d)[rest.len() as int] == c);
    } else {
        assert(d.drop_last()[i] == d[i]);
        lemma_diag_entry_in_changes(ts, id, k, d.drop_last(), i, c);
        let j = choose|j: int| 0 <= j < rest.len() && rest[j] == c;
        assert(diag_changes(ts, id, k, d)[j] == c);
    }
}

/// A diagnostic parameter whose value changed to anything but `null` is
/// always logged under its own key; a previous value that was absent or
/// `null` is logged as no previous value.
pub proof fn lemma_diagnostic_change_is_logged(
    ts: Seq<char>,
    prev: Option<EcuStatusView>,
    next: EcuStatusView,
    i: int,
)
    requires
        0 <= i < next.diagnostics.len(),
        next.diagnostics[i].1 != "null"@,
        next.diagnostics[i].1 != prev_diag_text(known(prev), next.diagnostics[i].0),
    ensures
        ecu_changes(ts, prev, next).contains(ChangeView {
            timestamp: ts,
            ecu_id: next.id,
            field: next.diagnostics[i].0,
            value: next.diagnostics[i].1,
            prev_value: {
                let p = prev_diag_text(known(prev), next.diagnostics[i].0);
                if p.len() == 0 || p == "null"@ { None } else { Some(p) }
            },
        }),
{
    let k = known(prev);
    let e = next.diagnostics[i];
    let p = prev_diag_text(k, e.0);
    let c = ChangeView {
        timestamp: ts,
        ecu_id: next.id,
        field: e.0,
        value: e.1,
        prev_value: if p.len() == 0 || p == "null"@ { None } else { Some(p) },
    };
    assert(diag_entry_change(ts, next.id, k, e) == seq![c]);
    lemma_diag_entry_in_changes(ts, next.id, k, next.diagnostics, i, c);
    let d = diag_changes(ts, next.id, k, next.diagnostics);
    let j = choose|j: int| 0 <= j < d.len() && d[j] == c;
    let t = tracked_changes(ts, k, next);
    let all = ecu_changes(ts, prev, next);
    assert(all[t.len() + j] == c);
}

} // verus!
