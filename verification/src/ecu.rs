//! ECUs as the viewer tracks them: routing, the status it shows for each
//! one, and the small decisions taken while reading that status.

use vstd::prelude::*;
use crate::text::{clone_opt, opt_text, owned, trim_quotes, trimmed_of_quotes};
use crate::diagnostics::Diagnostics;
use crate::update_status::{Lifecycle, LifecycleView, UpdateStatus, lifecycle_of, lifecycle_view};

verus! {

/// The text of each string of a sequence.
pub open spec fn texts(v: Seq<String>) -> Seq<Seq<char>> {
    v.map_values(|s: String| s@)
}

/// How an ECU is reached: as a component of its own, or as a sub-entity
/// (app) of a gateway component.
#[derive(Clone, Debug)]
pub struct EcuInfo {
    pub id: String,
    pub name: String,
    /// Empty for a directly reachable ECU.
    pub gateway_id: String,
    /// Diagnostic parameter IDs discovered at connect time.
    pub diagnostic_params: Vec<String>,
}

/// The content of an [`EcuInfo`].
pub struct EcuInfoView {
    pub id: Seq<char>,
    pub name: Seq<char>,
    pub gateway_id: Seq<char>,
    pub diagnostic_params: Seq<Seq<char>>,
}

impl View for EcuInfo {
    type V = EcuInfoView;

    open spec fn view(&self) -> EcuInfoView {
        EcuInfoView {
            id: self.id@,
            name: self.name@,
            gateway_id: self.gateway_id@,
            diagnostic_params: texts(self.diagnostic_params@),
        }
    }
}

/// The status of one ECU as the viewer shows it.
pub struct EcuStatus {
    pub id: String,
    pub name: String,
    /// Display state of the `/updates` lifecycle (`idle`, `preparing`, ...).
    pub transfer_state: Option<String>,
    /// Mirrors `transfer_state` once the execute phase has begun.
    pub activation_state: Option<String>,
    /// Installed firmware version.
    pub version: Option<String>,
    pub supports_rollback: bool,
    /// Progress, as the bit pattern of an `f64`.
    pub progress_bits: Option<u64>,
    pub error: Option<String>,
    /// Diagnostic parameters, each key at most once.
    pub diagnostics: Diagnostics,
    /// Guest runtime health: `Some(true)` ready, `Some(false)` not ready,
    /// `None` no liveness signal.
    pub ready: Option<bool>,
    /// Per-guest-lifetime nonce; a changed value witnesses a reboot.
    pub boot_id: Option<u32>,
    /// Heartbeat counter.
    pub hb_seq: Option<u32>,
    /// Reset counter kept across reboots.
    pub boot_count: Option<u64>,
}

/// The content of an [`EcuStatus`].
pub struct EcuStatusView {
    pub id: Seq<char>,
    pub name: Seq<char>,
    pub transfer_state: Option<Seq<char>>,
    pub activation_state: Option<Seq<char>>,
    pub version: Option<Seq<char>>,
    pub supports_rollback: bool,
    pub progress_bits: Option<u64>,
    pub error: Option<Seq<char>>,
    pub diagnostics: Seq<(Seq<char>, Seq<char>)>,
    pub ready: Option<bool>,
    pub boot_id: Option<u32>,
    pub hb_seq: Option<u32>,
    pub boot_count: Option<u64>,
}

impl View for EcuStatus {
    type V = EcuStatusView;

    open spec fn view(&self) -> EcuStatusView {
        EcuStatusView {
            id: self.id@,
            name: self.name@,
            transfer_state: opt_text(self.transfer_state),
            activation_state: opt_text(self.activation_state),
            version: opt_text(self.version),
            supports_rollback: self.supports_rollback,
            progress_bits: self.progress_bits,
            error: opt_text(self.error),
            diagnostics: self.diagnostics@,
            ready: self.ready,
            boot_id: self.boot_id,
            hb_seq: self.hb_seq,
            boot_count: self.boot_count,
        }
    }
}

/// A copy of an ECU status.
pub fn copy_status(s: &EcuStatus) -> (r: EcuStatus)
    ensures
        r@ == s@,
{
    EcuStatus {
        id: s.id.clone(),
        name: s.name.clone(),
        transfer_state: clone_opt(&s.transfer_state),
        activation_state: clone_opt(&s.activation_state),
        version: clone_opt(&s.version),
        supports_rollback: s.supports_rollback,
        progress_bits: s.progress_bits,
        error: clone_opt(&s.error),
        diagnostics: s.diagnostics.copy(),
        ready: s.ready,
        boot_id: s.boot_id,
        hb_seq: s.hb_seq,
        boot_count: s.boot_count,
    }
}

/// The status shown for an ECU about which nothing is known yet.
pub open spec fn idle_view(ecu: EcuInfoView) -> EcuStatusView {
    EcuStatusView {
        id: ecu.id,
        name: ecu.name,
        transfer_state: None,
        activation_state: None,
        version: None,
        supports_rollback: false,
        progress_bits: None,
        error: None,
        diagnostics: Seq::empty(),
        ready: None,
        boot_id: None,
        hb_seq: None,
        boot_count: None,
    }
}

/// The status of an ECU about which nothing is known: its identity and
/// nothing else.
pub fn idle_status(ecu: &EcuInfo) -> (r: EcuStatus)
    ensures
        r@ == idle_view(ecu@),
{
    let r = EcuStatus {
        id: ecu.id.clone(),
        name: ecu.name.clone(),
        transfer_state: None,
        activation_state: None,
        version: None,
        supports_rollback: false,
        progress_bits: None,
        error: None,
        diagnostics: Diagnostics::new(),
        ready: None,
        boot_id: None,
        hb_seq: None,
        boot_count: None,
    };
    assert(r@.diagnostics =~= Seq::<(Seq<char>, Seq<char>)>::empty());
    r
}

/// Guest liveness of an ECU.
#[derive(Clone, Copy)]
pub struct RuntimeStatus {
    pub ready: Option<bool>,
    pub boot_id: Option<u32>,
    pub hb_seq: Option<u32>,
    pub boot_count: Option<u64>,
}

/// What a successful `/status` read reports: whether the entity is ready,
/// and the unsigned integers of its runtime block.
#[derive(Clone, Copy)]
pub struct StatusReport {
    pub ready: bool,
    pub boot_id: Option<u64>,
    pub hb_seq: Option<u64>,
    pub boot_count: Option<u64>,
}

/// The low 32 bits of an optional 64-bit value (an `as u32` cast).
pub open spec fn low_u32(o: Option<u64>) -> Option<u32> {
    match o {
        Some(v) => Some(v as u32),
        None => None,
    }
}

/// The low 32 bits of a value: a value below 2^32 is kept as it is, and a
/// larger one wraps modulo 2^32.
pub proof fn lemma_low_u32_wraps(v: u64)
    ensures
        low_u32(Some(v)) == Some((v % 0x1_0000_0000) as u32),
        v < 0x1_0000_0000 ==> low_u32(Some(v)) == Some(v as u32) && (v as u32) as u64 == v,
        low_u32(None) is None,
{
    assert(v as u32 == (v % 0x1_0000_0000) as u32) by (bit_vector);
    assert(v < 0x1_0000_0000 ==> (v as u32) as u64 == v) by (bit_vector);
}

fn truncate_u32(o: Option<u64>) -> (r: Option<u32>)
    ensures
        r == low_u32(o),
{
    match o {
        Some(v) => Some(v as u32),
        None => None,
    }
}

/// Guest liveness from a `/status` read; `None` (unreachable) leaves every
/// field absent.  The 32-bit fields keep the low 32 bits of what was read.
pub fn runtime_status(report: Option<StatusReport>) -> (r: RuntimeStatus)
    ensures
        report is None ==> r.ready is None && r.boot_id is None && r.hb_seq is None
            && r.boot_count is None,
        report matches Some(s) ==> r.ready == Some(s.ready) && r.boot_id == low_u32(s.boot_id)
            && r.hb_seq == low_u32(s.hb_seq) && r.boot_count == s.boot_count,
{
    match report {
        None => RuntimeStatus { ready: None, boot_id: None, hb_seq: None, boot_count: None },
        Some(s) => RuntimeStatus {
            ready: Some(s.ready),
            boot_id: truncate_u32(s.boot_id),
            hb_seq: truncate_u32(s.hb_seq),
            boot_count: s.boot_count,
        },
    }
}

/// The status of an ECU with identity `ecu`, lifecycle `l`, version,
/// diagnostics and liveness as given.
pub open spec fn assembled_view(
    ecu: EcuInfoView,
    l: LifecycleView,
    version: Option<Seq<char>>,
    diagnostics: Seq<(Seq<char>, Seq<char>)>,
    runtime: RuntimeStatus,
) -> EcuStatusView {
    EcuStatusView {
        id: ecu.id,
        name: ecu.name,
        transfer_state: l.transfer_state,
        activation_state: l.activation_state,
        version,
        supports_rollback: l.supports_rollback,
        progress_bits: l.progress_bits,
        error: l.error,
        diagnostics,
        ready: runtime.ready,
        boot_id: runtime.boot_id,
        hb_seq: runtime.hb_seq,
        boot_count: runtime.boot_count,
    }
}

/// The status of an ECU from what one polling round read about it.
pub fn assemble_status(
    ecu: &EcuInfo,
    lifecycle: Lifecycle,
    version: Option<String>,
    diagnostics: Diagnostics,
    runtime: RuntimeStatus,
) -> (r: EcuStatus)
    ensures
        r@ == assembled_view(ecu@, lifecycle@, opt_text(version), diagnostics@, runtime),
{
    EcuStatus {
        id: ecu.id.clone(),
        name: ecu.name.clone(),
        transfer_state: lifecycle.transfer_state,
        activation_state: lifecycle.activation_state,
        version,
        supports_rollback: lifecycle.supports_rollback,
        progress_bits: lifecycle.progress_bits,
        error: lifecycle.error,
        diagnostics,
        ready: runtime.ready,
        boot_id: runtime.boot_id,
        hb_seq: runtime.hb_seq,
        boot_count: runtime.boot_count,
    }
}

/// An assembled status keeps the identity of its ECU and exactly what was
/// read: every lifecycle field, the version, the diagnostics and the
/// liveness fields, unchanged.
pub proof fn lemma_assembled_status_keeps_readings(
    ecu: EcuInfoView,
    l: LifecycleView,
    version: Option<Seq<char>>,
    diagnostics: Seq<(Seq<char>, Seq<char>)>,
    runtime: RuntimeStatus,
)
    ensures
        ({
            let s = assembled_view(ecu, l, version, diagnostics, runtime);
            &&& s.id == ecu.id && s.name == ecu.name
            &&& s.transfer_state == l.transfer_state && s.activation_state == l.activation_state
            &&& s.supports_rollback == l.supports_rollback
            &&& s.progress_bits == l.progress_bits && s.error == l.error
            &&& s.version == version && s.diagnostics == diagnostics
            &&& s.ready == runtime.ready && s.boot_id == runtime.boot_id
            &&& s.hb_seq == runtime.hb_seq && s.boot_count == runtime.boot_count
        }),
{
}

/// A polled ECU whose latest body is a trial awaiting its verdict offers
/// rollback; one whose body awaits none, or that has no body, does not.
pub proof fn lemma_rollback_offered_while_awaiting_verdict(
    ecu: EcuInfoView,
    body: Option<UpdateStatus>,
    version: Option<Seq<char>>,
    diagnostics: Seq<(Seq<char>, Seq<char>)>,
    runtime: RuntimeStatus,
)
    ensures
        assembled_view(ecu, lifecycle_view(body), version, diagnostics, runtime).supports_rollback
            == (body matches Some(b) && b.awaiting_verdict),
{
}

/// A status about which nothing is known keeps the ECU's identity and has
/// every other field absent, offering no rollback.
pub proof fn lemma_idle_knows_nothing(ecu: EcuInfoView)
    ensures
        idle_view(ecu).id == ecu.id && idle_view(ecu).name == ecu.name,
        idle_view(ecu).transfer_state is None && idle_view(ecu).activation_state is None,
        idle_view(ecu).version is None && idle_view(ecu).error is None,
        !idle_view(ecu).supports_rollback && idle_view(ecu).progress_bits is None,
        idle_view(ecu).diagnostics.len() == 0,
        idle_view(ecu).ready is None && idle_view(ecu).boot_id is None,
        idle_view(ecu).hb_seq is None && idle_view(ecu).boot_count is None,
{
}

/// What one polling round read about an ECU whose update resource could be
/// addressed.
pub struct EcuReading {
    /// The latest `/updates` status body (`None`: no updates, or the read failed).
    pub update: Option<UpdateStatus>,
    /// The installed firmware version, if it could be read.
    pub version: Option<String>,
    pub diagnostics: Diagnostics,
    pub runtime: RuntimeStatus,
}

/// The status of an ECU after a polling round: idle when its update resource
/// could not be addressed (`None`), else assembled from what was read, its
/// lifecycle following the latest status body.
pub fn polled_status(ecu: &EcuInfo, reading: Option<EcuReading>) -> (r: EcuStatus)
    ensures
        reading is None ==> r@ == idle_view(ecu@),
        reading matches Some(rd) ==> r@ == assembled_view(
            ecu@,
            lifecycle_view(rd.update),
            opt_text(rd.version),
            rd.diagnostics@,
            rd.runtime,
        ),
{
    match reading {
        None => idle_status(ecu),
        Some(rd) => {
            let lifecycle = lifecycle_of(rd.update.as_ref());
            assemble_status(ecu, lifecycle, rd.version, rd.diagnostics, rd.runtime)
        },
    }
}

/// The value read from the firmware-version identification DID.
pub enum IdentValue {
    /// JSON `null`.
    Null,
    /// A JSON string: its content.
    Text { text: String },
    /// Any other JSON value, rendered.
    Other { json: String },
}

/// The installed firmware version from the identification DID, as display
/// text: a string as it is, `null` as none, anything else as its JSON
/// rendering trimmed of quotes.
pub fn firmware_version(value: IdentValue) -> (r: Option<String>)
    ensures
        match value {
            IdentValue::Null => r is None,
            IdentValue::Text { text } => opt_text(r) == Some(text@),
            IdentValue::Other { json } => opt_text(r) == Some(trim_quotes(json@)),
        },
{
    match value {
        IdentValue::Null => None,
        IdentValue::Text { text } => Some(text),
        IdentValue::Other { json } => Some(trimmed_of_quotes(json.as_str())),
    }
}

/// The UDS DID of the vehicle manufacturer ECU software version number,
/// read as the installed firmware version.
pub fn firmware_version_did() -> (r: String)
    ensures
        r@ == "F189"@,
{
    owned("F189")
}

/// Where requests about an entity go.
pub enum Route {
    /// To the component itself.
    Direct { component: String },
    /// To an app of a gateway component.
    SubEntity { gateway: String, app: String },
}

/// The content of a [`Route`].
pub enum RouteView {
    Direct(Seq<char>),
    SubEntity(Seq<char>, Seq<char>),
}

impl View for Route {
    type V = RouteView;

    open spec fn view(&self) -> RouteView {
        match self {
            Route::Direct { component } => RouteView::Direct(component@),
            Route::SubEntity { gateway, app } => RouteView::SubEntity(gateway@, app@),
        }
    }
}

/// The route to an ECU: direct when it has no gateway.
pub fn route_for_ecu(ecu: &EcuInfo) -> (r: Route)
    ensures
        r@ == (if ecu.gateway_id@.len() == 0 {
            RouteView::Direct(ecu.id@)
        } else {
            RouteView::SubEntity(ecu.gateway_id@, ecu.id@)
        }),
{
    if ecu.gateway_id.as_str().is_empty() {
        Route::Direct { component: ecu.id.clone() }
    } else {
        Route::SubEntity { gateway: ecu.gateway_id.clone(), app: ecu.id.clone() }
    }
}

/// The route to a component given the gateway recorded at connect time:
/// through the gateway when there is a non-empty one, else direct.
pub fn route_for_component(gateway: &Option<String>, component: &String) -> (r: Route)
    ensures
        r@ == (match gateway {
            Some(g) if g@.len() > 0 => RouteView::SubEntity(g@, component@),
            _ => RouteView::Direct(component@),
        }),
{
    match gateway {
        Some(g) => {
            if !g.as_str().is_empty() {
                Route::SubEntity { gateway: g.clone(), app: component.clone() }
            } else {
                Route::Direct { component: component.clone() }
            }
        },
        None => Route::Direct { component: component.clone() },
    }
}

/// The bank/security diagnostic DIDs looked for on each ECU.
pub fn diagnostic_params() -> (r: Vec<String>)
    ensures
        texts(r@) == seq!["active_bank"@, "committed"@, "min_security_ver"@, "current_security_ver"@],
{
    let mut r: Vec<String> = Vec::new();
    r.push(owned("active_bank"));
    r.push(owned("committed"));
    r.push(owned("min_security_ver"));
    r.push(owned("current_security_ver"));
    assert(texts(r@) =~= seq!["active_bank"@, "committed"@, "min_security_ver"@, "current_security_ver"@]);
    r
}

/// Whether `s` is one of `v`.
pub fn contains_text(v: &Vec<String>, s: &String) -> (r: bool)
    ensures
        r == texts(v@).contains(s@),
{
    let mut i: usize = 0;
    while i < v.len()
        invariant
            i <= v.len(),
            forall|k: int| 0 <= k < i ==> v@[k]@ != s@,
        decreases v.len() - i,
    {
        if v[i] == *s {
            assert(texts(v@)[i as int] == s@);
            return true;
        }
        i = i + 1;
    }
    proof {
        if texts(v@).contains(s@) {
            let k = choose|k: int| 0 <= k < texts(v@).len() && texts(v@)[k] == s@;
            assert(v@[k]@ == s@);
        }
    }
    false
}

/// Whether a text is among `wanted`.
pub open spec fn among(wanted: Seq<Seq<char>>) -> spec_fn(Seq<char>) -> bool {
    |t: Seq<char>| wanted.contains(t)
}

/// The parameters kept from a listing are exactly those of the listing that
/// are wanted: every kept one was listed and is wanted, and every listed one
/// that is wanted is kept.
pub proof fn lemma_kept_are_listed_and_wanted(items: Seq<Seq<char>>, wanted: Seq<Seq<char>>, t: Seq<char>)
    ensures
        items.filter(among(wanted)).contains(t) <==> (items.contains(t) && wanted.contains(t)),
{
    if items.filter(among(wanted)).contains(t) {
        let f = items.filter(among(wanted));
        let j = choose|j: int| 0 <= j < f.len() && f[j] == t;
        items.lemma_filter_pred(among(wanted), j);
        items.lemma_filter_contains_rev(among(wanted), t);
    }
    if items.contains(t) && wanted.contains(t) {
        let i = choose|i: int| 0 <= i < items.len() && items[i] == t;
        items.lemma_filter_contains(among(wanted), i);
    }
}

/// Wanting more parameters never drops one that was kept: every item kept
/// for `w1` is kept for any `w2` that includes `w1`.
pub proof fn lemma_wanting_more_keeps_more(items: Seq<Seq<char>>, w1: Seq<Seq<char>>, w2: Seq<Seq<char>>, t: Seq<char>)
    requires
        forall|x: Seq<char>| w1.contains(x) ==> w2.contains(x),
        items.filter(among(w1)).contains(t),
    ensures
        items.filter(among(w2)).contains(t),
{
    let f = items.filter(among(w1));
    let j = choose|j: int| 0 <= j < f.len() && f[j] == t;
    items.lemma_filter_pred(among(w1), j);
    items.lemma_filter_contains_rev(among(w1), t);
    let i = choose|i: int| 0 <= i < items.len() && items[i] == t;
    items.lemma_filter_contains(among(w2), i);
}

/// The parameters of a listing that are wanted; a failed listing (`None`)
/// yields none.
pub fn available_params(listing: &Option<Vec<String>>, wanted: &Vec<String>) -> (r: Vec<String>)
    ensures
        listing is None ==> r@.len() == 0,
        listing matches Some(items) ==> texts(r@) == texts(items@).filter(among(texts(wanted@))),
{
    match listing {
        None => Vec::new(),
        Some(items) => {
            let mut r: Vec<String> = Vec::new();
            let mut i: usize = 0;
            while i < items.len()
                invariant
                    i <= items.len(),
                    texts(r@) == texts(items@.take(i as int)).filter(among(texts(wanted@))),
                decreases items.len() - i,
            {
                reveal_with_fuel(Seq::filter, 1);
                assert(texts(items@.take(i as int + 1)).drop_last() =~= texts(items@.take(i as int)));
                assert(texts(items@.take(i as int + 1)).last() == items@[i as int]@);
                if contains_text(wanted, &items[i]) {
                    r.push(items[i].clone());
                    assert(texts(r@) =~= texts(r@.drop_last()).push(items@[i as int]@));
                }
                i = i + 1;
            }
            assert(items@.take(i as int) =~= items@);
            r
        },
    }
}

} // verus!
