//! Discovery of the ECUs behind an SOVD server: top-level components that
//! expose sub-entity apps are gateways, and their apps are the ECUs; any
//! other component is an ECU of its own.

use vstd::prelude::*;
use crate::ecu::{EcuInfo, EcuInfoView, EcuStatus, EcuStatusView, idle_status, idle_view, texts};
use crate::history::status_views;
use crate::text::opt_text;

verus! {

/// An entity as a listing names it.
pub struct Entity {
    pub id: String,
    pub name: String,
}

/// Whether a component is a gateway, given its listing of sub-entity apps
/// (`None`: the listing failed): a gateway lists at least one app.
pub fn is_gateway(apps: &Option<Vec<Entity>>) -> (r: bool)
    ensures
        r == (apps matches Some(a) && a@.len() > 0),
{
    match apps {
        Some(a) => a.len() > 0,
        None => false,
    }
}

/// An app of a gateway, with the diagnostic parameters found on it.
pub struct ProbedApp {
    pub id: String,
    pub name: String,
    pub params: Vec<String>,
}

/// What probing a component found.
pub enum Probe {
    /// A gateway, with its apps.
    Gateway { apps: Vec<ProbedApp> },
    /// A directly reachable ECU, with the diagnostic parameters found on it.
    Direct { params: Vec<String> },
}

/// A top-level component and what probing it found.
pub struct ProbedComponent {
    pub id: String,
    pub name: String,
    pub probe: Probe,
}

/// The ECUs a probed component stands for: the apps of a gateway, routed
/// through it, or the component itself, with no gateway.
pub open spec fn component_ecus(c: ProbedComponent) -> Seq<EcuInfoView> {
    match c.probe {
        Probe::Gateway { apps } => apps@.map_values(|a: ProbedApp| EcuInfoView {
            id: a.id@,
            name: a.name@,
            gateway_id: c.id@,
            diagnostic_params: texts(a.params@),
        }),
        Probe::Direct { params } => seq![EcuInfoView {
            id: c.id@,
            name: c.name@,
            gateway_id: Seq::empty(),
            diagnostic_params: texts(params@),
        }],
    }
}

/// The ECUs of the components, in order.
pub open spec fn all_ecus(cs: Seq<ProbedComponent>) -> Seq<EcuInfoView>
    decreases cs.len(),
{
    if cs.len() == 0 {
        Seq::empty()
    } else {
        all_ecus(cs.drop_last()) + component_ecus(cs.last())
    }
}

/// The id of the last gateway among the components.
pub open spec fn last_gateway(cs: Seq<ProbedComponent>) -> Option<Seq<char>>
    decreases cs.len(),
{
    if cs.len() == 0 {
        None
    } else {
        match cs.last().probe {
            Probe::Gateway { .. } => Some(cs.last().id@),
            Probe::Direct { .. } => last_gateway(cs.drop_last()),
        }
    }
}

/// Every discovered ECU is either reached directly (no gateway) or through
/// a component that probing found to be a gateway.
pub proof fn lemma_discovered_gateways_are_probed(cs: Seq<ProbedComponent>, i: int)
    requires
        0 <= i < all_ecus(cs).len(),
    ensures
        all_ecus(cs)[i].gateway_id.len() == 0 || exists|j: int| 0 <= j < cs.len()
            && cs[j].probe is Gateway && #[trigger] cs[j].id@ == all_ecus(cs)[i].gateway_id,
    decreases cs.len(),
{
    let rest = all_ecus(cs.drop_last());
    if i < rest.len() {
        lemma_discovered_gateways_are_probed(cs.drop_last(), i);
        assert(all_ecus(cs)[i] == rest[i]);
        if rest[i].gateway_id.len() != 0 {
            let j = choose|j: int| 0 <= j < cs.drop_last().len() && cs.drop_last()[j].probe is Gateway
                && #[trigger] cs.drop_last()[j].id@ == rest[i].gateway_id;
            assert(cs[j] == cs.drop_last()[j]);
        }
    } else {
        let c = cs.last();
        assert(all_ecus(cs)[i] == component_ecus(c)[i - rest.len()]);
        if c.probe is Gateway {
            assert(cs[cs.len() - 1] == c);
        }
    }
}

/// The ECUs of the first `n` components come first, in order.
proof fn lemma_all_ecus_prefix(cs: Seq<ProbedComponent>, n: int)
    requires
        0 <= n <= cs.len(),
    ensures
        all_ecus(cs.take(n)).len() <= all_ecus(cs).len(),
        forall|j: int| 0 <= j < all_ecus(cs.take(n)).len() ==> all_ecus(cs)[j] == #[trigger] all_ecus(cs.take(n))[j],
    decreases cs.len(),
{
    if n == cs.len() {
        assert(cs.take(n) =~= cs);
    } else {
        lemma_all_ecus_prefix(cs.drop_last(), n);
        assert(cs.drop_last().take(n) =~= cs.take(n));
        let a = all_ecus(cs.drop_last());
        assert forall|j: int| 0 <= j < all_ecus(cs.take(n)).len() implies all_ecus(cs)[j]
            == #[trigger] all_ecus(cs.take(n))[j] by {
            assert(all_ecus(cs)[j] == a[j]);
        }
    }
}

/// The ECUs that component `i` stands for, at the place where they stand
/// among all discovered ECUs.
proof fn lemma_component_ecus_in_place(cs: Seq<ProbedComponent>, i: int, m: int)
    requires
        0 <= i < cs.len(),
        0 <= m < component_ecus(cs[i]).len(),
    ensures
        all_ecus(cs.take(i)).len() + m < all_ecus(cs).len(),
        all_ecus(cs)[all_ecus(cs.take(i)).len() + m] == component_ecus(cs[i])[m],
{
    lemma_all_ecus_prefix(cs, i + 1);
    assert(cs.take(i + 1).drop_last() =~= cs.take(i));
    assert(cs.take(i + 1).last() == cs[i]);
    let pre = all_ecus(cs.take(i + 1));
    assert(pre[all_ecus(cs.take(i)).len() + m] == component_ecus(cs[i])[m]);
}

/// A directly reachable component is discovered as one ECU of its own: same
/// id and name, no gateway, and exactly the diagnostic parameters found on it.
pub proof fn lemma_direct_component_is_an_ecu(cs: Seq<ProbedComponent>, i: int, params: Vec<String>)
    requires
        0 <= i < cs.len(),
        cs[i].probe == (Probe::Direct { params }),
    ensures
        all_ecus(cs.take(i)).len() < all_ecus(cs).len(),
        all_ecus(cs)[all_ecus(cs.take(i)).len() as int] == (EcuInfoView {
            id: cs[i].id@,
            name: cs[i].name@,
            gateway_id: Seq::empty(),
            diagnostic_params: texts(params@),
        }),
{
    assert(component_ecus(cs[i]).len() == 1);
    lemma_component_ecus_in_place(cs, i, 0);
}

/// Each app of a gateway is discovered as an ECU: the app's id and name,
/// routed through the gateway, with exactly the diagnostic parameters found
/// on the app; a gateway's apps come in their order.
pub proof fn lemma_gateway_app_is_an_ecu(cs: Seq<ProbedComponent>, i: int, apps: Vec<ProbedApp>, m: int)
    requires
        0 <= i < cs.len(),
        cs[i].probe == (Probe::Gateway { apps }),
        0 <= m < apps@.len(),
    ensures
        all_ecus(cs.take(i)).len() + m < all_ecus(cs).len(),
        all_ecus(cs)[all_ecus(cs.take(i)).len() + m] == (EcuInfoView {
            id: apps@[m].id@,
            name: apps@[m].name@,
            gateway_id: cs[i].id@,
            diagnostic_params: texts(apps@[m].params@),
        }),
{
    assert(component_ecus(cs[i]).len() == apps@.len());
    lemma_component_ecus_in_place(cs, i, m);
}

/// The gateway remembered is the last component found to be a gateway;
/// there is none when no component is one.
pub proof fn lemma_gateway_is_last_found(cs: Seq<ProbedComponent>, i: int)
    requires
        0 <= i < cs.len(),
        cs[i].probe is Gateway,
        forall|j: int| i < j < cs.len() ==> cs[j].probe is Direct,
    ensures
        last_gateway(cs) == Some(cs[i].id@),
    decreases cs.len(),
{
    if i < cs.len() - 1 {
        assert(cs.last() == cs[cs.len() - 1]);
        assert(cs.drop_last()[i] == cs[i]);
        assert forall|j: int| i < j < cs.drop_last().len() implies cs.drop_last()[j].probe is Direct by {
            assert(cs.drop_last()[j] == cs[j]);
        }
        lemma_gateway_is_last_found(cs.drop_last(), i);
    }
}

/// With no gateway among the components, no gateway is remembered.
pub proof fn lemma_no_gateway_found(cs: Seq<ProbedComponent>)
    requires
        forall|j: int| 0 <= j < cs.len() ==> cs[j].probe is Direct,
    ensures
        last_gateway(cs) is None,
    decreases cs.len(),
{
    if cs.len() > 0 {
        assert(cs.last() == cs[cs.len() - 1]);
        assert forall|j: int| 0 <= j < cs.drop_last().len() implies cs.drop_last()[j].probe is Direct by {
            assert(cs.drop_last()[j] == cs[j]);
        }
        lemma_no_gateway_found(cs.drop_last());
    }
}

/// The contents of a list of ECUs.
pub open spec fn info_views(s: Seq<EcuInfo>) -> Seq<EcuInfoView> {
    s.map_values(|e: EcuInfo| e@)
}

/// The ECUs discovered, and the gateway they are reached through, if any.
pub struct Discovery {
    pub ecus: Vec<EcuInfo>,
    pub gateway_id: Option<String>,
}

fn copy_strings(v: &Vec<String>) -> (r: Vec<String>)
    ensures
        texts(r@) == texts(v@),
{
    let mut r: Vec<String> = Vec::new();
    let mut i: usize = 0;
    while i < v.len()
        invariant
            i <= v.len(),
            texts(r@) == texts(v@.take(i as int)),
        decreases v.len() - i,
    {
        let ghost before = r@;
        r.push(v[i].clone());
        assert(v@.take(i as int + 1) =~= v@.take(i as int).push(v@[i as int]));
        assert(texts(r@) =~= texts(before).push(v@[i as int]@));
        assert(texts(v@.take(i as int + 1)) =~= texts(v@.take(i as int)).push(v@[i as int]@));
        i = i + 1;
    }
    assert(v@.take(i as int) =~= v@);
    r
}

/// The ECUs of the probed components, in order, and the last gateway.
pub fn assemble_ecus(components: &Vec<ProbedComponent>) -> (r: Discovery)
    ensures
        info_views(r.ecus@) == all_ecus(components@),
        opt_text(r.gateway_id) == last_gateway(components@),
{
    let mut ecus: Vec<EcuInfo> = Vec::new();
    let mut gateway_id: Option<String> = None;
    let mut i: usize = 0;
    while i < components.len()
        invariant
            i <= components.len(),
            info_views(ecus@) == all_ecus(components@.take(i as int)),
            opt_text(gateway_id) == last_gateway(components@.take(i as int)),
        decreases components.len() - i,
    {
        let c = &components[i];
        let ghost base = info_views(ecus@);
        assert(components@.take(i as int + 1).drop_last() =~= components@.take(i as int));
        assert(components@.take(i as int + 1).last() == *c);
        match &c.probe {
            Probe::Gateway { apps } => {
                let mut j: usize = 0;
                while j < apps.len()
                    invariant
                        j <= apps.len(),
                        info_views(ecus@) == base + component_ecus(*c).take(j as int),
                        c.probe == (Probe::Gateway { apps: *apps }),
                        component_ecus(*c).len() == apps@.len(),
                    decreases apps.len() - j,
                {
                    let a = &apps[j];
                    let ghost before = ecus@;
                    let ghost ce = component_ecus(*c);
                    assert(ce[j as int] == (EcuInfoView {
                        id: a.id@,
                        name: a.name@,
                        gateway_id: c.id@,
                        diagnostic_params: texts(a.params@),
                    }));
                    assert(ce.take(j as int + 1) =~= ce.take(j as int).push(ce[j as int]));
                    ecus.push(EcuInfo {
                        id: a.id.clone(),
                        name: a.name.clone(),
                        gateway_id: c.id.clone(),
                        diagnostic_params: copy_strings(&a.params),
                    });
                    assert(info_views(ecus@) =~= info_views(before).push(ce[j as int]));
                    assert(info_views(ecus@) =~= base + component_ecus(*c).take(j as int + 1));
                    j = j + 1;
                }
                assert(component_ecus(*c).take(j as int) =~= component_ecus(*c));
                gateway_id = Some(c.id.clone());
            },
            Probe::Direct { params } => {
                ecus.push(EcuInfo {
                    id: c.id.clone(),
                    name: c.name.clone(),
                    gateway_id: String::new(),
                    diagnostic_params: copy_strings(params),
                });
                assert(info_views(ecus@) =~= base + component_ecus(*c));
            },
        }
        i = i + 1;
    }
    assert(components@.take(i as int) =~= components@);
    Discovery { ecus, gateway_id }
}

/// The statuses shown right after connecting: every discovered ECU, with
/// nothing known of it yet.
pub fn initial_statuses(ecus: &Vec<EcuInfo>) -> (r: Vec<EcuStatus>)
    ensures
        status_views(r@) == info_views(ecus@).map_values(|e: EcuInfoView| idle_view(e)),
{
    let mut r: Vec<EcuStatus> = Vec::new();
    let mut i: usize = 0;
    while i < ecus.len()
        invariant
            i <= ecus.len(),
            status_views(r@) == info_views(ecus@.take(i as int)).map_values(|e: EcuInfoView| idle_view(e)),
        decreases ecus.len() - i,
    {
        let ghost before = r@;
        r.push(idle_status(&ecus[i]));
        assert(ecus@.take(i as int + 1) =~= ecus@.take(i as int).push(ecus@[i as int]));
        assert(status_views(r@) =~= status_views(before).push(idle_view(ecus@[i as int]@)));
        assert(info_views(ecus@.take(i as int + 1)).map_values(|e: EcuInfoView| idle_view(e))
            =~= info_views(ecus@.take(i as int)).map_values(|e: EcuInfoView| idle_view(e)).push(idle_view(ecus@[i as int]@)));
        assert(status_views(r@) =~= info_views(ecus@.take(i as int + 1)).map_values(|e: EcuInfoView| idle_view(e)));
        i = i + 1;
    }
    assert(ecus@.take(i as int) =~= ecus@);
    r
}

} // verus!
