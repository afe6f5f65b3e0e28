//! What the poller remembers between rounds: the last status seen of each
//! ECU, and one polling round that logs the transitions against it.

use vstd::prelude::*;
use crate::diff::{ChangeView, StateChange, changes_view, diff_ecu_status, ecu_changes, opt_status};
use crate::clock::is_clock_text;
use crate::diagnostics::distinct_keys;
use crate::ecu::{EcuStatus, EcuStatusView, copy_status};
use crate::history_laws::lemma_steady_round_logs_nothing;

verus! {

/// No two statuses share an ECU id.
pub open spec fn ids_distinct(es: Seq<EcuStatus>) -> bool {
    forall|i: int, j: int| 0 <= i < es.len() && 0 <= j < es.len() && i != j ==> es[i]@.id != es[j]@.id
}

/// The statuses of `es`, keyed by ECU id.
pub open spec fn keyed(es: Seq<EcuStatus>) -> Map<Seq<char>, EcuStatusView> {
    Map::new(
        |k: Seq<char>| exists|i: int| 0 <= i < es.len() && es[i]@.id == k,
        |k: Seq<char>| es[choose|i: int| 0 <= i < es.len() && es[i]@.id == k]@,
    )
}

proof fn lemma_keyed_at(es: Seq<EcuStatus>, i: int)
    requires
        ids_distinct(es),
        0 <= i < es.len(),
    ensures
        keyed(es).dom().contains(es[i]@.id),
        keyed(es)[es[i]@.id] == es[i]@,
{
    let k = es[i]@.id;
    assert(keyed(es).dom().contains(k));
    let j = choose|j: int| 0 <= j < es.len() && es[j]@.id == k;
    assert(j == i);
}

/// Writing status `sv` at position `p` (over the entry of the same ECU, or
/// appended when no entry has its id) keeps the ids distinct and maps the
/// ECU to `sv`.
proof fn lemma_keyed_after_write(old_es: Seq<EcuStatus>, new_es: Seq<EcuStatus>, p: int, sv: EcuStatusView)
    requires
        ids_distinct(old_es),
        0 <= p <= old_es.len(),
        new_es.len() == (if p == old_es.len() { old_es.len() + 1 } else { old_es.len() + 0 }),
        new_es[p]@ == sv,
        forall|k: int| 0 <= k < new_es.len() && k != p ==> new_es[k] == old_es[k],
        p < old_es.len() ==> old_es[p]@.id == sv.id,
        p == old_es.len() ==> forall|k: int| 0 <= k < old_es.len() ==> old_es[k]@.id != sv.id,
    ensures
        ids_distinct(new_es),
        keyed(new_es) == keyed(old_es).insert(sv.id, sv),
{
    assert forall|a: int, b: int| 0 <= a < new_es.len() && 0 <= b < new_es.len() && a != b
        implies new_es[a]@.id != new_es[b]@.id by {
        if a != p {
            assert(new_es[a] == old_es[a]);
        }
        if b != p {
            assert(new_es[b] == old_es[b]);
        }
    }
    assert forall|k: Seq<char>| #![trigger keyed(new_es).dom().contains(k)]
        keyed(new_es).dom().contains(k) == keyed(old_es).insert(sv.id, sv).dom().contains(k) by {
        if k == sv.id {
            assert(new_es[p]@.id == k);
        } else if keyed(old_es).dom().contains(k) {
            let i = choose|i: int| 0 <= i < old_es.len() && old_es[i]@.id == k;
            assert(new_es[i] == old_es[i]);
        } else if keyed(new_es).dom().contains(k) {
            let i = choose|i: int| 0 <= i < new_es.len() && new_es[i]@.id == k;
            assert(new_es[i] == old_es[i]);
        }
    }
    assert forall|k: Seq<char>| #[trigger] keyed(new_es).dom().contains(k)
        implies keyed(new_es)[k] == keyed(old_es).insert(sv.id, sv)[k] by {
        let i = choose|i: int| 0 <= i < new_es.len() && new_es[i]@.id == k;
        lemma_keyed_at(new_es, i);
        if k != sv.id {
            assert(new_es[i] == old_es[i]);
            lemma_keyed_at(old_es, i);
        }
    }
    assert(keyed(new_es) =~= keyed(old_es).insert(sv.id, sv));
}

/// The last status seen of each ECU, keyed by its id.
pub struct StatusHistory {
    entries: Vec<EcuStatus>,
}

impl View for StatusHistory {
    type V = Map<Seq<char>, EcuStatusView>;

    closed spec fn view(&self) -> Map<Seq<char>, EcuStatusView> {
        keyed(self.entries@)
    }
}

impl StatusHistory {
    /// Each ECU id is held at most once.
    pub closed spec fn well_formed(&self) -> bool {
        ids_distinct(self.entries@)
    }

    /// A history that has seen nothing.
    pub fn new() -> (r: StatusHistory)
        ensures
            r.well_formed(),
            r@ == Map::<Seq<char>, EcuStatusView>::empty(),
    {
        let r = StatusHistory { entries: Vec::new() };
        assert(r@ =~= Map::<Seq<char>, EcuStatusView>::empty());
        r
    }

    fn find(&self, id: &String) -> (r: Option<usize>)
        ensures
            r matches Some(i) ==> i < self.entries@.len() && self.entries@[i as int]@.id == id@,
            r is None ==> forall|i: int| 0 <= i < self.entries@.len() ==> self.entries@[i]@.id != id@,
    {
        let mut i: usize = 0;
        while i < self.entries.len()
            invariant
                i <= self.entries@.len(),
                forall|k: int| 0 <= k < i ==> self.entries@[k]@.id != id@,
            decreases self.entries.len() - i,
        {
            if self.entries[i].id == *id {
                return Some(i);
            }
            i = i + 1;
        }
        None
    }

    /// The last status seen of ECU `id`.
    pub fn get(&self, id: &String) -> (r: Option<&EcuStatus>)
        requires
            self.well_formed(),
        ensures
            opt_status(r) == (if self@.dom().contains(id@) { Some(self@[id@]) } else { None }),
    {
        match self.find(id) {
            Some(i) => {
                proof { lemma_keyed_at(self.entries@, i as int); }
                Some(&self.entries[i])
            },
            None => {
                assert(!self@.dom().contains(id@));
                None
            },
        }
    }

    /// Remembers `s` as the last status seen of its ECU.
    pub fn record(&mut self, s: EcuStatus)
        requires
            old(self).well_formed(),
        ensures
            final(self).well_formed(),
            final(self)@ == old(self)@.insert(s@.id, s@),
    {
        let ghost old_es = self.entries@;
        let ghost sv = s@;
        match self.find(&s.id) {
            Some(j) => {
                self.entries.set(j, s);
                proof { lemma_keyed_after_write(old_es, self.entries@, j as int, sv); }
            },
            None => {
                self.entries.push(s);
                proof { lemma_keyed_after_write(old_es, self.entries@, old_es.len() as int, sv); }
            },
        }
    }
}

/// What one polling round yields: the statuses read, and the lines logged.
pub struct CampaignStatus {
    pub ecus: Vec<EcuStatus>,
    pub changes: Vec<StateChange>,
}

/// The contents of a list of statuses.
pub open spec fn status_views(s: Seq<EcuStatus>) -> Seq<EcuStatusView> {
    s.map_values(|e: EcuStatus| e@)
}

/// The last status `m` holds for ECU `id`, if any.
pub open spec fn prior(m: Map<Seq<char>, EcuStatusView>, id: Seq<char>) -> Option<EcuStatusView> {
    if m.dom().contains(id) {
        Some(m[id])
    } else {
        None
    }
}

/// The lines a round logs for statuses `st` read in turn, the i-th stamped
/// `stamps[i]`, each against what `before` held for its ECU.
pub open spec fn round_changes(
    stamps: Seq<Seq<char>>,
    before: Map<Seq<char>, EcuStatusView>,
    st: Seq<EcuStatusView>,
) -> Seq<ChangeView>
    decreases st.len(),
{
    if st.len() == 0 {
        Seq::empty()
    } else {
        round_changes(stamps.drop_last(), before, st.drop_last())
            + ecu_changes(stamps.last(), prior(before, st.last().id), st.last())
    }
}

/// `m` after recording the statuses `st` in turn.
pub open spec fn record_all(m: Map<Seq<char>, EcuStatusView>, st: Seq<EcuStatusView>) -> Map<Seq<char>, EcuStatusView>
    decreases st.len(),
{
    if st.len() == 0 {
        m
    } else {
        record_all(m, st.drop_last()).insert(st.last().id, st.last())
    }
}

/// One polling round: logs, for each status read, the transitions from the
/// last status seen of its ECU (each ECU's lines stamped with the clock
/// when it is compared), then remembers every status read.
pub fn poll_round(history: &mut StatusHistory, statuses: Vec<EcuStatus>) -> (r: CampaignStatus)
    requires
        old(history).well_formed(),
    ensures
        final(history).well_formed(),
        final(history)@ == record_all(old(history)@, status_views(statuses@)),
        status_views(r.ecus@) == status_views(statuses@),
        exists|stamps: Seq<Seq<char>>| stamps.len() == statuses@.len()
            && (forall|k: int| 0 <= k < stamps.len() ==> is_clock_text(#[trigger] stamps[k]))
            && changes_view(r.changes@) == round_changes(stamps, old(history)@, status_views(statuses@)),
        forall|k: int| 0 <= k < statuses@.len() ==> distinct_keys(#[trigger] status_views(statuses@)[k].diagnostics),
        (forall|k: int| 0 <= k < statuses@.len() ==> prior(old(history)@, #[trigger] status_views(statuses@)[k].id)
            == Some(status_views(statuses@)[k])) ==> r.changes@.len() == 0,
{
    let ghost sv = status_views(statuses@);
    let ghost before = history@;
    let mut changes: Vec<StateChange> = Vec::new();
    let ghost mut stamps: Seq<Seq<char>> = Seq::empty();
    let mut i: usize = 0;
    while i < statuses.len()
        invariant
            i <= statuses.len(),
            history.well_formed(),
            history@ == before,
            sv == status_views(statuses@),
            stamps.len() == i,
            forall|k: int| 0 <= k < stamps.len() ==> is_clock_text(#[trigger] stamps[k]),
            forall|k: int| 0 <= k < i ==> distinct_keys(#[trigger] sv[k].diagnostics),
            changes_view(changes@) == round_changes(stamps, before, sv.take(i as int)),
        decreases statuses.len() - i,
    {
        let st = &statuses[i];
        let prev = history.get(&st.id);
        diff_ecu_status(prev, st, &mut changes);
        proof {
            use_type_invariant(&st.diagnostics);
            assert(sv[i as int] == statuses@[i as int]@);
            let ts = choose|ts: Seq<char>| is_clock_text(ts) && changes_view(changes@)
                == round_changes(stamps, before, sv.take(i as int))
                + ecu_changes(ts, opt_status(prev), statuses@[i as int]@);
            let new_stamps = stamps.push(ts);
            assert(sv.take(i as int + 1).drop_last() =~= sv.take(i as int));
            assert(sv.take(i as int + 1).last() == statuses@[i as int]@);
            assert(new_stamps.drop_last() =~= stamps);
            stamps = new_stamps;
        }
        i = i + 1;
    }
    assert(sv.take(i as int) =~= sv);
    proof {
        if forall|k: int| 0 <= k < sv.len() ==> prior(before, #[trigger] sv[k].id) == Some(sv[k]) {
            lemma_steady_round_logs_nothing(stamps, before, sv);
        }
    }
    let mut j: usize = 0;
    while j < statuses.len()
        invariant
            j <= statuses.len(),
            history.well_formed(),
            sv == status_views(statuses@),
            history@ == record_all(before, sv.take(j as int)),
        decreases statuses.len() - j,
    {
        history.record(copy_status(&statuses[j]));
        assert(sv.take(j as int + 1).drop_last() =~= sv.take(j as int));
        j = j + 1;
    }
    assert(sv.take(j as int) =~= sv);
    CampaignStatus { ecus: statuses, changes }
}

} // verus!
