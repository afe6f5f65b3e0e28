//! What holds across polling rounds.

use vstd::prelude::*;
use crate::diff::ChangeView;
use crate::diff_laws::lemma_unchanged_status_logs_nothing;
use crate::diagnostics::distinct_keys;
use crate::ecu::EcuStatusView;
use crate::history::{prior, record_all, round_changes};

verus! {

/// A status just recorded is the one read back for its ECU; every other
/// ECU reads back what it did before.
pub proof fn lemma_recorded_status_is_read_back(
    m: Map<Seq<char>, EcuStatusView>,
    s: EcuStatusView,
    k: Seq<char>,
)
    ensures
        prior(m.insert(s.id, s), s.id) == Some(s),
        k != s.id ==> prior(m.insert(s.id, s), k) == prior(m, k),
{
}

/// After a round, an ECU that no status of the round names reads back what
/// it did before the round.
pub proof fn lemma_round_keeps_unseen(m: Map<Seq<char>, EcuStatusView>, st: Seq<EcuStatusView>, k: Seq<char>)
    requires
        forall|i: int| 0 <= i < st.len() ==> st[i].id != k,
    ensures
        prior(record_all(m, st), k) == prior(m, k),
    decreases st.len(),
{
    if st.len() > 0 {
        assert(st.last().id != k);
        lemma_round_keeps_unseen(m, st.drop_last(), k);
    }
}

/// After a round, each ECU reads back the last status the round read of it.
pub proof fn lemma_round_remembers_latest(m: Map<Seq<char>, EcuStatusView>, st: Seq<EcuStatusView>, i: int)
    requires
        0 <= i < st.len(),
        forall|j: int| i < j < st.len() ==> st[j].id != st[i].id,
    ensures
        prior(record_all(m, st), st[i].id) == Some(st[i]),
    decreases st.len(),
{
    if i < st.len() - 1 {
        lemma_round_remembers_latest(m, st.drop_last(), i);
    }
}

/// A round whose statuses all equal what was last seen of their ECUs logs
/// nothing.
pub proof fn lemma_steady_round_logs_nothing(
    stamps: Seq<Seq<char>>,
    m: Map<Seq<char>, EcuStatusView>,
    st: Seq<EcuStatusView>,
)
    requires
        forall|i: int| 0 <= i < st.len() ==> prior(m, #[trigger] st[i].id) == Some(st[i]),
        forall|i: int| 0 <= i < st.len() ==> distinct_keys(#[trigger] st[i].diagnostics),
    ensures
        round_changes(stamps, m, st) == Seq::<ChangeView>::empty(),
    decreases st.len(),
{
    if st.len() > 0 {
        let last = st.last();
        assert(st[st.len() - 1] == last);
        assert forall|i: int| 0 <= i < st.drop_last().len() implies prior(m, #[trigger] st.drop_last()[i].id)
            == Some(st.drop_last()[i]) by {
            assert(st.drop_last()[i] == st[i]);
        }
        assert forall|i: int| 0 <= i < st.drop_last().len() implies distinct_keys(
            #[trigger] st.drop_last()[i].diagnostics) by {
            assert(st.drop_last()[i] == st[i]);
        }
        lemma_steady_round_logs_nothing(stamps.drop_last(), m, st.drop_last());
        lemma_unchanged_status_logs_nothing(stamps.last(), last);
        assert(round_changes(stamps, m, st) =~= Seq::<ChangeView>::empty());
    }
}

/// Reading the same statuses again in the next round logs nothing.
pub proof fn lemma_repeated_round_logs_nothing(
    stamps: Seq<Seq<char>>,
    m: Map<Seq<char>, EcuStatusView>,
    st: Seq<EcuStatusView>,
)
    requires
        forall|i: int, j: int| 0 <= i < st.len() && 0 <= j < st.len() && i != j ==> st[i].id != st[j].id,
        forall|i: int| 0 <= i < st.len() ==> distinct_keys(#[trigger] st[i].diagnostics),
    ensures
        round_changes(stamps, record_all(m, st), st) == Seq::<ChangeView>::empty(),
{
    assert forall|i: int| 0 <= i < st.len() implies prior(record_all(m, st), #[trigger] st[i].id) == Some(st[i]) by {
        lemma_round_remembers_latest(m, st, i);
    }
    lemma_steady_round_logs_nothing(stamps, record_all(m, st), st);
}

} // verus!
