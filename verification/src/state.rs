use vstd::prelude::*;
use crate::addr::Addr;

verus! {

/// The singleton contract-state record: the one address that may set
/// scores. Written whole at initialization and only ever replaced whole.
pub struct State {
    pub owner: Addr,
}

impl Clone for State {
    fn clone(&self) -> (r: Self)
        ensures
            r == *self,
    {
        State { owner: self.owner.clone() }
    }
}

/// What the store holds, mathematically: the owner slot, and the score of
/// every address that was ever written.
#[verifier::ext_equal]
pub ghost struct StoreView {
    pub owner: Option<Seq<char>>,
    pub scores: Map<Seq<char>, int>,
}

/// The map a sequence of score entries describes, a later entry for the
/// same address superseding an earlier one.
pub open spec fn scores_of(entries: Seq<(Addr, i32)>) -> Map<Seq<char>, int>
    decreases entries.len(),
{
    if entries.len() == 0 {
        Map::empty()
    } else {
        scores_of(entries.drop_last()).insert(entries.last().0@, entries.last().1 as int)
    }
}

proof fn lemma_scores_of_contains(entries: Seq<(Addr, i32)>, k: Seq<char>)
    ensures
        scores_of(entries).contains_key(k) <==> (exists|i: int|
            0 <= i < entries.len() && entries[i].0@ == k),
    decreases entries.len(),
{
    if entries.len() > 0 {
        let prefix = entries.drop_last();
        lemma_scores_of_contains(prefix, k);
        if entries.last().0@ == k {
            assert(entries[entries.len() - 1].0@ == k);
        } else {
            if scores_of(entries).contains_key(k) {
                let i = choose|i: int| 0 <= i < prefix.len() && prefix[i].0@ == k;
                assert(entries[i].0@ == k);
            }
            if exists|i: int| 0 <= i < entries.len() && entries[i].0@ == k {
                let i = choose|i: int| 0 <= i < entries.len() && entries[i].0@ == k;
                assert(prefix[i].0@ == k);
            }
        }
    }
}

proof fn lemma_scores_of_value(entries: Seq<(Addr, i32)>, i: int)
    requires
        0 <= i < entries.len(),
        forall|j: int| i < j < entries.len() ==> entries[j].0@ != entries[i].0@,
    ensures
        scores_of(entries).contains_key(entries[i].0@),
        scores_of(entries)[entries[i].0@] == entries[i].1 as int,
    decreases entries.len(),
{
    if i < entries.len() - 1 {
        let prefix = entries.drop_last();
        assert(prefix[i] == entries[i]);
        assert forall|j: int| i < j < prefix.len() implies prefix[j].0@ != prefix[i].0@ by {
            assert(prefix[j] == entries[j]);
        }
        lemma_scores_of_value(prefix, i);
        assert(entries[entries.len() - 1].0@ != entries[i].0@);
    }
}

proof fn lemma_scores_of_push(entries: Seq<(Addr, i32)>, e: (Addr, i32))
    ensures
        scores_of(entries.push(e)) == scores_of(entries).insert(e.0@, e.1 as int),
{
    assert(entries.push(e).drop_last() =~= entries);
    assert(entries.push(e).last() == e);
}

proof fn lemma_scores_of_update(entries: Seq<(Addr, i32)>, i: int, e: (Addr, i32))
    requires
        0 <= i < entries.len(),
        e.0@ == entries[i].0@,
        forall|p: int, q: int| 0 <= p < q < entries.len() ==> entries[p].0@ != entries[q].0@,
    ensures
        scores_of(entries.update(i, e)) == scores_of(entries).insert(e.0@, e.1 as int),
    decreases entries.len(),
{
    let updated = entries.update(i, e);
    let last = entries.last();
    if i == entries.len() - 1 {
        assert(updated.drop_last() =~= entries.drop_last());
        assert(updated.last() == e);
        assert(scores_of(entries.drop_last()).insert(e.0@, e.1 as int) =~= scores_of(
            entries,
        ).insert(e.0@, e.1 as int));
    } else {
        let prefix = entries.drop_last();
        assert(prefix[i] == entries[i]);
        assert(updated.drop_last() =~= prefix.update(i, e));
        assert(updated.last() == last);
        assert forall|p: int, q: int| 0 <= p < q < prefix.len() implies prefix[p].0@
            != prefix[q].0@ by {
            assert(prefix[p] == entries[p]);
            assert(prefix[q] == entries[q]);
        }
        lemma_scores_of_update(prefix, i, e);
        assert(last.0@ != e.0@);
        assert(scores_of(prefix).insert(e.0@, e.1 as int).insert(last.0@, last.1 as int)
            =~= scores_of(prefix).insert(last.0@, last.1 as int).insert(e.0@, e.1 as int));
    }
}

/// Typed accessors over the host's keyed byte store: a singleton slot for
/// the contract state, and a keyed region with one score entry per address
/// ever written.
pub struct Store {
    state: Option<State>,
    scores: Vec<(Addr, i32)>,
}

impl View for Store {
    type V = StoreView;

    closed spec fn view(&self) -> StoreView {
        StoreView {
            owner: match self.state {
                Some(s) => Some(s.owner@),
                None => None,
            },
            scores: scores_of(self.scores@),
        }
    }
}

impl Store {
    /// The score region keeps at most one entry per address.
    pub closed spec fn wf(self) -> bool {
        forall|p: int, q: int|
            0 <= p < q < self.scores@.len() ==> self.scores@[p].0@ != self.scores@[q].0@
    }

    /// A fresh store: nothing initialized, no score written.
    pub fn new() -> (s: Store)
        ensures
            s.wf(),
            s@.owner is None,
            s@.scores == Map::<Seq<char>, int>::empty(),
    {
        Store { state: None, scores: Vec::new() }
    }

    /// Reads the singleton contract-state slot; nothing if the contract
    /// was never initialized.
    pub fn load_state(&self) -> (r: Option<State>)
        ensures
            match r {
                Some(s) => self@.owner == Some(s.owner@),
                None => self@.owner is None,
            },
    {
        match &self.state {
            Some(s) => Some(s.clone()),
            None => None,
        }
    }

    /// Overwrites the singleton contract-state slot, leaving every score
    /// entry as it was.
    pub fn save_state(&mut self, state: State)
        requires
            old(self).wf(),
        ensures
            final(self).wf(),
            final(self)@.owner == Some(state.owner@),
            final(self)@.scores == old(self)@.scores,
    {
        self.state = Some(state);
    }

    /// The index of the entry for `address`, if one was ever written.
    fn find_entry(&self, address: &Addr) -> (r: Option<usize>)
        ensures
            match r {
                Some(i) => i < self.scores@.len() && self.scores@[i as int].0@ == address@,
                None => forall|j: int|
                    0 <= j < self.scores@.len() ==> self.scores@[j].0@ != address@,
            },
    {
        let n = self.scores.len();
        let mut i: usize = 0;
        while i < n
            invariant
                n == self.scores@.len(),
                i <= n,
                forall|j: int| 0 <= j < i ==> self.scores@[j].0@ != address@,
            decreases n - i,
        {
            if address.eq(&self.scores[i].0) {
                return Some(i);
            }
            i += 1;
        }
        None
    }

    /// Reads one score entry; nothing if the address was never written.
    pub fn get_score(&self, address: &Addr) -> (r: Option<i32>)
        requires
            self.wf(),
        ensures
            match r {
                Some(v) => self@.scores.contains_key(address@) && self@.scores[address@]
                    == v as int,
                None => !self@.scores.contains_key(address@),
            },
    {
        match self.find_entry(address) {
            Some(i) => {
                proof {
                    lemma_scores_of_value(self.scores@, i as int);
                }
                Some(self.scores[i].1)
            },
            None => {
                proof {
                    lemma_scores_of_contains(self.scores@, address@);
                }
                None
            },
        }
    }

    /// Inserts or overwrites one score entry, the new value fully
    /// replacing any prior one; no other entry and no contract state is
    /// touched.
    pub fn set_score(&mut self, address: &Addr, new_score: i32)
        requires
            old(self).wf(),
        ensures
            final(self).wf(),
            final(self)@.owner == old(self)@.owner,
            final(self)@.scores == old(self)@.scores.insert(address@, new_score as int),
    {
        match self.find_entry(address) {
            Some(i) => {
                self.scores[i] = (address.clone(), new_score);
                proof {
                    let entry = self.scores@[i as int];
                    lemma_scores_of_update(old(self).scores@, i as int, entry);
                    assert forall|p: int, q: int|
                        0 <= p < q < self.scores@.len() implies self.scores@[p].0@
                        != self.scores@[q].0@ by {
                        assert(self.scores@[i as int].0@ == old(self).scores@[i as int].0@);
                    }
                }
            },
            None => {
                self.scores.push((address.clone(), new_score));
                proof {
                    lemma_scores_of_push(old(self).scores@, self.scores@.last());
                    assert forall|p: int, q: int|
                        0 <= p < q < self.scores@.len() implies self.scores@[p].0@
                        != self.scores@[q].0@ by {
                        if q == self.scores@.len() - 1 {
                            assert(old(self).scores@[p].0@ != address@);
                        }
                    }
                }
            },
        }
    }
}

} // verus!
