//! The changes of the block in progress, one entry for each account.
use crate::primitives::Address;
use crate::transition_account::{TransitionAccount, TransitionAccountView};
use crate::vec_map::{as_map, distinct_keys, has_key, lemma_as_map_at, position_of, VecMap};
use vstd::prelude::*;

verus! {

/// The changes that the transactions of one block have made so far. The
/// accounts stand in the order in which they were first changed.
#[derive(Debug, PartialEq, Eq)]
pub struct TransitionState {
    pub transitions: VecMap<Address, TransitionAccount>,
}

/// The model of a [`TransitionState`]: the addresses that changed, each with
/// its change, in the order in which they first changed.
pub type TransitionStateView = Seq<(Address, TransitionAccountView)>;

/// The state after one more change: where the address has changed before,
/// the two changes are composed and the address keeps its place.
pub open spec fn with_transition(
    state: TransitionStateView,
    address: Address,
    transition: TransitionAccountView,
) -> TransitionStateView {
    if has_key(state, address) {
        let place = position_of(state, address);
        state.update(place, (address, state[place].1.compose(transition)))
    } else {
        state.push((address, transition))
    }
}

/// The state after the changes of `transitions`, first one first.
pub open spec fn with_transitions(
    state: TransitionStateView,
    transitions: Seq<(Address, TransitionAccountView)>,
) -> TransitionStateView
    decreases transitions.len(),
{
    if transitions.len() == 0 {
        state
    } else {
        with_transition(
            with_transitions(state, transitions.drop_last()),
            transitions.last().0,
            transitions.last().1,
        )
    }
}

/// The models of a sequence of changes.
pub open spec fn transition_views(transitions: Seq<(Address, TransitionAccount)>) -> Seq<
    (Address, TransitionAccountView),
> {
    Seq::new(transitions.len(), |i: int| (transitions[i].0, transitions[i].1@))
}

impl Default for TransitionState {
    fn default() -> (state: Self)
        ensures
            state@ == Seq::<(Address, TransitionAccountView)>::empty(),
            distinct_keys(state@),
    {
        let state = TransitionState { transitions: VecMap::new() };
        proof {
            assert(state@ =~= Seq::<(Address, TransitionAccountView)>::empty());
        }
        state
    }
}

impl TransitionState {
    pub open spec fn view(&self) -> TransitionStateView {
        transition_views(self.transitions.entries())
    }

    /// The number of addresses that have changed; each of them is held once.
    pub fn len(&self) -> (n: usize)
        ensures
            n == self@.len(),
            distinct_keys(self@),
    {
        let n = self.transitions.len();
        proof {
            lemma_views_keep_keys(self.transitions.entries(), Address { hi: 0, lo: 0 });
        }
        n
    }

    /// A state that holds the one change given.
    pub fn single(address: Address, transition: TransitionAccount) -> (state: Self)
        ensures
            state@ == with_transition(Seq::empty(), address, transition@),
            distinct_keys(state@),
    {
        let mut transitions = VecMap::new();
        transitions.insert(address, transition);
        let state = TransitionState { transitions };
        proof {
            use_type_invariant(&state.transitions);
            state.transitions.lemma_entries_distinct();
            lemma_views_keep_keys(state.transitions.entries(), address);
            assert(state@ =~= with_transition(Seq::empty(), address, transition@));
        }
        state
    }

    /// Hands out all changes and leaves the state empty.
    pub fn take(&mut self) -> (taken: Self)
        ensures
            taken@ == old(self)@,
            distinct_keys(taken@),
            final(self)@ == Seq::<(Address, TransitionAccountView)>::empty(),
    {
        let taken = TransitionState { transitions: self.transitions.take() };
        proof {
            use_type_invariant(&taken.transitions);
            taken.transitions.lemma_entries_distinct();
            lemma_views_keep_keys(taken.transitions.entries(), Address { hi: 0, lo: 0 });
            assert(self@ =~= Seq::<(Address, TransitionAccountView)>::empty());
        }
        taken
    }

    /// Adds one change.
    pub fn add_transition(&mut self, address: Address, transition: TransitionAccount)
        ensures
            final(self)@ == with_transition(old(self)@, address, transition@),
            distinct_keys(old(self)@),
            distinct_keys(final(self)@),
    {
        let ghost before = self.transitions.entries();
        let count = self.transitions.len();
        proof {
            lemma_views_keep_keys(before, address);
        }
        match self.transitions.get_mut(&address) {
            Some(present) => {
                present.update(transition);
            },
            None => {
                self.transitions.insert(address, transition);
            },
        }
        proof {
            use_type_invariant(&self.transitions);
            self.transitions.lemma_entries_distinct();
            lemma_views_keep_keys(self.transitions.entries(), address);
            assert(self@ =~= with_transition(old(self)@, address, transition@));
        }
    }

    /// Adds the changes of `transitions`, first one first.
    pub fn add_transitions(&mut self, transitions: Vec<(Address, TransitionAccount)>)
        ensures
            final(self)@ == with_transitions(old(self)@, transition_views(transitions@)),
            distinct_keys(old(self)@),
            distinct_keys(final(self)@),
    {
        let ghost all = transition_views(transitions@);
        proof {
            use_type_invariant(&self.transitions);
            self.transitions.lemma_entries_distinct();
            lemma_views_keep_keys(self.transitions.entries(), Address { hi: 0, lo: 0 });
        }
        for entry in it: transitions
            invariant
                it.seq() == transitions@,
                all == transition_views(transitions@),
                distinct_keys(self@),
                self@ == with_transitions(old(self)@, all.take(it.index() as int)),
        {
            proof {
                let i = it.index() as int;
                assert(all.take(i + 1).drop_last() == all.take(i));
                assert(all.take(i + 1).last() == (entry.0, entry.1@));
            }
            self.add_transition(entry.0, entry.1);
        }
        proof {
            assert(all.take(all.len() as int) == all);
        }
    }
}

/// The models of a sequence of changes have the keys of the sequence, at the same places.
pub proof fn lemma_views_keep_keys(entries: Seq<(Address, TransitionAccount)>, address: Address)
    requires
        distinct_keys(entries),
    ensures
        distinct_keys(transition_views(entries)),
        has_key(transition_views(entries), address) == has_key(entries, address),
        has_key(entries, address) ==> position_of(transition_views(entries), address)
            == position_of(entries, address),
        as_map(entries).contains_key(address) == has_key(entries, address),
{
    let views = transition_views(entries);
    assert forall|i: int, j: int| 0 <= i < j < views.len() implies (#[trigger] views[i]).0 != (
    #[trigger] views[j]).0 by {
        assert(entries[i].0 != entries[j].0);
    }
    if has_key(entries, address) {
        let p = position_of(entries, address);
        assert(views[p].0 == address);
        lemma_as_map_at(views, p);
    }
    if has_key(views, address) {
        let p = position_of(views, address);
        assert(entries[p].0 == address);
    }
}

} // verus!
