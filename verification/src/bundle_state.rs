//! The changes of a run of blocks, with what it takes to undo each block.
use crate::account_status::AccountStatus;
use crate::bundle_account::{origin_of, BundleAccount, BundleAccountView};
use crate::bytecode::Bytecode;
use crate::primitives::{clipped, keccak_empty, Address, B256};
use crate::reverts::{AccountRevert, AccountRevertView};
use crate::transition_account::TransitionAccountView;
use crate::transition_state::{
    lemma_views_keep_keys, transition_views, TransitionState, TransitionStateView,
};
use crate::vec_map::{as_map, distinct_keys, lemma_as_map_empty, lemma_as_map_take_step, VecMap};
use vstd::prelude::*;

verus! {

/// What a bundle keeps of the transitions that are merged into it.
#[derive(Clone, Copy, Debug, PartialEq, Eq, Structural, Hash)]
pub enum BundleRetention {
    /// The state after the transitions, without reverts.
    PlainState,
    /// The state after the transitions and the reverts that undo them.
    Reverts,
    /// Nothing: the transitions are dropped and the bundle stays as it is.
    /// This is the one mode in which a merge does not bring the changes of
    /// the block into the bundle.
    Nothing,
}

impl BundleRetention {
    /// Reverts are kept.
    #[verifier::allow_in_spec]
    pub fn includes_reverts(&self) -> bool
        returns
            (*self is Reverts),
    {
        match self {
            BundleRetention::Reverts => true,
            _ => false,
        }
    }
}

/// The accounts that a run of blocks changed, the contracts that they
/// brought in, and for each block the reverts that undo it.
#[derive(Debug, Default, PartialEq, Eq)]
pub struct BundleState {
    pub state: VecMap<Address, BundleAccount>,
    /// The code of new contracts by its hash; never the empty code.
    pub contracts: VecMap<B256, Bytecode>,
    /// For each block, oldest first, the reverts of the accounts it changed,
    /// in the order in which the block first changed them.
    pub reverts: Vec<Vec<(Address, AccountRevert)>>,
    /// The number of accounts in `state`.
    pub state_size: usize,
    /// The number of reverts over all blocks, as far as it can be counted.
    pub reverts_size: usize,
}

/// The model of a [`BundleState`].
#[verifier::ext_equal]
pub struct BundleStateView {
    pub state: Map<Address, BundleAccountView>,
    pub contracts: Map<B256, Bytecode>,
    pub reverts: Seq<Seq<(Address, AccountRevertView)>>,
}

/// The models of the reverts of one block.
pub open spec fn revert_views(block: Seq<(Address, AccountRevert)>) -> Seq<
    (Address, AccountRevertView),
> {
    Seq::new(block.len(), |i: int| (block[i].0, block[i].1@))
}

/// The models of the reverts of all blocks.
pub open spec fn block_views(blocks: Seq<Vec<(Address, AccountRevert)>>) -> Seq<
    Seq<(Address, AccountRevertView)>,
> {
    Seq::new(blocks.len(), |i: int| revert_views(blocks[i]@))
}

/// The number of reverts in `blocks`.
pub open spec fn total_reverts(blocks: Seq<Seq<(Address, AccountRevertView)>>) -> nat
    decreases blocks.len(),
{
    if blocks.len() == 0 {
        0
    } else {
        total_reverts(blocks.drop_last()) + blocks.last().len()
    }
}

/// The account that a transition of `address` starts from: the one that
/// `state` holds, or else what the transition says it was before.
pub open spec fn base_account(
    state: Map<Address, BundleAccountView>,
    address: Address,
    transition: TransitionAccountView,
) -> BundleAccountView {
    if state.contains_key(address) {
        state[address]
    } else {
        origin_of(transition)
    }
}

/// The accounts after the transitions: each account that has a transition
/// takes it in; an account that was not held is held from then on, unless
/// the transition changes nothing.
pub open spec fn merged_state(
    state: Map<Address, BundleAccountView>,
    transitions: Map<Address, TransitionAccountView>,
) -> Map<Address, BundleAccountView> {
    Map::new(
        |address: Address|
            state.contains_key(address) || (transitions.contains_key(address) && origin_of(
                transitions[address],
            ).revert_of(transitions[address]) is Some),
        |address: Address|
            if transitions.contains_key(address) {
                base_account(state, address, transitions[address]).merge(transitions[address])
            } else {
                state[address]
            },
    )
}

/// The reverts of one block: for each transition that changes anything, in
/// order, what undoes it.
pub open spec fn block_reverts(
    state: Map<Address, BundleAccountView>,
    transitions: TransitionStateView,
) -> Seq<(Address, AccountRevertView)>
    decreases transitions.len(),
{
    if transitions.len() == 0 {
        Seq::empty()
    } else {
        let earlier = block_reverts(state, transitions.drop_last());
        let (address, transition) = transitions.last();
        match base_account(state, address, transition).revert_of(transition) {
            Some(revert) => earlier.push((address, revert)),
            None => earlier,
        }
    }
}

/// The contracts after the transitions: each new contract is stored under
/// its hash, a later one over an earlier one of the same hash.
pub open spec fn merged_contracts(
    contracts: Map<B256, Bytecode>,
    transitions: TransitionStateView,
) -> Map<B256, Bytecode>
    decreases transitions.len(),
{
    if transitions.len() == 0 {
        contracts
    } else {
        let earlier = merged_contracts(contracts, transitions.drop_last());
        match transitions.last().1.new_contract() {
            Some((hash, code)) => earlier.insert(hash, code),
            None => earlier,
        }
    }
}

/// An account of which nothing is known yet.
pub open spec fn unknown_account() -> BundleAccountView {
    BundleAccountView {
        info: None,
        original_info: None,
        storage: Map::empty(),
        status: AccountStatus::LoadedNotExisting,
    }
}

/// The accounts after the reverts of `block` have been applied, first one first.
pub open spec fn reverted_state(
    state: Map<Address, BundleAccountView>,
    block: Seq<(Address, AccountRevertView)>,
) -> Map<Address, BundleAccountView>
    decreases block.len(),
{
    if block.len() == 0 {
        state
    } else {
        let earlier = reverted_state(state, block.drop_last());
        let (address, revert) = block.last();
        let account = if earlier.contains_key(address) {
            earlier[address]
        } else {
            unknown_account()
        };
        earlier.insert(address, account.revert(revert))
    }
}

impl BundleStateView {
    /// The bundle after the transitions of one block.
    pub open spec fn merge(
        self,
        transitions: TransitionStateView,
        retention: BundleRetention,
    ) -> BundleStateView {
        if retention is Nothing {
            self
        } else {
            BundleStateView {
                state: merged_state(self.state, as_map(transitions)),
                contracts: merged_contracts(self.contracts, transitions),
                reverts: self.reverts.push(
                    if retention is Reverts {
                        block_reverts(self.state, transitions)
                    } else {
                        Seq::empty()
                    },
                ),
            }
        }
    }

    /// The bundle after the latest block has been undone.
    pub open spec fn revert_latest(self) -> BundleStateView {
        if self.reverts.len() == 0 {
            self
        } else {
            BundleStateView {
                state: reverted_state(self.state, self.reverts.last()),
                contracts: self.contracts,
                reverts: self.reverts.drop_last(),
            }
        }
    }

    /// No contract is stored under the hash of the empty code.
    pub open spec fn has_no_empty_contract(self) -> bool {
        !self.contracts.contains_key(keccak_empty())
    }
}

impl BundleState {
    pub open spec fn view(&self) -> BundleStateView {
        BundleStateView {
            state: self.state@.map_values(|account: BundleAccount| account@),
            contracts: self.contracts@,
            reverts: block_views(self.reverts@),
        }
    }

    /// The counters say what the bundle holds.
    pub open spec fn sizes_agree(&self) -> bool {
        &&& self.state_size == self.state.entries().len()
        &&& self.reverts_size == total_reverts(self@.reverts)
    }

    /// A bundle that holds nothing: no account, no contract, no block of
    /// reverts, and both counters at zero.
    pub fn new() -> (bundle: Self)
        ensures
            bundle@ == (BundleStateView {
                state: Map::empty(),
                contracts: Map::empty(),
                reverts: Seq::empty(),
            }),
            bundle.state.entries() == Seq::<(Address, BundleAccount)>::empty(),
            bundle.contracts.entries() == Seq::<(B256, Bytecode)>::empty(),
            bundle.reverts@ == Seq::<Vec<(Address, AccountRevert)>>::empty(),
            bundle.state_size == 0,
            bundle.reverts_size == 0,
            bundle.sizes_agree(),
    {
        let bundle = BundleState {
            state: VecMap::new(),
            contracts: VecMap::new(),
            reverts: Vec::new(),
            state_size: 0,
            reverts_size: 0,
        };
        proof {
            assert(bundle@.state =~= Map::empty());
            assert(bundle@.reverts =~= Seq::empty());
        }
        bundle
    }

    /// A number that grows with the room the bundle takes: the accounts it
    /// holds and the reverts it keeps, counted together.
    pub fn size_hint(&self) -> (n: usize)
        ensures
            n == clipped(self.state_size + self.reverts_size),
    {
        self.state_size.saturating_add(self.reverts_size)
    }

    /// The number of accounts that the bundle holds.
    pub fn len(&self) -> (n: usize)
        ensures
            n == self.state.entries().len(),
    {
        self.state.len()
    }

    /// The bundle holds no account.
    pub fn is_empty(&self) -> (r: bool)
        ensures
            r == (self.state.entries().len() == 0),
    {
        self.state.is_empty()
    }

    /// The account of `address`, if the bundle holds it.
    pub fn account(&self, address: &Address) -> (account: Option<&BundleAccount>)
        ensures
            match account {
                Some(held) => self@.state.contains_key(*address) && held@ == self@.state[*address],
                None => !self@.state.contains_key(*address),
            },
    {
        self.state.get(address)
    }

    /// The code stored under `hash`, if there is any.
    pub fn bytecode(&self, hash: &B256) -> (code: Option<Bytecode>)
        ensures
            code == (if self@.contracts.contains_key(*hash) {
                Some(self@.contracts[*hash])
            } else {
                None
            }),
    {
        match self.contracts.get(hash) {
            Some(code) => Some(code.clone()),
            None => None,
        }
    }

    /// Hands out the bundle and leaves an empty one.
    pub fn take(&mut self) -> (taken: Self)
        ensures
            taken == *old(self),
            final(self)@ == (BundleStateView {
                state: Map::empty(),
                contracts: Map::empty(),
                reverts: Seq::empty(),
            }),
            final(self).state.entries() == Seq::<(Address, BundleAccount)>::empty(),
            final(self).contracts.entries() == Seq::<(B256, Bytecode)>::empty(),
            final(self).reverts@ == Seq::<Vec<(Address, AccountRevert)>>::empty(),
            final(self).state_size == 0,
            final(self).reverts_size == 0,
            final(self).sizes_agree(),
    {
        let mut taken = BundleState::new();
        std::mem::swap(self, &mut taken);
        taken
    }

    /// Takes the transitions of one block into the bundle. With
    /// [`BundleRetention::Reverts`] the reverts of the block are kept, with
    /// [`BundleRetention::PlainState`] the block is recorded without them,
    /// and with [`BundleRetention::Nothing`] the bundle stays as it is.
    pub fn apply_transitions_and_create_reverts(
        &mut self,
        transitions: TransitionState,
        retention: BundleRetention,
    )
        ensures
            final(self)@ == old(self)@.merge(transitions@, retention),
            distinct_keys(transitions@),
            retention is Nothing ==> *final(self) == *old(self),
            !(retention is Nothing) ==> final(self).state_size == final(self).state.entries().len()
                && final(self).reverts_size == clipped(
                old(self).reverts_size + final(self)@.reverts.last().len(),
            ),
            old(self).sizes_agree() && total_reverts(final(self)@.reverts) <= usize::MAX
                ==> final(self).sizes_agree(),
            old(self)@.has_no_empty_contract() ==> final(self)@.has_no_empty_contract(),
    {
        proof {
            use_type_invariant(&transitions.transitions);
            transitions.transitions.lemma_entries_distinct();
            lemma_views_keep_keys(transitions.transitions.entries(), Address { hi: 0, lo: 0 });
        }
        match retention {
            BundleRetention::Nothing => {
                return ;
            },
            _ => {},
        }
        let include_reverts = retention.includes_reverts();
        let ghost start = self@;
        let ghost all = transitions@;
        let entries = transitions.transitions.into_entries();
        let mut reverts: Vec<(Address, AccountRevert)> = Vec::new();
        proof {
            lemma_views_keep_keys(entries@, Address { hi: 0, lo: 0 });
            assert(all.take(0) =~= Seq::<(Address, TransitionAccountView)>::empty());
            lemma_as_map_empty::<Address, TransitionAccountView>();
            assert(self@.state =~= merged_state(start.state, as_map(all.take(0))));
            assert(revert_views(reverts@) =~= Seq::empty());
        }
        for entry in it: entries
            invariant
                it.seq() == entries@,
                all == transition_views(entries@),
                distinct_keys(all),
                include_reverts == (retention is Reverts),
                self.reverts == old(self).reverts,
                self.reverts_size == old(self).reverts_size,
                self@.state == merged_state(start.state, as_map(all.take(it.index() as int))),
                self@.contracts == merged_contracts(start.contracts, all.take(it.index() as int)),
                start.has_no_empty_contract() ==> self@.has_no_empty_contract(),
                revert_views(reverts@) == if include_reverts {
                    block_reverts(start.state, all.take(it.index() as int))
                } else {
                    Seq::empty()
                },
        {
            let ghost i = it.index() as int;
            let ghost before = self@;
            let ghost before_reverts = revert_views(reverts@);
            let (address, transition) = entry;
            let ghost t = transition@;
            let ghost base = base_account(start.state, address, t);
            proof {
                lemma_as_map_take_step(all, i);
                assert(all[i] == (address, t));
                assert(all.take(i + 1).drop_last() == all.take(i));
                assert(all.take(i + 1).last() == (address, t));
                assert(!as_map(all.take(i)).contains_key(address));
                assert(before.state.contains_key(address) == start.state.contains_key(address));
                assert(before.state.contains_key(address) ==> before.state[address]
                    == start.state[address]);
                assert(self.state@.contains_key(address) == before.state.contains_key(address));
                assert(self.state@.contains_key(address) ==> self.state@[address]@
                    == before.state[address]);
            }
            match transition.has_new_contract() {
                Some((hash, code)) => {
                    self.contracts.insert(hash, code.clone());
                },
                None => {},
            }
            let revert = match self.state.get_mut(&address) {
                Some(held) => held.update_and_create_revert(transition),
                None => {
                    let mut fresh = BundleAccount::origin(&transition);
                    let revert = fresh.update_and_create_revert(transition);
                    if revert.is_some() {
                        self.state.insert(address, fresh);
                    }
                    revert
                },
            };
            proof {
                assert(match revert {
                    Some(r) => base.revert_of(t) == Some(r@),
                    None => base.revert_of(t) is None,
                });
                if start.state.contains_key(address) || base.revert_of(t) is Some {
                    assert(self@.state =~= before.state.insert(address, base.merge(t)));
                } else {
                    assert(self@.state =~= before.state);
                }
                assert(self@.state =~= merged_state(start.state, as_map(all.take(i + 1))));
            }
            match revert {
                Some(revert) => {
                    if include_reverts {
                        reverts.push((address, revert));
                        proof {
                            assert(revert_views(reverts@) =~= before_reverts.push(
                                (address, revert@),
                            ));
                        }
                    }
                },
                None => {},
            }
        }
        proof {
            assert(all.take(all.len() as int) == all);
        }
        let added = reverts.len();
        let ghost block = revert_views(reverts@);
        self.reverts.push(reverts);
        self.state_size = self.state.len();
        self.reverts_size = self.reverts_size.saturating_add(added);
        proof {
            assert(self@.reverts =~= start.reverts.push(block));
            assert(self@.reverts.drop_last() =~= start.reverts);
            assert(self@.reverts.last().len() == added);
        }
    }

    /// Undoes the latest block: its reverts are applied to the accounts,
    /// first one first, and dropped. Says whether there was a block to undo.
    pub fn revert_latest(&mut self) -> (undone: bool)
        ensures
            undone == (old(self)@.reverts.len() > 0),
            final(self)@ == old(self)@.revert_latest(),
            final(self).state_size == final(self).state.entries().len(),
            final(self).reverts_size == if undone {
                clipped(old(self).reverts_size - old(self)@.reverts.last().len())
            } else {
                old(self).reverts_size as int
            },
            old(self).sizes_agree() ==> final(self).sizes_agree(),
    {
        let ghost start = self@;
        let block = match self.reverts.pop() {
            Some(block) => block,
            None => {
                self.state_size = self.state.len();
                return false;
            },
        };
        let ghost all = revert_views(block@);
        proof {
            assert(all == start.reverts.last());
            assert(self@.reverts =~= start.reverts.drop_last());
        }
        let count = block.len();
        for entry in it: block
            invariant
                it.seq() == block@,
                all == revert_views(block@),
                self.reverts@ == old(self).reverts@.drop_last(),
                self.contracts == old(self).contracts,
                self.reverts_size == old(self).reverts_size,
                self@.state == reverted_state(start.state, all.take(it.index() as int)),
        {
            let ghost i = it.index() as int;
            let (address, revert) = entry;
            proof {
                assert(all.take(i + 1).drop_last() == all.take(i));
                assert(all.take(i + 1).last() == (address, revert@));
            }
            match self.state.get_mut(&address) {
                Some(held) => {
                    held.revert(revert);
                },
                None => {
                    let mut fresh = BundleAccount::new(
                        None,
                        None,
                        VecMap::new(),
                        AccountStatus::LoadedNotExisting,
                    );
                    fresh.revert(revert);
                    self.state.insert(address, fresh);
                },
            }
            proof {
                assert(self@.state =~= reverted_state(start.state, all.take(i + 1)));
            }
        }
        proof {
            assert(all.take(all.len() as int) == all);
        }
        self.state_size = self.state.len();
        self.reverts_size = self.reverts_size.saturating_sub(count);
        proof {
            assert(start.reverts.drop_last() == self@.reverts);
            assert(start.reverts.last().len() == count);
        }
        true
    }
}

} // verus!
