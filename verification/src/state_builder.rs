//! How a state is put together.
use crate::bundle_state::{BundleState, BundleStateView};
use crate::cache::{CacheState, CacheStateView};
use crate::database::EmptyDB;
use crate::primitives::{Address, B256};
use crate::state::State;
use crate::transition_account::TransitionAccountView;
use crate::transition_state::TransitionState;
use std::collections::BTreeMap;
use vstd::prelude::*;

verus! {

/// The choices that make a [`State`].
#[derive(Debug)]
pub struct StateBuilder<DB> {
    /// The database behind the cache.
    pub database: DB,
    /// Empty accounts that are touched are cleared.
    pub with_state_clear: bool,
    /// A bundle to start from; it is asked before the database.
    pub with_bundle_prestate: Option<BundleState>,
    /// Transitions are gathered, so that blocks can be merged into the bundle.
    pub with_bundle_update: bool,
    /// Block hashes that are known from the start.
    pub with_block_hashes: BTreeMap<u64, B256>,
}

impl StateBuilder<EmptyDB> {
    /// A builder with no choice made: no database, empty accounts are
    /// cleared, nothing preloaded, no transitions gathered.
    pub fn new() -> (builder: Self)
        ensures
            builder.with_state_clear,
            builder.with_bundle_prestate is None,
            !builder.with_bundle_update,
            builder.with_block_hashes@ == Map::<u64, B256>::empty(),
    {
        StateBuilder::new_with_database(EmptyDB::new())
    }
}

impl Default for StateBuilder<EmptyDB> {
    fn default() -> (builder: Self)
        ensures
            builder.with_state_clear,
            builder.with_bundle_prestate is None,
            !builder.with_bundle_update,
            builder.with_block_hashes@ == Map::<u64, B256>::empty(),
    {
        StateBuilder::new()
    }
}

impl<DB> StateBuilder<DB> {
    /// A builder over `database` with no other choice made.
    pub fn new_with_database(database: DB) -> (builder: Self)
        ensures
            builder.database == database,
            builder.with_state_clear,
            builder.with_bundle_prestate is None,
            !builder.with_bundle_update,
            builder.with_block_hashes@ == Map::<u64, B256>::empty(),
    {
        StateBuilder {
            database,
            with_state_clear: true,
            with_bundle_prestate: None,
            with_bundle_update: false,
            with_block_hashes: BTreeMap::new(),
        }
    }

    /// The same choices over another database.
    pub fn with_database<ODB>(self, database: ODB) -> (builder: StateBuilder<ODB>)
        ensures
            builder.database == database,
            builder.with_state_clear == self.with_state_clear,
            builder.with_bundle_prestate == self.with_bundle_prestate,
            builder.with_bundle_update == self.with_bundle_update,
            builder.with_block_hashes == self.with_block_hashes,
    {
        StateBuilder {
            database,
            with_state_clear: self.with_state_clear,
            with_bundle_prestate: self.with_bundle_prestate,
            with_bundle_update: self.with_bundle_update,
            with_block_hashes: self.with_block_hashes,
        }
    }

    /// The same choices over the database that holds nothing.
    pub fn without_database(self) -> (builder: StateBuilder<EmptyDB>)
        ensures
            builder.with_state_clear == self.with_state_clear,
            builder.with_bundle_prestate == self.with_bundle_prestate,
            builder.with_bundle_update == self.with_bundle_update,
            builder.with_block_hashes == self.with_block_hashes,
    {
        self.with_database(EmptyDB::new())
    }

    /// Empty accounts that are touched are no longer cleared.
    pub fn without_state_clear(self) -> (builder: Self)
        ensures
            builder == (StateBuilder { with_state_clear: false, ..self }),
    {
        StateBuilder { with_state_clear: false, ..self }
    }

    /// The state starts from `bundle`, which is asked before the database.
    pub fn with_bundle_prestate(self, bundle: BundleState) -> (builder: Self)
        ensures
            builder == (StateBuilder { with_bundle_prestate: Some(bundle), ..self }),
    {
        StateBuilder { with_bundle_prestate: Some(bundle), ..self }
    }

    /// Transitions are gathered, so that blocks can be merged into the bundle.
    pub fn with_bundle_update(self) -> (builder: Self)
        ensures
            builder == (StateBuilder { with_bundle_update: true, ..self }),
    {
        StateBuilder { with_bundle_update: true, ..self }
    }

    /// The state knows the hashes of `block_hashes` from the start.
    pub fn with_block_hashes(self, block_hashes: BTreeMap<u64, B256>) -> (builder: Self)
        ensures
            builder == (StateBuilder { with_block_hashes: block_hashes, ..self }),
    {
        StateBuilder { with_block_hashes: block_hashes, ..self }
    }

    /// The state that the choices make.
    pub fn build(self) -> (state: State<DB>)
        ensures
            state.database == self.database,
            state.use_preloaded_bundle == (self.with_bundle_prestate is Some),
            state.block_hashes == self.with_block_hashes,
            state.cache@ == (CacheStateView {
                accounts: Map::empty(),
                contracts: Map::empty(),
                has_state_clear: self.with_state_clear,
            }),
            match self.with_bundle_prestate {
                Some(bundle) => state.bundle_state == bundle,
                None => {
                    &&& state.bundle_state@ == (BundleStateView {
                        state: Map::empty(),
                        contracts: Map::empty(),
                        reverts: Seq::empty(),
                    })
                    &&& state.bundle_state.state_size == 0
                    &&& state.bundle_state.reverts_size == 0
                },
            },
            self.with_bundle_update ==> state.transition_state is Some
                && state.transition_state.unwrap()@ == Seq::<
                (Address, TransitionAccountView),
            >::empty(),
            !self.with_bundle_update ==> state.transition_state is None,
    {
        let StateBuilder {
            database,
            with_state_clear,
            with_bundle_prestate,
            with_bundle_update,
            with_block_hashes,
        } = self;
        let use_preloaded_bundle = with_bundle_prestate.is_some();
        let cache = CacheState::new(with_state_clear);
        let transition_state = if with_bundle_update {
            Some(TransitionState::default())
        } else {
            None
        };
        let bundle_state = match with_bundle_prestate {
            Some(bundle) => bundle,
            None => BundleState::new(),
        };
        State {
            cache,
            database,
            transition_state,
            bundle_state,
            use_preloaded_bundle,
            block_hashes: with_block_hashes,
        }
    }
}

} // verus!
