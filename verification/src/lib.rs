//! A cache of account state over a backing database, with the changes of each
//! block folded into a bundle that can be rolled back.
//!
//! Reads go through [`state::State`], which is a [`database::Database`]
//! itself, to the cache and from there to the database behind it. What a
//! transaction changes is taken into the cache and recorded as transitions;
//! at the end of a block the transitions are merged into the bundle, which
//! keeps for each block the reverts that undo it. The module [`laws`] states
//! what holds between these operations.
pub mod account_info;
pub mod account_status;
pub mod bundle_account;
pub mod bundle_state;
pub mod bytecode;
pub mod cache;
pub mod cache_account;
pub mod cmd;
pub mod database;
pub mod laws;
pub mod plain_account;
pub mod primitives;
pub mod reverts;
pub mod state;
pub mod state_builder;
pub mod storage;
pub mod transition_account;
pub mod transition_state;
pub mod vec_map;

pub use account_info::{Account, AccountInfo};
pub use account_status::AccountStatus;
pub use bundle_account::BundleAccount;
pub use bundle_state::{BundleRetention, BundleState};
pub use bytecode::Bytecode;
pub use cache::CacheState;
pub use cache_account::CacheAccount;
pub use database::{Database, DatabaseRef, EmptyDB};
pub use plain_account::PlainAccount;
pub use primitives::{Address, StorageKey, StorageValue, B256, BLOCK_HASH_HISTORY, U256};
pub use reverts::{AccountInfoRevert, AccountRevert, RevertToSlot};
pub use state::State;
pub use state_builder::StateBuilder;
pub use storage::{PlainStorage, StorageSlot, StorageWithOriginalValues};
pub use transition_account::TransitionAccount;
pub use transition_state::TransitionState;
pub use vec_map::VecMap;
