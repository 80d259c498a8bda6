//! The life cycle of an account within one block.
use vstd::prelude::*;

verus! {

/// Where an account stands between the database and the changes of the
/// current block.
#[derive(Clone, Copy, Debug, Default, PartialEq, Eq, Structural, Hash)]
pub enum AccountStatus {
    /// Known to be absent from the database.
    #[default]
    LoadedNotExisting,
    /// Present in the database and unchanged.
    Loaded,
    /// Present in the database but empty.
    LoadedEmptyEIP161,
    /// Created or changed in this block, with all of its storage in memory.
    InMemoryChange,
    /// Changed in this block over a loaded account.
    Changed,
    /// Destroyed in this block.
    Destroyed,
    /// Created again after it was destroyed.
    DestroyedChanged,
    /// Destroyed again after it was created again.
    DestroyedAgain,
}

impl AccountStatus {
    /// The account was loaded and has not changed since.
    #[verifier::allow_in_spec]
    pub fn is_not_modified(&self) -> bool
        returns
            (*self is Loaded || *self is LoadedNotExisting || *self is LoadedEmptyEIP161),
    {
        match self {
            AccountStatus::Loaded
            | AccountStatus::LoadedNotExisting
            | AccountStatus::LoadedEmptyEIP161 => true,
            _ => false,
        }
    }

    /// The account is destroyed at present.
    #[verifier::allow_in_spec]
    pub fn was_destroyed(&self) -> bool
        returns
            (*self is Destroyed || *self is DestroyedAgain),
    {
        match self {
            AccountStatus::Destroyed | AccountStatus::DestroyedAgain => true,
            _ => false,
        }
    }

    /// The account was created in this block.
    #[verifier::allow_in_spec]
    pub fn is_created(&self) -> bool
        returns
            (*self is InMemoryChange || *self is DestroyedChanged),
    {
        match self {
            AccountStatus::InMemoryChange | AccountStatus::DestroyedChanged => true,
            _ => false,
        }
    }

    /// Every slot of the account that is not cached is known to be zero.
    #[verifier::allow_in_spec]
    pub fn is_storage_known(&self) -> bool
        returns
            !(*self is Loaded || *self is Changed || *self is LoadedEmptyEIP161),
    {
        match self {
            AccountStatus::Loaded
            | AccountStatus::Changed
            | AccountStatus::LoadedEmptyEIP161 => false,
            _ => true,
        }
    }

    /// An account of this status holds no data.
    #[verifier::allow_in_spec]
    pub fn is_absent(&self) -> bool
        returns
            (*self is LoadedNotExisting || *self is Destroyed || *self is DestroyedAgain),
    {
        match self {
            AccountStatus::LoadedNotExisting
            | AccountStatus::Destroyed
            | AccountStatus::DestroyedAgain => true,
            _ => false,
        }
    }

    /// The account is known to be absent from the database.
    #[verifier::allow_in_spec]
    pub fn is_loaded_not_existing(&self) -> bool
        returns
            (*self is LoadedNotExisting),
    {
        match self {
            AccountStatus::LoadedNotExisting => true,
            _ => false,
        }
    }

    /// The status after the account destroyed itself.
    #[verifier::allow_in_spec]
    pub fn on_selfdestructed(&self) -> AccountStatus
        returns
            (if *self is DestroyedChanged {
                AccountStatus::DestroyedAgain
            } else {
                AccountStatus::Destroyed
            }),
    {
        match self {
            AccountStatus::DestroyedChanged => AccountStatus::DestroyedAgain,
            _ => AccountStatus::Destroyed,
        }
    }

    /// The status after the account was created.
    #[verifier::allow_in_spec]
    pub fn on_created(&self) -> AccountStatus
        returns
            (if *self is Destroyed || *self is DestroyedAgain || *self is DestroyedChanged {
                AccountStatus::DestroyedChanged
            } else {
                AccountStatus::InMemoryChange
            }),
    {
        match self {
            AccountStatus::Destroyed
            | AccountStatus::DestroyedAgain
            | AccountStatus::DestroyedChanged => AccountStatus::DestroyedChanged,
            _ => AccountStatus::InMemoryChange,
        }
    }

    /// The status after the account was changed. With `state_clear` off, an
    /// account that was loaded empty counts as loaded.
    #[verifier::allow_in_spec]
    pub fn on_changed(&self, state_clear: bool) -> AccountStatus
        returns
            (match *self {
                AccountStatus::Loaded | AccountStatus::Changed => AccountStatus::Changed,
                AccountStatus::LoadedEmptyEIP161 => if state_clear {
                    AccountStatus::InMemoryChange
                } else {
                    AccountStatus::Changed
                },
                AccountStatus::LoadedNotExisting
                | AccountStatus::InMemoryChange => AccountStatus::InMemoryChange,
                AccountStatus::Destroyed
                | AccountStatus::DestroyedAgain
                | AccountStatus::DestroyedChanged => AccountStatus::DestroyedChanged,
            }),
    {
        match self {
            AccountStatus::Loaded | AccountStatus::Changed => AccountStatus::Changed,
            AccountStatus::LoadedEmptyEIP161 => if state_clear {
                AccountStatus::InMemoryChange
            } else {
                AccountStatus::Changed
            },
            AccountStatus::LoadedNotExisting
            | AccountStatus::InMemoryChange => AccountStatus::InMemoryChange,
            AccountStatus::Destroyed
            | AccountStatus::DestroyedAgain
            | AccountStatus::DestroyedChanged => AccountStatus::DestroyedChanged,
        }
    }
}

} // verus!
