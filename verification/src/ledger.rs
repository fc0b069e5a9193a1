//! The ledger entry of one user for one mint, and the rule by which a stake
//! is accumulated into it.
use crate::address::zero_address;
use crate::address::zero_bytes;
use crate::address::Address;
use vstd::prelude::*;

verus! {

/// Bytes that a stored ledger entry takes: a record tag of 8 bytes, then
/// owner, mint and total.
pub const STAKER_SPACE: usize = 8 + 32 + 32 + 8;

/// Why a stake was refused.
#[derive(Clone, Copy, Debug, PartialEq, Eq, Structural)]
pub enum StakeError {
    /// The ledger entry belongs to another user.
    OwnerMismatch,
    /// The ledger entry tracks another mint.
    MintMismatch,
    /// The new total would not fit in 64 bits.
    MathOverflow,
    /// The token transfer did not take place.
    TransferFailed,
    /// The custody authority is not the one derived from the mint.
    InvalidVaultAuthority,
    /// The user's token account is not the one the user holds for the mint.
    InvalidUserTokenAccount,
    /// The custody token account is not the one the custody authority holds for the mint.
    InvalidVaultTokenAccount,
    /// The ledger entry's address is not the one derived from user and mint.
    InvalidStakerAddress,
}

/// The ledger entry of one user for one mint. An entry whose owner is the
/// all-zero address is vacant: nothing has been staked into it yet.
#[derive(Clone, Copy, Debug, PartialEq, Eq)]
pub struct Staker {
    pub owner: Address,
    pub mint: Address,
    pub total: u64,
}

/// The record of one successful stake.
#[derive(Clone, Copy, Debug, PartialEq, Eq)]
pub struct StakeEvent {
    pub staker: Address,
    pub mint: Address,
    pub amount: u64,
    pub new_total: u64,
}

/// What a stake of `amount` by `user` for `mint` makes of an entry: the entry
/// after it, or the reason for which it is refused.
pub open spec fn staked(entry: Staker, user: Address, mint: Address, amount: u64) -> Result<
    Staker,
    StakeError,
> {
    let opened = entry.opened(user, mint);
    if opened.owner@ != user@ {
        Err(StakeError::OwnerMismatch)
    } else if opened.mint@ != mint@ {
        Err(StakeError::MintMismatch)
    } else if opened.total + amount > u64::MAX {
        Err(StakeError::MathOverflow)
    } else {
        Ok(Staker { owner: opened.owner, mint: opened.mint, total: (opened.total + amount) as u64 })
    }
}

/// The entry that stands where nothing has been stored: owner and mint are
/// the all-zero address and the total is zero.
pub open spec fn vacant_entry() -> Staker {
    Staker { owner: zero_address(), mint: zero_address(), total: 0 }
}

/// The event that reports a stake of `amount` which left the entry as `after`.
pub open spec fn event_of(after: Staker, amount: u64) -> StakeEvent {
    StakeEvent { staker: after.owner, mint: after.mint, amount, new_total: after.total }
}

impl Staker {
    /// Whether nothing has been staked into this entry yet.
    pub open spec fn is_vacant(&self) -> bool {
        self.owner@ == zero_bytes()
    }

    /// The entry as a stake by `user` for `mint` finds it: a vacant entry is
    /// taken over with a total of zero, any other is left as it is.
    pub open spec fn opened(self, user: Address, mint: Address) -> Staker {
        if self.is_vacant() {
            Staker { owner: user, mint, total: 0 }
        } else {
            self
        }
    }

    /// A vacant entry.
    pub fn vacant() -> (r: Staker)
        ensures
            r == vacant_entry(),
            r.is_vacant(),
    {
        Staker { owner: Address::default(), mint: Address::default(), total: 0 }
    }

    /// Stakes `amount` for `user` and `mint` into this entry. A vacant entry
    /// is first taken over by `user` and `mint`. The entry must then belong
    /// to them, and the new total must fit in 64 bits; otherwise the entry is
    /// left as it was.
    pub fn stake(&mut self, user: &Address, mint: &Address, amount: u64) -> (r: Result<
        StakeEvent,
        StakeError,
    >)
        ensures
            match staked(*old(self), *user, *mint, amount) {
                Ok(after) => *final(self) == after && r == Ok::<StakeEvent, StakeError>(
                    event_of(after, amount),
                ),
                Err(e) => *final(self) == *old(self) && r == Err::<StakeEvent, StakeError>(e),
            },
    {
        let mut entry = *self;
        if entry.owner.is_default() {
            entry.owner = *user;
            entry.mint = *mint;
            entry.total = 0;
        }
        if entry.owner != *user {
            return Err(StakeError::OwnerMismatch);
        }
        if entry.mint != *mint {
            return Err(StakeError::MintMismatch);
        }
        match entry.total.checked_add(amount) {
            Some(total) => {
                entry.total = total;
                proof {
                    Address::lemma_view_injective(entry.owner, *user);
                }
                *self = entry;
                Ok(
                    StakeEvent {
                        staker: entry.owner,
                        mint: entry.mint,
                        amount,
                        new_total: entry.total,
                    },
                )
            },
            None => Err(StakeError::MathOverflow),
        }
    }
}

} // verus!
