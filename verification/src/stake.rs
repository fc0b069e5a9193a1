//! The stake operation on the accounts of one call: validation of the
//! supplied addresses, the transfer to ask for, and the update of the ledger
//! entry once the transfer's outcome is known.
use crate::address::associated_token_address;
use crate::address::associated_token_address_of;
use crate::address::staker_address;
use crate::address::staker_address_of;
use crate::address::vault_authority_address;
use crate::address::vault_authority_of;
use crate::address::Address;
use crate::ledger::event_of;
use crate::ledger::staked;
use crate::ledger::StakeError;
use crate::ledger::StakeEvent;
use crate::ledger::Staker;
use vstd::prelude::*;

verus! {

/// A token account as the stake operation reads it: its address, the wallet
/// that owns it and the mint whose tokens it holds.
#[derive(Clone, Copy, Debug, PartialEq, Eq)]
pub struct TokenAccount {
    pub key: Address,
    pub owner: Address,
    pub mint: Address,
}

/// A transfer of tokens between two token accounts, to be carried out by the
/// token program on the authority's signature.
#[derive(Clone, Copy, Debug, PartialEq, Eq)]
pub struct Transfer {
    pub from: Address,
    pub to: Address,
    pub authority: Address,
    pub amount: u64,
}

/// How the transfer that a stake asked for ended.
#[derive(Clone, Copy, Debug, PartialEq, Eq, Structural)]
pub enum TransferOutcome {
    /// The whole amount has moved.
    Completed,
    /// Nothing has moved.
    Failed,
}

/// The accounts of one stake call.
#[derive(Clone, Copy, Debug, PartialEq, Eq)]
pub struct UserStake {
    /// The user who stakes and signs the transfer.
    pub user: Address,
    /// The mint of the staked tokens.
    pub mint: Address,
    /// The custody authority of the mint.
    pub vault_authority: Address,
    /// The user's token account for the mint.
    pub user_ata: TokenAccount,
    /// The custody token account for the mint.
    pub vault_ata: TokenAccount,
    /// The address of the ledger entry.
    pub staker_key: Address,
    /// The ledger entry found at that address, vacant if there was none.
    pub staker: Staker,
    /// The token program.
    pub token_program: Address,
    /// The associated token program.
    pub associated_token_program: Address,
}

/// The addresses that a program derives for the accounts of one stake call,
/// each `None` where its seeds admit no address.
#[derive(Clone, Copy, Debug, PartialEq, Eq)]
pub struct DerivedAddresses {
    /// The custody authority of the mint.
    pub vault_authority: Option<Address>,
    /// The token account that the user holds for the mint.
    pub user_ata: Option<Address>,
    /// The token account that the supplied custody authority holds for the mint.
    pub vault_ata: Option<Address>,
    /// The ledger entry of the user for the mint.
    pub staker: Option<Address>,
}

/// The bytes of a derived address.
pub open spec fn bytes_of(found: Option<Address>) -> Option<Seq<u8>> {
    match found {
        Some(a) => Some(a@),
        None => None,
    }
}

/// Tests whether a derivation succeeded and gave the supplied address.
pub fn is_derived(found: &Option<Address>, supplied: &Address) -> (r: bool)
    ensures
        r == (bytes_of(*found) == Some(supplied@)),
{
    match found {
        Some(a) => *a == *supplied,
        None => false,
    }
}

impl TokenAccount {
    /// Whether this account names `wallet` as owner and `mint` as mint, and
    /// lies at the address `derived` for them.
    pub open spec fn is_held_at(
        &self,
        wallet: Address,
        mint: Address,
        derived: Option<Seq<u8>>,
    ) -> bool {
        &&& self.owner@ == wallet@
        &&& self.mint@ == mint@
        &&& derived == Some(self.key@)
    }

    /// Tests whether this account names `wallet` as owner and `mint` as mint,
    /// and lies at the address `derived` for them.
    pub fn check_held_at(&self, wallet: &Address, mint: &Address, derived: &Option<Address>) -> (r:
        bool)
        ensures
            r == self.is_held_at(*wallet, *mint, bytes_of(*derived)),
    {
        self.owner == *wallet && self.mint == *mint && is_derived(derived, &self.key)
    }
}

impl UserStake {
    /// The first of the supplied addresses that is not the derived one, in
    /// the order custody authority, user's token account, custody token
    /// account, ledger entry; `None` where each is.
    pub open spec fn fault_against(
        &self,
        vault_authority: Option<Seq<u8>>,
        user_ata: Option<Seq<u8>>,
        vault_ata: Option<Seq<u8>>,
        staker: Option<Seq<u8>>,
    ) -> Option<StakeError> {
        if vault_authority != Some(self.vault_authority@) {
            Some(StakeError::InvalidVaultAuthority)
        } else if !self.user_ata.is_held_at(self.user, self.mint, user_ata) {
            Some(StakeError::InvalidUserTokenAccount)
        } else if !self.vault_ata.is_held_at(self.vault_authority, self.mint, vault_ata) {
            Some(StakeError::InvalidVaultTokenAccount)
        } else if staker != Some(self.staker_key@) {
            Some(StakeError::InvalidStakerAddress)
        } else {
            None
        }
    }

    /// The first of the supplied addresses that is not the one in `derived`.
    pub open spec fn fault_given(&self, derived: DerivedAddresses) -> Option<StakeError> {
        self.fault_against(
            bytes_of(derived.vault_authority),
            bytes_of(derived.user_ata),
            bytes_of(derived.vault_ata),
            bytes_of(derived.staker),
        )
    }

    /// The first fault among the supplied addresses when held against those
    /// that `program_id` derives for user and mint; `None` where there is none.
    pub open spec fn fault(&self, program_id: Address) -> Option<StakeError> {
        self.fault_against(
            vault_authority_of(program_id@, self.mint@),
            associated_token_address_of(
                self.user@,
                self.mint@,
                self.token_program@,
                self.associated_token_program@,
            ),
            associated_token_address_of(
                self.vault_authority@,
                self.mint@,
                self.token_program@,
                self.associated_token_program@,
            ),
            staker_address_of(program_id@, self.user@, self.mint@),
        )
    }

    /// Derives the four addresses that the supplied ones are held against.
    pub fn derive(&self, program_id: &Address) -> (r: DerivedAddresses)
        ensures
            self.fault_given(r) == self.fault(*program_id),
            bytes_of(r.vault_authority) == vault_authority_of(program_id@, self.mint@),
            bytes_of(r.user_ata) == associated_token_address_of(
                self.user@,
                self.mint@,
                self.token_program@,
                self.associated_token_program@,
            ),
            bytes_of(r.vault_ata) == associated_token_address_of(
                self.vault_authority@,
                self.mint@,
                self.token_program@,
                self.associated_token_program@,
            ),
            bytes_of(r.staker) == staker_address_of(program_id@, self.user@, self.mint@),
    {
        let vault_authority = match vault_authority_address(program_id, &self.mint) {
            Some(found) => Some(found.0),
            None => None,
        };
        let staker = match staker_address(program_id, &self.user, &self.mint) {
            Some(found) => Some(found.0),
            None => None,
        };
        DerivedAddresses {
            vault_authority,
            user_ata: associated_token_address(
                &self.user,
                &self.mint,
                &self.token_program,
                &self.associated_token_program,
            ),
            vault_ata: associated_token_address(
                &self.vault_authority,
                &self.mint,
                &self.token_program,
                &self.associated_token_program,
            ),
            staker,
        }
    }

    /// Holds the supplied addresses against the derived ones, and reports
    /// the first that differs.
    pub fn check_against(&self, derived: &DerivedAddresses) -> (r: Result<(), StakeError>)
        ensures
            match self.fault_given(*derived) {
                Some(e) => r == Err::<(), StakeError>(e),
                None => r is Ok,
            },
    {
        if !is_derived(&derived.vault_authority, &self.vault_authority) {
            return Err(StakeError::InvalidVaultAuthority);
        }
        if !self.user_ata.check_held_at(&self.user, &self.mint, &derived.user_ata) {
            return Err(StakeError::InvalidUserTokenAccount);
        }
        if !self.vault_ata.check_held_at(&self.vault_authority, &self.mint, &derived.vault_ata) {
            return Err(StakeError::InvalidVaultTokenAccount);
        }
        if !is_derived(&derived.staker, &self.staker_key) {
            return Err(StakeError::InvalidStakerAddress);
        }
        Ok(())
    }

    /// Holds the supplied addresses against those derived for user and mint
    /// under `program_id`, and reports the first that differs.
    pub fn validate(&self, program_id: &Address) -> (r: Result<(), StakeError>)
        ensures
            match self.fault(*program_id) {
                Some(e) => r == Err::<(), StakeError>(e),
                None => r is Ok,
            },
    {
        let derived = self.derive(program_id);
        self.check_against(&derived)
    }

    /// The transfer that a stake of `amount` asks for: from the user's token
    /// account to the custody token account, signed by the user.
    pub fn transfer(&self, amount: u64) -> (r: Transfer)
        ensures
            r == (Transfer {
                from: self.user_ata.key,
                to: self.vault_ata.key,
                authority: self.user,
                amount,
            }),
    {
        Transfer { from: self.user_ata.key, to: self.vault_ata.key, authority: self.user, amount }
    }

    /// What a stake of `amount` makes of the ledger entry, given how the
    /// transfer ended: after a failed transfer the stake is refused, after a
    /// completed one the entry decides.
    pub open spec fn outcome(&self, amount: u64, transfer: TransferOutcome) -> Result<
        Staker,
        StakeError,
    > {
        match transfer {
            TransferOutcome::Failed => Err(StakeError::TransferFailed),
            TransferOutcome::Completed => staked(self.staker, self.user, self.mint, amount),
        }
    }

    /// These accounts with `entry` as their ledger entry.
    pub open spec fn with_staker(self, entry: Staker) -> UserStake {
        UserStake { staker: entry, ..self }
    }

    /// The accounts as one stake attempt leaves them: with the new entry
    /// after a success, as they were after a refusal.
    pub open spec fn after(self, amount: u64, transfer: TransferOutcome) -> UserStake {
        match self.outcome(amount, transfer) {
            Ok(entry) => self.with_staker(entry),
            Err(_) => self,
        }
    }

    /// The accounts as a run of stake attempts leaves them, each given by its
    /// amount and the outcome of its transfer.
    pub open spec fn after_all(self, attempts: Seq<(u64, TransferOutcome)>) -> UserStake
        decreases attempts.len(),
    {
        if attempts.len() == 0 {
            self
        } else {
            self.after_all(attempts.drop_last()).after(attempts.last().0, attempts.last().1)
        }
    }
}

/// Records a stake of `amount` once the transfer from the user's token
/// account to the custody token account has been attempted. After a completed
/// transfer a vacant ledger entry is taken over by user and mint, the entry
/// must belong to them, and `amount` is added to its total unless the sum
/// overflows. On success the event to publish is returned; on any refusal the
/// accounts are left as they were.
pub fn do_stake(accounts: &mut UserStake, amount: u64, transfer: TransferOutcome) -> (r: Result<
    StakeEvent,
    StakeError,
>)
    ensures
        *final(accounts) == old(accounts).after(amount, transfer),
        match old(accounts).outcome(amount, transfer) {
            Ok(after) => *final(accounts) == old(accounts).with_staker(after) && r == Ok::<
                StakeEvent,
                StakeError,
            >(event_of(after, amount)),
            Err(e) => *final(accounts) == *old(accounts) && r == Err::<StakeEvent, StakeError>(e),
        },
{
    match transfer {
        TransferOutcome::Failed => Err(StakeError::TransferFailed),
        TransferOutcome::Completed => {
            let user = accounts.user;
            let mint = accounts.mint;
            accounts.staker.stake(&user, &mint, amount)
        },
    }
}

} // verus!
