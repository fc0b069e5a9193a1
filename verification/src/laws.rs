//! What holds of the stake operation over every input and every run of calls.
use crate::address::zero_bytes;
use crate::address::Address;
use crate::ledger::StakeError;
use crate::ledger::Staker;
use crate::stake::TransferOutcome;
use crate::stake::UserStake;
use crate::store::Ledger;
use vstd::prelude::*;

verus! {

/// The sum of a run of amounts.
pub open spec fn total_of(amounts: Seq<u64>) -> int
    decreases amounts.len(),
{
    if amounts.len() == 0 {
        0
    } else {
        total_of(amounts.drop_last()) + amounts.last()
    }
}

/// A run of stake attempts whose transfers all completed.
pub open spec fn completed(amounts: Seq<u64>) -> Seq<(u64, TransferOutcome)> {
    Seq::new(amounts.len(), |i: int| (amounts[i], TransferOutcome::Completed))
}

/// Whether each attempt of a run is refused at the point where it is made.
pub open spec fn all_refused(accounts: UserStake, attempts: Seq<(u64, TransferOutcome)>) -> bool {
    forall|i: int|
        0 <= i < attempts.len() ==> (#[trigger] accounts.after_all(attempts.take(i))).outcome(
            attempts[i].0,
            attempts[i].1,
        ) is Err
}

/// Whether each attempt of a run succeeds at the point where it is made.
pub open spec fn all_accepted(accounts: UserStake, attempts: Seq<(u64, TransferOutcome)>) -> bool {
    forall|i: int|
        0 <= i < attempts.len() ==> (#[trigger] accounts.after_all(attempts.take(i))).outcome(
            attempts[i].0,
            attempts[i].1,
        ) is Ok
}

/// A run of stake attempts changes nothing in the accounts but the ledger entry.
pub proof fn lemma_attempts_touch_entry_only(
    accounts: UserStake,
    attempts: Seq<(u64, TransferOutcome)>,
)
    ensures
        accounts.after_all(attempts) == accounts.with_staker(accounts.after_all(attempts).staker),
    decreases attempts.len(),
{
    if attempts.len() > 0 {
        lemma_attempts_touch_entry_only(accounts, attempts.drop_last());
    }
}

/// A run of refused attempts leaves the accounts as they were.
pub proof fn lemma_refused_attempts_change_nothing(
    accounts: UserStake,
    attempts: Seq<(u64, TransferOutcome)>,
)
    requires
        all_refused(accounts, attempts),
    ensures
        accounts.after_all(attempts) == accounts,
    decreases attempts.len(),
{
    if attempts.len() > 0 {
        let front = attempts.drop_last();
        assert forall|i: int| 0 <= i < front.len() implies (#[trigger] accounts.after_all(
            front.take(i),
        )).outcome(front[i].0, front[i].1) is Err by {
            assert(front.take(i) =~= attempts.take(i));
        }
        lemma_refused_attempts_change_nothing(accounts, front);
        assert(attempts.take(attempts.len() - 1) =~= front);
    }
}

/// The first stake into a vacant entry whose transfer completes succeeds and
/// leaves a total equal to the amount staked, however many refused attempts
/// came before it.
pub proof fn lemma_first_stake_sets_total(
    accounts: UserStake,
    refused: Seq<(u64, TransferOutcome)>,
    amount: u64,
)
    requires
        accounts.staker.is_vacant(),
        all_refused(accounts, refused),
    ensures
        accounts.after_all(refused).outcome(amount, TransferOutcome::Completed) == Ok::<
            Staker,
            StakeError,
        >(Staker { owner: accounts.user, mint: accounts.mint, total: amount }),
        accounts.after_all(refused).after(amount, TransferOutcome::Completed).staker.total
            == amount,
{
    lemma_refused_attempts_change_nothing(accounts, refused);
}

/// In the store, a stake for an address under which nothing is stored either
/// is refused and stores nothing, or stores an entry of the user and the mint
/// whose total is the amount staked. It succeeds whenever the supplied
/// addresses are the derived ones and the transfer completed.
pub proof fn lemma_absent_entry_starts_at_amount(
    ledger: Ledger,
    program_id: Address,
    accounts: UserStake,
    amount: u64,
    transfer: TransferOutcome,
)
    requires
        !ledger@.contains_key(accounts.staker_key@),
    ensures
        match ledger.outcome(program_id, accounts, amount, transfer) {
            Ok(entry) => entry == (Staker {
                owner: accounts.user,
                mint: accounts.mint,
                total: amount,
            }) && ledger.after(program_id, accounts, amount, transfer)[accounts.staker_key@]
                == entry,
            Err(_) => ledger.after(program_id, accounts, amount, transfer) == ledger@,
        },
        ledger.outcome(program_id, accounts, amount, transfer) is Ok <==> (accounts.fault(
            program_id,
        ) is None && transfer == TransferOutcome::Completed),
{
    Address::lemma_zero_address();
}

/// Stakes by a user other than the all-zero address, into an entry that is
/// vacant or belongs to user and mint, all succeed while the running total
/// fits in 64 bits, and leave the entry with the total it had plus the sum of
/// the amounts.
pub proof fn lemma_stakes_accumulate(accounts: UserStake, amounts: Seq<u64>)
    requires
        accounts.user@ != zero_bytes(),
        accounts.staker.opened(accounts.user, accounts.mint).owner@ == accounts.user@,
        accounts.staker.opened(accounts.user, accounts.mint).mint@ == accounts.mint@,
        accounts.staker.opened(accounts.user, accounts.mint).total + total_of(amounts)
            <= u64::MAX,
    ensures
        all_accepted(accounts, completed(amounts)),
        amounts.len() > 0 ==> accounts.after_all(completed(amounts)).staker == (Staker {
            owner: accounts.user,
            mint: accounts.mint,
            total: (accounts.staker.opened(accounts.user, accounts.mint).total + total_of(
                amounts,
            )) as u64,
        }),
        amounts.len() > 0 && accounts.staker.is_vacant() ==> accounts.after_all(
            completed(amounts),
        ).staker.total == total_of(amounts),
    decreases amounts.len(),
{
    lemma_total_of_bounds(amounts);
    if amounts.len() > 0 {
        let front = amounts.drop_last();
        lemma_total_of_bounds(front);
        lemma_stakes_accumulate(accounts, front);
        lemma_attempts_touch_entry_only(accounts, completed(front));
        assert(completed(amounts).drop_last() =~= completed(front));
        let opened = accounts.staker.opened(accounts.user, accounts.mint);
        Address::lemma_view_injective(opened.owner, accounts.user);
        Address::lemma_view_injective(opened.mint, accounts.mint);
        if front.len() == 0 {
            assert(accounts.after_all(completed(front)) == accounts);
        }
        assert forall|i: int| 0 <= i < amounts.len() implies (#[trigger] accounts.after_all(
            completed(amounts).take(i),
        )).outcome(completed(amounts)[i].0, completed(amounts)[i].1) is Ok by {
            if i < front.len() {
                assert(completed(amounts).take(i) =~= completed(front).take(i));
                let reached = accounts.after_all(completed(front).take(i));
                assert(reached.outcome(completed(front)[i].0, completed(front)[i].1) is Ok);
            } else {
                assert(completed(amounts).take(i) =~= completed(front));
            }
        }
    }
}

/// A sum of amounts is not negative, and no less than the sum of all but the last.
pub proof fn lemma_total_of_bounds(amounts: Seq<u64>)
    ensures
        0 <= total_of(amounts),
        amounts.len() > 0 ==> total_of(amounts.drop_last()) <= total_of(amounts),
    decreases amounts.len(),
{
    if amounts.len() > 0 {
        lemma_total_of_bounds(amounts.drop_last());
    }
}

/// A stake into an entry of user and mint whose total would pass the largest
/// 64-bit value is refused as an overflow, and the entry keeps its total.
pub proof fn lemma_overflow_is_refused(accounts: UserStake, amount: u64)
    requires
        !accounts.staker.is_vacant(),
        accounts.staker.owner@ == accounts.user@,
        accounts.staker.mint@ == accounts.mint@,
        accounts.staker.total + amount > u64::MAX,
    ensures
        accounts.outcome(amount, TransferOutcome::Completed) == Err::<Staker, StakeError>(
            StakeError::MathOverflow,
        ),
        accounts.after(amount, TransferOutcome::Completed) == accounts,
{
}

/// A stake into an entry that belongs to another user is refused as an owner
/// mismatch; into one of the user's that tracks another mint, as a mint
/// mismatch. Either way the accounts stay as they were.
pub proof fn lemma_foreign_entry_is_refused(accounts: UserStake, amount: u64)
    requires
        !accounts.staker.is_vacant(),
        accounts.staker.owner@ != accounts.user@ || accounts.staker.mint@ != accounts.mint@,
    ensures
        accounts.staker.owner@ != accounts.user@ ==> accounts.outcome(
            amount,
            TransferOutcome::Completed,
        ) == Err::<Staker, StakeError>(StakeError::OwnerMismatch),
        accounts.staker.owner@ == accounts.user@ ==> accounts.outcome(
            amount,
            TransferOutcome::Completed,
        ) == Err::<Staker, StakeError>(StakeError::MintMismatch),
        accounts.after(amount, TransferOutcome::Completed) == accounts,
{
}

/// In the store, a stake whose supplied address holds an entry of another
/// user or mint stores nothing; where the supplied addresses are the derived
/// ones and the transfer completed, it is refused with the mismatch.
pub proof fn lemma_foreign_entry_keeps_store(
    ledger: Ledger,
    program_id: Address,
    accounts: UserStake,
    amount: u64,
    transfer: TransferOutcome,
)
    requires
        ledger@.contains_key(accounts.staker_key@),
        !ledger@[accounts.staker_key@].is_vacant(),
        ledger@[accounts.staker_key@].owner@ != accounts.user@
            || ledger@[accounts.staker_key@].mint@ != accounts.mint@,
    ensures
        ledger.outcome(program_id, accounts, amount, transfer) is Err,
        ledger.after(program_id, accounts, amount, transfer) == ledger@,
        accounts.fault(program_id) is None && transfer == TransferOutcome::Completed
            ==> ledger.outcome(program_id, accounts, amount, transfer) == Err::<
            Staker,
            StakeError,
        >(
            if ledger@[accounts.staker_key@].owner@ != accounts.user@ {
                StakeError::OwnerMismatch
            } else {
                StakeError::MintMismatch
            },
        ),
{
}

/// A stake for one user and mint never changes a stored entry that belongs
/// to another user or to another mint, under whatever address it is stored.
pub proof fn lemma_stake_spares_other_pairs(
    ledger: Ledger,
    program_id: Address,
    accounts: UserStake,
    amount: u64,
    transfer: TransferOutcome,
    key: Seq<u8>,
)
    requires
        ledger@.contains_key(key),
        !ledger@[key].is_vacant(),
        ledger@[key].owner@ != accounts.user@ || ledger@[key].mint@ != accounts.mint@,
    ensures
        ledger.after(program_id, accounts, amount, transfer).contains_key(key),
        ledger.after(program_id, accounts, amount, transfer)[key] == ledger@[key],
{
}

/// Whatever its outcome, a stake leaves a stored total no smaller than it
/// was, and never changes the owner or the mint of an entry that has them.
pub proof fn lemma_entry_only_grows(
    ledger: Ledger,
    program_id: Address,
    accounts: UserStake,
    amount: u64,
    transfer: TransferOutcome,
    key: Seq<u8>,
)
    requires
        ledger@.contains_key(key),
        !ledger@[key].is_vacant(),
    ensures
        ledger.after(program_id, accounts, amount, transfer).contains_key(key),
        ledger.after(program_id, accounts, amount, transfer)[key].owner == ledger@[key].owner,
        ledger.after(program_id, accounts, amount, transfer)[key].mint == ledger@[key].mint,
        ledger.after(program_id, accounts, amount, transfer)[key].total >= ledger@[key].total,
{
}

} // verus!
