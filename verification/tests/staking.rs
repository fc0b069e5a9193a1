use stake_test::address::associated_token_address;
use stake_test::address::staker_address;
use stake_test::address::vault_authority_address;
use stake_test::do_stake;
use stake_test::stake::is_derived;
use stake_test::DerivedAddresses;
use stake_test::Address;
use stake_test::Ledger;
use stake_test::StakeError;
use stake_test::StakeEvent;
use stake_test::Staker;
use stake_test::TokenAccount;
use stake_test::Transfer;
use stake_test::TransferOutcome;
use stake_test::UserStake;

fn key(fill: u8) -> Address {
    Address::new([fill; 32])
}

fn program() -> Address {
    key(200)
}

/// Accounts of `user` for `mint` with every address derived as it should be.
fn accounts_of(user: Address, mint: Address) -> UserStake {
    let token_program = key(201);
    let associated_token_program = key(202);
    let vault_authority = vault_authority_address(&program(), &mint).unwrap().0;
    let user_key =
        associated_token_address(&user, &mint, &token_program, &associated_token_program).unwrap();
    let vault_key = associated_token_address(
        &vault_authority,
        &mint,
        &token_program,
        &associated_token_program,
    )
    .unwrap();
    UserStake {
        user,
        mint,
        vault_authority,
        user_ata: TokenAccount { key: user_key, owner: user, mint },
        vault_ata: TokenAccount { key: vault_key, owner: vault_authority, mint },
        staker_key: staker_address(&program(), &user, &mint).unwrap().0,
        staker: Staker::vacant(),
        token_program,
        associated_token_program,
    }
}

#[test]
fn vacant_entry_is_zero_valued() {
    let entry = Staker::vacant();
    assert_eq!(entry.owner, Address::default());
    assert_eq!(entry.mint, Address::default());
    assert_eq!(entry.total, 0);
}

#[test]
fn stake_scenario_accumulates_then_refuses_overflow() {
    let x = key(1);
    let m = key(2);
    let mut accounts = accounts_of(x, m);

    let first = do_stake(&mut accounts, 100, TransferOutcome::Completed);
    assert_eq!(first, Ok(StakeEvent { staker: x, mint: m, amount: 100, new_total: 100 }));
    assert_eq!(accounts.staker, Staker { owner: x, mint: m, total: 100 });

    let second = do_stake(&mut accounts, 50, TransferOutcome::Completed);
    assert_eq!(second, Ok(StakeEvent { staker: x, mint: m, amount: 50, new_total: 150 }));
    assert_eq!(accounts.staker.total, 150);

    let third = do_stake(&mut accounts, u64::MAX, TransferOutcome::Completed);
    assert_eq!(third, Err(StakeError::MathOverflow));
    assert_eq!(accounts.staker, Staker { owner: x, mint: m, total: 150 });
}

#[test]
fn first_stake_sets_total_after_failed_attempts() {
    let mut accounts = accounts_of(key(1), key(2));
    let untouched = accounts;
    assert_eq!(do_stake(&mut accounts, 7, TransferOutcome::Failed), Err(StakeError::TransferFailed));
    assert_eq!(do_stake(&mut accounts, 9, TransferOutcome::Failed), Err(StakeError::TransferFailed));
    assert_eq!(accounts, untouched);
    let event = do_stake(&mut accounts, 42, TransferOutcome::Completed).unwrap();
    assert_eq!(event.new_total, 42);
    assert_eq!(accounts.staker.total, 42);
}

#[test]
fn stakes_add_up() {
    let mut accounts = accounts_of(key(1), key(2));
    let amounts = [5u64, 0, 17, 1_000_000, 3];
    let mut sum = 0u64;
    for a in amounts {
        sum += a;
        let event = do_stake(&mut accounts, a, TransferOutcome::Completed).unwrap();
        assert_eq!(event.amount, a);
        assert_eq!(event.new_total, sum);
    }
    assert_eq!(accounts.staker.total, 1_000_025);
}

#[test]
fn total_may_reach_the_largest_value() {
    let mut accounts = accounts_of(key(1), key(2));
    do_stake(&mut accounts, u64::MAX - 1, TransferOutcome::Completed).unwrap();
    let event = do_stake(&mut accounts, 1, TransferOutcome::Completed).unwrap();
    assert_eq!(event.new_total, u64::MAX);
    assert_eq!(do_stake(&mut accounts, 1, TransferOutcome::Completed), Err(StakeError::MathOverflow));
    assert_eq!(accounts.staker.total, u64::MAX);
    assert_eq!(
        do_stake(&mut accounts, 0, TransferOutcome::Completed),
        Ok(StakeEvent { staker: key(1), mint: key(2), amount: 0, new_total: u64::MAX })
    );
}

#[test]
fn first_stake_of_the_largest_value_succeeds() {
    let mut accounts = accounts_of(key(1), key(2));
    let event = do_stake(&mut accounts, u64::MAX, TransferOutcome::Completed).unwrap();
    assert_eq!(event.new_total, u64::MAX);
}

#[test]
fn zero_amount_is_accepted() {
    let mut accounts = accounts_of(key(1), key(2));
    do_stake(&mut accounts, 30, TransferOutcome::Completed).unwrap();
    let event = do_stake(&mut accounts, 0, TransferOutcome::Completed);
    assert_eq!(event, Ok(StakeEvent { staker: key(1), mint: key(2), amount: 0, new_total: 30 }));
    assert_eq!(accounts.staker.total, 30);
}

#[test]
fn zero_amount_opens_a_vacant_entry() {
    let mut accounts = accounts_of(key(1), key(2));
    let event = do_stake(&mut accounts, 0, TransferOutcome::Completed);
    assert_eq!(event, Ok(StakeEvent { staker: key(1), mint: key(2), amount: 0, new_total: 0 }));
    assert_eq!(accounts.staker, Staker { owner: key(1), mint: key(2), total: 0 });
}

#[test]
fn entry_of_another_user_is_refused() {
    let mut accounts = accounts_of(key(1), key(2));
    accounts.staker = Staker { owner: key(3), mint: key(2), total: 10 };
    let before = accounts;
    assert_eq!(do_stake(&mut accounts, 5, TransferOutcome::Completed), Err(StakeError::OwnerMismatch));
    assert_eq!(accounts, before);
}

#[test]
fn entry_of_another_mint_is_refused() {
    let mut accounts = accounts_of(key(1), key(2));
    accounts.staker = Staker { owner: key(1), mint: key(4), total: 10 };
    let before = accounts;
    assert_eq!(do_stake(&mut accounts, 5, TransferOutcome::Completed), Err(StakeError::MintMismatch));
    assert_eq!(accounts, before);
}

#[test]
fn owner_is_checked_before_mint_and_overflow() {
    let mut accounts = accounts_of(key(1), key(2));
    accounts.staker = Staker { owner: key(3), mint: key(4), total: u64::MAX };
    assert_eq!(do_stake(&mut accounts, 5, TransferOutcome::Completed), Err(StakeError::OwnerMismatch));
    accounts.staker = Staker { owner: key(1), mint: key(4), total: u64::MAX };
    assert_eq!(do_stake(&mut accounts, 5, TransferOutcome::Completed), Err(StakeError::MintMismatch));
    assert_eq!(accounts.staker.total, u64::MAX);
}

#[test]
fn failed_transfer_is_refused_before_the_entry_is_read() {
    let mut accounts = accounts_of(key(1), key(2));
    accounts.staker = Staker { owner: key(3), mint: key(4), total: u64::MAX };
    let before = accounts;
    assert_eq!(do_stake(&mut accounts, 5, TransferOutcome::Failed), Err(StakeError::TransferFailed));
    assert_eq!(accounts, before);
}

#[test]
fn entry_of_the_all_zero_user_stays_vacant() {
    let zero = Address::default();
    let mut accounts = accounts_of(zero, key(2));
    assert_eq!(do_stake(&mut accounts, 100, TransferOutcome::Completed).unwrap().new_total, 100);
    assert_eq!(do_stake(&mut accounts, 50, TransferOutcome::Completed).unwrap().new_total, 50);
}

#[test]
fn staker_stake_updates_the_entry() {
    let mut entry = Staker::vacant();
    let event = entry.stake(&key(1), &key(2), 12);
    assert_eq!(event, Ok(StakeEvent { staker: key(1), mint: key(2), amount: 12, new_total: 12 }));
    assert_eq!(entry.stake(&key(1), &key(2), 8).unwrap().new_total, 20);
    assert_eq!(entry.stake(&key(9), &key(2), 8), Err(StakeError::OwnerMismatch));
    assert_eq!(entry.stake(&key(1), &key(9), 8), Err(StakeError::MintMismatch));
    assert_eq!(entry.stake(&key(1), &key(2), u64::MAX - 19), Err(StakeError::MathOverflow));
    assert_eq!(entry, Staker { owner: key(1), mint: key(2), total: 20 });
}

#[test]
fn transfer_goes_from_user_to_vault_on_the_users_signature() {
    let accounts = accounts_of(key(1), key(2));
    assert_eq!(
        accounts.transfer(77),
        Transfer {
            from: accounts.user_ata.key,
            to: accounts.vault_ata.key,
            authority: key(1),
            amount: 77
        }
    );
    assert_ne!(accounts.user_ata.key, accounts.vault_ata.key);
}

#[test]
fn derived_accounts_are_valid() {
    assert_eq!(accounts_of(key(1), key(2)).validate(&program()), Ok(()));
}

#[test]
fn wrong_vault_authority_is_reported() {
    let mut accounts = accounts_of(key(1), key(2));
    accounts.vault_authority = key(9);
    assert_eq!(accounts.validate(&program()), Err(StakeError::InvalidVaultAuthority));
    let accounts = accounts_of(key(1), key(2));
    assert_eq!(accounts.validate(&key(199)), Err(StakeError::InvalidVaultAuthority));
}

#[test]
fn wrong_user_token_account_is_reported() {
    let good = accounts_of(key(1), key(2));
    let mut accounts = good;
    accounts.user_ata.key = key(9);
    assert_eq!(accounts.validate(&program()), Err(StakeError::InvalidUserTokenAccount));
    let mut accounts = good;
    accounts.user_ata.owner = key(9);
    assert_eq!(accounts.validate(&program()), Err(StakeError::InvalidUserTokenAccount));
    let mut accounts = good;
    accounts.user_ata.mint = key(9);
    assert_eq!(accounts.validate(&program()), Err(StakeError::InvalidUserTokenAccount));
    let mut accounts = good;
    accounts.user_ata = good.vault_ata;
    assert_eq!(accounts.validate(&program()), Err(StakeError::InvalidUserTokenAccount));
}

#[test]
fn wrong_vault_token_account_is_reported() {
    let good = accounts_of(key(1), key(2));
    let mut accounts = good;
    accounts.vault_ata.key = key(9);
    assert_eq!(accounts.validate(&program()), Err(StakeError::InvalidVaultTokenAccount));
    let mut accounts = good;
    accounts.vault_ata = good.user_ata;
    assert_eq!(accounts.validate(&program()), Err(StakeError::InvalidVaultTokenAccount));
}

#[test]
fn wrong_staker_address_is_reported() {
    let good = accounts_of(key(1), key(2));
    let mut accounts = good;
    accounts.staker_key = staker_address(&program(), &key(3), &key(2)).unwrap().0;
    assert_eq!(accounts.validate(&program()), Err(StakeError::InvalidStakerAddress));
    accounts.staker_key = staker_address(&program(), &key(1), &key(3)).unwrap().0;
    assert_eq!(accounts.validate(&program()), Err(StakeError::InvalidStakerAddress));
}

#[test]
fn faults_are_reported_in_order() {
    let mut accounts = accounts_of(key(1), key(2));
    accounts.staker_key = key(9);
    accounts.vault_ata.key = key(9);
    assert_eq!(accounts.validate(&program()), Err(StakeError::InvalidVaultTokenAccount));
    accounts.user_ata.key = key(9);
    assert_eq!(accounts.validate(&program()), Err(StakeError::InvalidUserTokenAccount));
    accounts.vault_authority = key(9);
    assert_eq!(accounts.validate(&program()), Err(StakeError::InvalidVaultAuthority));
}

#[test]
fn token_check_reads_owner_mint_and_address() {
    let t = TokenAccount { key: key(10), owner: key(1), mint: key(2) };
    assert!(t.check_held_at(&key(1), &key(2), &Some(key(10))));
    assert!(!t.check_held_at(&key(3), &key(2), &Some(key(10))));
    assert!(!t.check_held_at(&key(1), &key(3), &Some(key(10))));
    assert!(!t.check_held_at(&key(1), &key(2), &Some(key(11))));
    assert!(!t.check_held_at(&key(1), &key(2), &None));
}

#[test]
fn is_derived_wants_the_same_address() {
    assert!(is_derived(&Some(key(1)), &key(1)));
    assert!(!is_derived(&Some(key(1)), &key(2)));
    assert!(!is_derived(&None, &key(1)));
    assert!(!is_derived(&None, &Address::default()));
}

/// Accounts and derived addresses written out by hand.
fn given() -> (UserStake, DerivedAddresses) {
    let accounts = UserStake {
        user: key(1),
        mint: key(2),
        vault_authority: key(3),
        user_ata: TokenAccount { key: key(4), owner: key(1), mint: key(2) },
        vault_ata: TokenAccount { key: key(5), owner: key(3), mint: key(2) },
        staker_key: key(6),
        staker: Staker::vacant(),
        token_program: key(7),
        associated_token_program: key(8),
    };
    let derived = DerivedAddresses {
        vault_authority: Some(key(3)),
        user_ata: Some(key(4)),
        vault_ata: Some(key(5)),
        staker: Some(key(6)),
    };
    (accounts, derived)
}

#[test]
fn check_against_given_addresses() {
    let (accounts, derived) = given();
    assert_eq!(accounts.check_against(&derived), Ok(()));

    let mut d = derived;
    d.staker = Some(key(9));
    assert_eq!(accounts.check_against(&d), Err(StakeError::InvalidStakerAddress));
    d.staker = None;
    assert_eq!(accounts.check_against(&d), Err(StakeError::InvalidStakerAddress));
    d.vault_ata = None;
    assert_eq!(accounts.check_against(&d), Err(StakeError::InvalidVaultTokenAccount));
    d.user_ata = Some(key(5));
    assert_eq!(accounts.check_against(&d), Err(StakeError::InvalidUserTokenAccount));
    d.vault_authority = None;
    assert_eq!(accounts.check_against(&d), Err(StakeError::InvalidVaultAuthority));

    let mut a = accounts;
    a.vault_ata.owner = key(1);
    assert_eq!(a.check_against(&derived), Err(StakeError::InvalidVaultTokenAccount));
    let mut a = accounts;
    a.user_ata.mint = key(9);
    assert_eq!(a.check_against(&derived), Err(StakeError::InvalidUserTokenAccount));
}

#[test]
fn derive_gives_the_four_addresses() {
    let accounts = accounts_of(key(1), key(2));
    let derived = accounts.derive(&program());
    assert_eq!(derived.vault_authority, Some(accounts.vault_authority));
    assert_eq!(derived.user_ata, Some(accounts.user_ata.key));
    assert_eq!(derived.vault_ata, Some(accounts.vault_ata.key));
    assert_eq!(derived.staker, Some(accounts.staker_key));
    assert_eq!(
        derived.vault_authority,
        vault_authority_address(&program(), &key(2)).map(|found| found.0)
    );
    assert_eq!(accounts.check_against(&derived), Ok(()));
}

#[test]
fn stake_against_given_addresses() {
    let (mut accounts, derived) = given();
    let mut ledger = Ledger::new();
    let first = ledger.stake_against(&derived, &mut accounts, 100, TransferOutcome::Completed);
    assert_eq!(first, Ok(StakeEvent { staker: key(1), mint: key(2), amount: 100, new_total: 100 }));
    let second = ledger.stake_against(&derived, &mut accounts, 50, TransferOutcome::Completed);
    assert_eq!(second, Ok(StakeEvent { staker: key(1), mint: key(2), amount: 50, new_total: 150 }));
    let third = ledger.stake_against(&derived, &mut accounts, u64::MAX, TransferOutcome::Completed);
    assert_eq!(third, Err(StakeError::MathOverflow));
    assert_eq!(ledger.get(&key(6)), Some(Staker { owner: key(1), mint: key(2), total: 150 }));

    let mut wrong = derived;
    wrong.staker = Some(key(9));
    assert_eq!(
        ledger.stake_against(&wrong, &mut accounts, 1, TransferOutcome::Completed),
        Err(StakeError::InvalidStakerAddress)
    );
    assert_eq!(
        ledger.stake_against(&derived, &mut accounts, 1, TransferOutcome::Failed),
        Err(StakeError::TransferFailed)
    );
    assert_eq!(ledger.get(&key(6)), Some(Staker { owner: key(1), mint: key(2), total: 150 }));
    assert_eq!(ledger.get(&key(9)), None);
}

#[test]
fn record_takes_eighty_bytes() {
    assert_eq!(stake_test::ledger::STAKER_SPACE, 80);
}

#[test]
fn ledger_starts_empty() {
    let ledger = Ledger::new();
    assert_eq!(ledger.get(&key(1)), None);
    assert_eq!(ledger.get_or_vacant(&key(1)), Staker::vacant());
}

#[test]
fn ledger_holds_one_entry_under_each_address() {
    let (accounts, derived) = given();
    let mut ledger = Ledger::new();
    let mut first = accounts;
    let mut second = accounts;
    second.user = key(21);
    second.user_ata.owner = key(21);
    second.staker_key = key(22);
    let mut at_second = derived;
    at_second.staker = Some(key(22));
    ledger.stake_against(&derived, &mut first, 3, TransferOutcome::Completed).unwrap();
    ledger.stake_against(&at_second, &mut second, 6, TransferOutcome::Completed).unwrap();
    ledger.stake_against(&derived, &mut first, 4, TransferOutcome::Completed).unwrap();
    ledger.stake_against(&at_second, &mut second, 1, TransferOutcome::Completed).unwrap();
    ledger.stake_against(&derived, &mut first, 5, TransferOutcome::Completed).unwrap();
    assert_eq!(ledger.get(&key(6)), Some(Staker { owner: key(1), mint: key(2), total: 12 }));
    assert_eq!(ledger.get(&key(22)), Some(Staker { owner: key(21), mint: key(2), total: 7 }));
    assert_eq!(ledger.get_or_vacant(&key(22)).total, 7);
    assert_eq!(ledger.get(&key(23)), None);
    assert_eq!(ledger.get_or_vacant(&key(23)), Staker::vacant());
}

#[test]
fn ledger_stake_scenario() {
    let x = key(1);
    let m = key(2);
    let mut ledger = Ledger::new();
    let mut accounts = accounts_of(x, m);
    let at = accounts.staker_key;

    let first = ledger.stake(&program(), &mut accounts, 100, TransferOutcome::Completed);
    assert_eq!(first, Ok(StakeEvent { staker: x, mint: m, amount: 100, new_total: 100 }));
    assert_eq!(ledger.get(&at), Some(Staker { owner: x, mint: m, total: 100 }));

    let mut again = accounts_of(x, m);
    let second = ledger.stake(&program(), &mut again, 50, TransferOutcome::Completed);
    assert_eq!(second, Ok(StakeEvent { staker: x, mint: m, amount: 50, new_total: 150 }));
    assert_eq!(again.staker, Staker { owner: x, mint: m, total: 150 });

    let third = ledger.stake(&program(), &mut again, u64::MAX, TransferOutcome::Completed);
    assert_eq!(third, Err(StakeError::MathOverflow));
    assert_eq!(ledger.get(&at), Some(Staker { owner: x, mint: m, total: 150 }));
}

#[test]
fn ledger_stake_refusals_store_nothing() {
    let mut ledger = Ledger::new();
    let mut accounts = accounts_of(key(1), key(2));
    let at = accounts.staker_key;
    let before = accounts;
    assert_eq!(
        ledger.stake(&program(), &mut accounts, 5, TransferOutcome::Failed),
        Err(StakeError::TransferFailed)
    );
    let mut wrong = accounts;
    wrong.vault_authority = key(9);
    assert_eq!(
        ledger.stake(&program(), &mut wrong, 5, TransferOutcome::Completed),
        Err(StakeError::InvalidVaultAuthority)
    );
    assert_eq!(accounts, before);
    assert_eq!(ledger.get(&at), None);
    let event = ledger.stake(&program(), &mut accounts, 5, TransferOutcome::Completed).unwrap();
    assert_eq!(event.new_total, 5);
}

#[test]
fn ledger_stake_reads_the_stored_entry() {
    let mut ledger = Ledger::new();
    let mut accounts = accounts_of(key(1), key(2));
    ledger.stake(&program(), &mut accounts, 10, TransferOutcome::Completed).unwrap();
    let mut stale = accounts_of(key(1), key(2));
    stale.staker = Staker { owner: key(1), mint: key(2), total: 1_000 };
    let event = ledger.stake(&program(), &mut stale, 1, TransferOutcome::Completed).unwrap();
    assert_eq!(event.new_total, 11);
}

#[test]
fn ledger_keeps_pairs_apart() {
    let mut ledger = Ledger::new();
    let mut p1a = accounts_of(key(1), key(2));
    let mut p2a = accounts_of(key(3), key(2));
    let mut p1b = accounts_of(key(1), key(4));
    ledger.stake(&program(), &mut p2a, 20, TransferOutcome::Completed).unwrap();
    ledger.stake(&program(), &mut p1b, 30, TransferOutcome::Completed).unwrap();
    ledger.stake(&program(), &mut p1a, 100, TransferOutcome::Completed).unwrap();
    ledger.stake(&program(), &mut p1a, 1, TransferOutcome::Completed).unwrap();
    assert_eq!(ledger.get(&p2a.staker_key), Some(Staker { owner: key(3), mint: key(2), total: 20 }));
    assert_eq!(ledger.get(&p1b.staker_key), Some(Staker { owner: key(1), mint: key(4), total: 30 }));
    assert_eq!(ledger.get(&p1a.staker_key), Some(Staker { owner: key(1), mint: key(2), total: 101 }));
}

#[test]
fn ledger_refuses_a_stored_entry_of_another_pair() {
    let (accounts, derived) = given();
    let mut ledger = Ledger::new();
    let mut owner = accounts;
    ledger.stake_against(&derived, &mut owner, 20, TransferOutcome::Completed).unwrap();
    let stored = Staker { owner: key(1), mint: key(2), total: 20 };

    let mut other_user = accounts;
    other_user.user = key(3);
    other_user.user_ata.owner = key(3);
    assert_eq!(other_user.check_against(&derived), Ok(()));
    assert_eq!(
        ledger.stake_against(&derived, &mut other_user, 5, TransferOutcome::Completed),
        Err(StakeError::OwnerMismatch)
    );
    assert_eq!(ledger.get(&key(6)), Some(stored));

    let mut other_mint = accounts;
    other_mint.mint = key(9);
    other_mint.user_ata.mint = key(9);
    other_mint.vault_ata.mint = key(9);
    assert_eq!(other_mint.check_against(&derived), Ok(()));
    assert_eq!(
        ledger.stake_against(&derived, &mut other_mint, 5, TransferOutcome::Completed),
        Err(StakeError::MintMismatch)
    );
    assert_eq!(ledger.get(&key(6)), Some(stored));
    assert_eq!(other_mint.staker, Staker::vacant());
}
