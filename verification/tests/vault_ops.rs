use vault::address::Address;
use vault::vault::{VaultArena, VaultError};

fn addr(b: u8) -> Address {
    Address::new(vec![b; 32])
}

const STATE_RESERVE: u64 = 2000;
const VAULT_RESERVE: u64 = 1000;

fn fresh_arena() -> VaultArena {
    VaultArena::new(addr(9))
}

fn init_vault(arena: &mut VaultArena, owner_tag: u8, owner_lamports: &mut u64) {
    let owner = addr(owner_tag);
    let r = arena.initialize_vault(&owner, STATE_RESERVE, VAULT_RESERVE, owner_lamports);
    assert_eq!(r, Ok(()));
}

#[test]
fn full_lifecycle_scenario() {
    let mut arena = fresh_arena();
    let owner_a = addr(1);
    let owner_b = addr(2);
    let mut a_lamports: u64 = 10_000;
    let mut b_lamports: u64 = 10_000;

    // Initialize(owner=A): balance starts at zero.
    let r = arena.initialize_vault(&owner_a, STATE_RESERVE, VAULT_RESERVE, &mut a_lamports);
    assert_eq!(r, Ok(()));
    assert_eq!(a_lamports, 10_000 - STATE_RESERVE - VAULT_RESERVE);
    assert_eq!(arena.len(), 1);
    assert_eq!(arena.entry_at(0).state.balance, 0);
    assert_eq!(arena.entry_at(0).vault_lamports, VAULT_RESERVE);

    let state_address = arena.entry_at(0).state_address.duplicate();
    let vault_address = arena.entry_at(0).state.vault.duplicate();

    // Deposit(caller=A, amount=500): balance 500, holder raw = reserve + 500.
    let r = arena.deposit(&state_address, &vault_address, &mut a_lamports, 500);
    assert_eq!(r, Ok(()));
    assert_eq!(arena.entry_at(0).state.balance, 500);
    assert_eq!(arena.entry_at(0).vault_lamports, VAULT_RESERVE + 500);
    assert_eq!(a_lamports, 10_000 - STATE_RESERVE - VAULT_RESERVE - 500);

    // Withdraw(owner=A, amount=200): balance 300.
    let r = arena.withdraw(&state_address, &vault_address, &owner_a, &mut a_lamports, 200);
    assert_eq!(r, Ok(()));
    assert_eq!(arena.entry_at(0).state.balance, 300);

    // Withdraw(owner=B, B != A): refused, nothing changes.
    let r = arena.withdraw(&state_address, &vault_address, &owner_b, &mut b_lamports, 100);
    assert_eq!(r, Err(VaultError::Unauthorized));
    assert_eq!(arena.entry_at(0).state.balance, 300);
    assert_eq!(b_lamports, 10_000);

    // Withdraw(owner=A, amount=1000): insufficient, balance stays 300.
    let r = arena.withdraw(&state_address, &vault_address, &owner_a, &mut a_lamports, 1000);
    assert_eq!(r, Err(VaultError::InsufficientFunds));
    assert_eq!(arena.entry_at(0).state.balance, 300);

    // Withdraw(owner=A, amount=300): balance 0.
    let r = arena.withdraw(&state_address, &vault_address, &owner_a, &mut a_lamports, 300);
    assert_eq!(r, Ok(()));
    assert_eq!(arena.entry_at(0).state.balance, 0);
    assert_eq!(arena.entry_at(0).vault_lamports, VAULT_RESERVE);

    // Close(owner=A): both records destroyed, A receives the reserves.
    let before_close = a_lamports;
    let r = arena.close_vault(&state_address, &vault_address, &owner_a, VAULT_RESERVE, &mut a_lamports);
    assert_eq!(r, Ok(()));
    assert_eq!(arena.len(), 0);
    assert_eq!(a_lamports, before_close + VAULT_RESERVE + STATE_RESERVE);
}

#[test]
fn deposit_zero_amount_fails_without_state_change() {
    let mut arena = fresh_arena();
    let mut lamports: u64 = 10_000;
    init_vault(&mut arena, 1, &mut lamports);
    let state_address = arena.entry_at(0).state_address.duplicate();
    let vault_address = arena.entry_at(0).state.vault.duplicate();

    let before = lamports;
    let r = arena.deposit(&state_address, &vault_address, &mut lamports, 0);
    assert_eq!(r, Err(VaultError::InvalidAmount));
    assert_eq!(lamports, before);
    assert_eq!(arena.entry_at(0).state.balance, 0);
    assert_eq!(arena.entry_at(0).vault_lamports, VAULT_RESERVE);
}

#[test]
fn withdraw_zero_amount_fails() {
    let mut arena = fresh_arena();
    let owner = addr(1);
    let mut lamports: u64 = 10_000;
    init_vault(&mut arena, 1, &mut lamports);
    let state_address = arena.entry_at(0).state_address.duplicate();
    let vault_address = arena.entry_at(0).state.vault.duplicate();

    let r = arena.withdraw(&state_address, &vault_address, &owner, &mut lamports, 0);
    assert_eq!(r, Err(VaultError::InvalidAmount));
    assert_eq!(arena.entry_at(0).state.balance, 0);
}

#[test]
fn withdraw_above_balance_makes_no_transfer() {
    let mut arena = fresh_arena();
    let owner = addr(1);
    let mut lamports: u64 = 10_000;
    init_vault(&mut arena, 1, &mut lamports);
    let state_address = arena.entry_at(0).state_address.duplicate();
    let vault_address = arena.entry_at(0).state.vault.duplicate();

    let r = arena.deposit(&state_address, &vault_address, &mut lamports, 400);
    assert_eq!(r, Ok(()));
    let before = lamports;
    let r = arena.withdraw(&state_address, &vault_address, &owner, &mut lamports, 401);
    assert_eq!(r, Err(VaultError::InsufficientFunds));
    assert_eq!(lamports, before);
    assert_eq!(arena.entry_at(0).state.balance, 400);
    assert_eq!(arena.entry_at(0).vault_lamports, VAULT_RESERVE + 400);
}

#[test]
fn second_initialize_fails_and_leaves_vault_untouched() {
    let mut arena = fresh_arena();
    let owner = addr(1);
    let mut lamports: u64 = 100_000;
    init_vault(&mut arena, 1, &mut lamports);
    let state_address = arena.entry_at(0).state_address.duplicate();
    let vault_address = arena.entry_at(0).state.vault.duplicate();
    let r = arena.deposit(&state_address, &vault_address, &mut lamports, 777);
    assert_eq!(r, Ok(()));

    let before = lamports;
    let r = arena.initialize_vault(&owner, STATE_RESERVE, VAULT_RESERVE, &mut lamports);
    assert_eq!(r, Err(VaultError::AlreadyInitialized));
    assert_eq!(lamports, before);
    assert_eq!(arena.len(), 1);
    assert_eq!(arena.entry_at(0).state.balance, 777);
}

#[test]
fn close_with_nonzero_balance_fails() {
    let mut arena = fresh_arena();
    let owner = addr(1);
    let mut lamports: u64 = 10_000;
    init_vault(&mut arena, 1, &mut lamports);
    let state_address = arena.entry_at(0).state_address.duplicate();
    let vault_address = arena.entry_at(0).state.vault.duplicate();
    let r = arena.deposit(&state_address, &vault_address, &mut lamports, 5);
    assert_eq!(r, Ok(()));

    let r = arena.close_vault(&state_address, &vault_address, &owner, VAULT_RESERVE, &mut lamports);
    assert_eq!(r, Err(VaultError::VaultNotEmpty));
    assert_eq!(arena.len(), 1);
    assert_eq!(arena.entry_at(0).state.balance, 5);
}

#[test]
fn close_with_unexpected_reserve_fails() {
    let mut arena = fresh_arena();
    let owner = addr(1);
    let mut lamports: u64 = 10_000;
    init_vault(&mut arena, 1, &mut lamports);
    let state_address = arena.entry_at(0).state_address.duplicate();
    let vault_address = arena.entry_at(0).state.vault.duplicate();

    // The holder actually carries exactly VAULT_RESERVE; claiming a different
    // expected minimum exposes the divergence and blocks closure.
    let r = arena.close_vault(&state_address, &vault_address, &owner, VAULT_RESERVE + 1, &mut lamports);
    assert_eq!(r, Err(VaultError::UnexpectedVaultLamports));
    assert_eq!(arena.len(), 1);
}

#[test]
fn close_by_non_owner_fails() {
    let mut arena = fresh_arena();
    let intruder = addr(3);
    let mut lamports: u64 = 10_000;
    let mut intruder_lamports: u64 = 0;
    init_vault(&mut arena, 1, &mut lamports);
    let state_address = arena.entry_at(0).state_address.duplicate();
    let vault_address = arena.entry_at(0).state.vault.duplicate();

    let r = arena.close_vault(&state_address, &vault_address, &intruder, VAULT_RESERVE, &mut intruder_lamports);
    assert_eq!(r, Err(VaultError::Unauthorized));
    assert_eq!(arena.len(), 1);
    assert_eq!(intruder_lamports, 0);
}

#[test]
fn unknown_metadata_address_fails_derivation() {
    let mut arena = fresh_arena();
    let mut lamports: u64 = 10_000;
    init_vault(&mut arena, 1, &mut lamports);
    let bogus = addr(42);
    let vault_address = arena.entry_at(0).state.vault.duplicate();

    let r = arena.deposit(&bogus, &vault_address, &mut lamports, 10);
    assert_eq!(r, Err(VaultError::DerivationMismatch));
}

#[test]
fn mismatched_holder_address_fails_derivation() {
    let mut arena = fresh_arena();
    let mut lamports: u64 = 10_000;
    init_vault(&mut arena, 1, &mut lamports);
    let state_address = arena.entry_at(0).state_address.duplicate();
    let bogus = addr(42);

    let r = arena.deposit(&state_address, &bogus, &mut lamports, 10);
    assert_eq!(r, Err(VaultError::DerivationMismatch));
}

#[test]
fn initialize_with_underfunded_owner_fails() {
    let mut arena = fresh_arena();
    let owner = addr(1);
    let mut lamports: u64 = STATE_RESERVE + VAULT_RESERVE - 1;
    let r = arena.initialize_vault(&owner, STATE_RESERVE, VAULT_RESERVE, &mut lamports);
    assert_eq!(r, Err(VaultError::TransferFailed));
    assert_eq!(lamports, STATE_RESERVE + VAULT_RESERVE - 1);
    assert_eq!(arena.len(), 0);
}

#[test]
fn deposit_more_than_caller_has_fails() {
    let mut arena = fresh_arena();
    let mut lamports: u64 = 10_000;
    init_vault(&mut arena, 1, &mut lamports);
    let state_address = arena.entry_at(0).state_address.duplicate();
    let vault_address = arena.entry_at(0).state.vault.duplicate();

    let mut poor: u64 = 3;
    let r = arena.deposit(&state_address, &vault_address, &mut poor, 4);
    assert_eq!(r, Err(VaultError::TransferFailed));
    assert_eq!(poor, 3);
    assert_eq!(arena.entry_at(0).state.balance, 0);
}

#[test]
fn two_owners_get_independent_vaults() {
    let mut arena = fresh_arena();
    let mut a_lamports: u64 = 10_000;
    let mut b_lamports: u64 = 10_000;
    init_vault(&mut arena, 1, &mut a_lamports);
    init_vault(&mut arena, 2, &mut b_lamports);
    assert_eq!(arena.len(), 2);

    let a_state = arena.entry_at(0).state_address.duplicate();
    let a_vault = arena.entry_at(0).state.vault.duplicate();
    let b_state = arena.entry_at(1).state_address.duplicate();

    assert_ne!(a_state.as_bytes(), b_state.as_bytes());

    let r = arena.deposit(&a_state, &a_vault, &mut a_lamports, 250);
    assert_eq!(r, Ok(()));
    assert_eq!(arena.entry_at(0).state.balance, 250);
    assert_eq!(arena.entry_at(1).state.balance, 0);
}

#[test]
fn derived_addresses_match_the_chain_derivation() {
    // The arena's stored addresses must be the real program-derived addresses
    // of the chain, not anything the library made up.
    let mut arena = fresh_arena();
    let owner = addr(1);
    let mut lamports: u64 = 10_000;
    init_vault(&mut arena, 1, &mut lamports);

    let program_pk = solana_program::pubkey::Pubkey::new_from_array([9u8; 32]);
    let (expected_state, state_bump) = solana_program::pubkey::Pubkey::find_program_address(
        &[b"vault_state", &[1u8; 32]],
        &program_pk,
    );
    let (expected_vault, vault_bump) = solana_program::pubkey::Pubkey::find_program_address(
        &[b"vault", &[1u8; 32]],
        &program_pk,
    );

    let entry = arena.entry_at(0);
    assert_eq!(entry.state_address.as_bytes().as_slice(), expected_state.to_bytes().as_slice());
    assert_eq!(entry.state.vault.as_bytes().as_slice(), expected_vault.to_bytes().as_slice());
    assert_eq!(entry.state.state_bump, state_bump);
    assert_eq!(entry.state.vault_bump, vault_bump);
    assert_eq!(entry.state.owner.as_bytes().as_slice(), owner.as_bytes().as_slice());
}

#[test]
fn deposit_withdraw_round_trip_restores_balances() {
    let mut arena = fresh_arena();
    let owner = addr(1);
    let mut lamports: u64 = 10_000;
    init_vault(&mut arena, 1, &mut lamports);
    let state_address = arena.entry_at(0).state_address.duplicate();
    let vault_address = arena.entry_at(0).state.vault.duplicate();

    let r = arena.deposit(&state_address, &vault_address, &mut lamports, 1234);
    assert_eq!(r, Ok(()));
    let r = arena.deposit(&state_address, &vault_address, &mut lamports, 1111);
    assert_eq!(r, Ok(()));

    let balance_before = arena.entry_at(0).state.balance;
    let holder_before = arena.entry_at(0).vault_lamports;

    let r = arena.deposit(&state_address, &vault_address, &mut lamports, 500);
    assert_eq!(r, Ok(()));
    let r = arena.withdraw(&state_address, &vault_address, &owner, &mut lamports, 500);
    assert_eq!(r, Ok(()));

    assert_eq!(arena.entry_at(0).state.balance, balance_before);
    assert_eq!(arena.entry_at(0).vault_lamports, holder_before);
}

#[test]
fn reinitialize_after_close_gets_a_fresh_vault() {
    let mut arena = fresh_arena();
    let owner = addr(1);
    let mut lamports: u64 = 100_000;
    init_vault(&mut arena, 1, &mut lamports);
    let state_address = arena.entry_at(0).state_address.duplicate();
    let vault_address = arena.entry_at(0).state.vault.duplicate();

    let r = arena.close_vault(&state_address, &vault_address, &owner, VAULT_RESERVE, &mut lamports);
    assert_eq!(r, Ok(()));
    assert_eq!(arena.len(), 0);

    // Derivation is deterministic, so the new pair sits at the same
    // addresses; creation succeeds only because closing deallocated them.
    let r = arena.initialize_vault(&owner, STATE_RESERVE, VAULT_RESERVE, &mut lamports);
    assert_eq!(r, Ok(()));
    assert_eq!(arena.len(), 1);
    assert_eq!(arena.entry_at(0).state.balance, 0);
    assert_eq!(
        arena.entry_at(0).state_address.as_bytes(),
        state_address.as_bytes()
    );
}
