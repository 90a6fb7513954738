use vault::addition;
use vault::address::Address;
use vault::counter::{counter_step, deserialize_counter, serialize_counter, Counter};
use vault::processor::{
    deserialize_account, parse_instruction, serialize_account, serialize_instruction,
    CounterAccount, CounterInstruction, PdaAccount, Processor, ProcessorError,
};
use vault::data_account::{initialize, MyAccount};

const RENT_MINIMUM: u64 = 890;

fn program_id() -> Address {
    Address::new(vec![11; 32])
}

fn counter_pda() -> (Address, u8) {
    let pk = solana_program::pubkey::Pubkey::new_from_array([11u8; 32]);
    let (pda, bump) = solana_program::pubkey::Pubkey::find_program_address(&[b"counter_v2"], &pk);
    (Address::new(pda.to_bytes().to_vec()), bump)
}

fn fresh_account() -> PdaAccount {
    let (key, _) = counter_pda();
    PdaAccount {
        key,
        owner: program_id(),
        is_writable: true,
        lamports: 0,
        data: Vec::new(),
    }
}

fn initialized_account() -> PdaAccount {
    let mut account = fresh_account();
    let mut payer: u64 = 10_000;
    let r = Processor::process(&program_id(), &mut account, &mut payer, RENT_MINIMUM, &[0]);
    assert_eq!(r, Ok(()));
    account
}

#[test]
fn counter_step_creates_at_zero_then_increments() {
    let out = counter_step(&[]).expect("empty data must initialize");
    assert_eq!(out, vec![1, 0, 0, 0, 0, 0, 0, 0]);
}

#[test]
fn counter_step_increments_existing_value() {
    let out = counter_step(&[5, 0, 0, 0, 0, 0, 0, 0]).expect("valid data");
    assert_eq!(out, vec![6, 0, 0, 0, 0, 0, 0, 0]);
}

#[test]
fn counter_step_rejects_malformed_data() {
    assert!(counter_step(&[1, 2, 3]).is_none());
}

#[test]
fn counter_codec_round_trip() {
    let c = Counter { value: 0xDEADBEEF };
    let bytes = serialize_counter(&c);
    let back = deserialize_counter(bytes.as_slice()).expect("parse failed");
    assert_eq!(back.value, 0xDEADBEEF);
    assert!(deserialize_counter(&bytes[0..7]).is_none());
}

#[test]
fn instruction_codec_round_trip() {
    for ins in [
        CounterInstruction::Initialize,
        CounterInstruction::Increment,
        CounterInstruction::Decrement,
        CounterInstruction::Reset,
    ] {
        let bytes = serialize_instruction(&ins);
        assert_eq!(parse_instruction(bytes.as_slice()), Some(ins));
    }
    assert_eq!(parse_instruction(&[4]), None);
    assert_eq!(parse_instruction(&[]), None);
    assert_eq!(parse_instruction(&[0, 0]), None);
}

#[test]
fn account_codec_round_trip() {
    let a = CounterAccount { count: -17 };
    let bytes = serialize_account(&a);
    let back = deserialize_account(bytes.as_slice()).expect("parse failed");
    assert_eq!(back.count, -17);
}

#[test]
fn processor_initialize_creates_counter_at_zero() {
    let mut account = fresh_account();
    let mut payer: u64 = 10_000;
    let r = Processor::process(&program_id(), &mut account, &mut payer, RENT_MINIMUM, &[0]);
    assert_eq!(r, Ok(()));
    assert_eq!(payer, 10_000 - RENT_MINIMUM);
    assert_eq!(account.lamports, RENT_MINIMUM);
    assert_eq!(account.data, vec![0; 8]);
}

#[test]
fn processor_initialize_twice_fails() {
    let mut account = initialized_account();
    let mut payer: u64 = 10_000;
    let r = Processor::process(&program_id(), &mut account, &mut payer, RENT_MINIMUM, &[0]);
    assert_eq!(r, Err(ProcessorError::AccountAlreadyInitialized));
    assert_eq!(payer, 10_000);
}

#[test]
fn processor_initialize_with_poor_payer_fails() {
    let mut account = fresh_account();
    let mut payer: u64 = RENT_MINIMUM - 1;
    let r = Processor::process(&program_id(), &mut account, &mut payer, RENT_MINIMUM, &[0]);
    assert_eq!(r, Err(ProcessorError::AllocationFailed));
    assert_eq!(account.data.len(), 0);
}

#[test]
fn processor_counts_up_down_and_resets() {
    let mut account = initialized_account();
    let mut payer: u64 = 0;
    let pid = program_id();

    for _ in 0..3 {
        let r = Processor::process(&pid, &mut account, &mut payer, RENT_MINIMUM, &[1]);
        assert_eq!(r, Ok(()));
    }
    assert_eq!(deserialize_account(account.data.as_slice()).unwrap().count, 3);

    let r = Processor::process(&pid, &mut account, &mut payer, RENT_MINIMUM, &[2]);
    assert_eq!(r, Ok(()));
    assert_eq!(deserialize_account(account.data.as_slice()).unwrap().count, 2);

    let r = Processor::process(&pid, &mut account, &mut payer, RENT_MINIMUM, &[3]);
    assert_eq!(r, Ok(()));
    assert_eq!(deserialize_account(account.data.as_slice()).unwrap().count, 0);

    let r = Processor::process(&pid, &mut account, &mut payer, RENT_MINIMUM, &[2]);
    assert_eq!(r, Ok(()));
    assert_eq!(deserialize_account(account.data.as_slice()).unwrap().count, -1);
}

#[test]
fn processor_rejects_unknown_instruction() {
    let mut account = initialized_account();
    let mut payer: u64 = 0;
    let r = Processor::process(&program_id(), &mut account, &mut payer, RENT_MINIMUM, &[7]);
    assert_eq!(r, Err(ProcessorError::InvalidInstructionData));
}

#[test]
fn processor_rejects_foreign_account_owner() {
    let mut account = initialized_account();
    account.owner = Address::new(vec![99; 32]);
    let mut payer: u64 = 0;
    let r = Processor::process(&program_id(), &mut account, &mut payer, RENT_MINIMUM, &[1]);
    assert_eq!(r, Err(ProcessorError::IncorrectProgramId));
}

#[test]
fn processor_rejects_readonly_account() {
    let mut account = initialized_account();
    account.is_writable = false;
    let mut payer: u64 = 0;
    let r = Processor::process(&program_id(), &mut account, &mut payer, RENT_MINIMUM, &[1]);
    assert_eq!(r, Err(ProcessorError::InvalidAccountData));
}

#[test]
fn processor_rejects_wrong_derived_address() {
    let mut account = initialized_account();
    account.key = Address::new(vec![55; 32]);
    let mut payer: u64 = 0;
    let r = Processor::process(&program_id(), &mut account, &mut payer, RENT_MINIMUM, &[1]);
    assert_eq!(r, Err(ProcessorError::InvalidSeeds));
}

#[test]
fn processor_derived_address_matches_the_chain_derivation() {
    // The processor must accept exactly the chain's derived address: an
    // account at any other key is refused above, and the real one passes.
    let account = initialized_account();
    let (pda, _) = counter_pda();
    assert_eq!(account.key.as_bytes(), pda.as_bytes());
}

#[test]
fn addition_adds_two_little_endian_numbers() {
    let r = addition::process_instruction(&[1, 0, 0, 0, 2, 0, 0, 0]);
    assert_eq!(r, Some(3));
    let r = addition::process_instruction(&[0, 1, 0, 0, 0, 2, 0, 0]);
    assert_eq!(r, Some(256 + 512));
}

#[test]
fn addition_ignores_short_data() {
    assert_eq!(addition::process_instruction(&[1, 2, 3]), None);
    assert_eq!(addition::process_instruction(&[]), None);
}

#[test]
fn data_account_initialize_stores_value() {
    let mut account = MyAccount { data: 0 };
    initialize(&mut account, 12345);
    assert_eq!(account.data, 12345);
}
