//! The multi-instruction counter companion program: an explicit dispatcher —
//! the architectural precedent the vault's entry surface reuses — over a
//! signed 64-bit counter living in one derived account.

use vstd::bytes::{spec_u64_from_le_bytes, spec_u64_to_le_bytes, u64_from_le_bytes, u64_to_le_bytes};
use vstd::prelude::*;

use crate::address::{addr_eq, derived_address_of, find_derived_address, Address};

verus! {

/// The program's instruction set, persisted as a single tag byte.
#[derive(Clone, Copy, Debug, PartialEq, Eq, Structural)]
pub enum CounterInstruction {
    Initialize,
    Increment,
    Decrement,
    Reset,
}

/// The counter account's data: a signed 64-bit count.
pub struct CounterAccount {
    pub count: i64,
}

/// The failures the processor can surface.
#[derive(Clone, Copy, Debug, PartialEq, Eq, Structural)]
pub enum ProcessorError {
    /// The instruction data does not parse to any instruction.
    InvalidInstructionData,
    /// The handed-in account does not sit at the derived address, or no
    /// address can be derived.
    InvalidSeeds,
    /// Initialization while the account already holds data.
    AccountAlreadyInitialized,
    /// The account is not owned by this program.
    IncorrectProgramId,
    /// The account is not writable, or its data is malformed.
    InvalidAccountData,
    /// The payer cannot fund the new account's survival reserve.
    AllocationFailed,
}

/// What the runtime shows a handler of one account.
pub struct PdaAccount {
    /// The account's address.
    pub key: Address,
    /// The program that owns the account.
    pub owner: Address,
    /// Whether the runtime lets this call write the account.
    pub is_writable: bool,
    /// Raw value units the account holds.
    pub lamports: u64,
    /// The account's data bytes.
    pub data: Vec<u8>,
}

/// Mathematical model of one account.
pub ghost struct PdaAccountV {
    pub key: Seq<u8>,
    pub owner: Seq<u8>,
    pub is_writable: bool,
    pub lamports: u64,
    pub data: Seq<u8>,
}

impl View for PdaAccount {
    type V = PdaAccountV;

    open spec fn view(&self) -> PdaAccountV {
        PdaAccountV {
            key: self.key@,
            owner: self.owner@,
            is_writable: self.is_writable,
            lamports: self.lamports,
            data: self.data@,
        }
    }
}

/// The tag byte that persists each instruction.
pub open spec fn instruction_tag(ins: CounterInstruction) -> u8 {
    match ins {
        CounterInstruction::Initialize => 0,
        CounterInstruction::Increment => 1,
        CounterInstruction::Decrement => 2,
        CounterInstruction::Reset => 3,
    }
}

/// What parsing instruction data yields: exactly one tag byte, 0 through 3.
pub open spec fn parse_instruction_spec(data: Seq<u8>) -> Option<CounterInstruction> {
    if data.len() != 1 {
        None
    } else if data[0] == 0 {
        Some(CounterInstruction::Initialize)
    } else if data[0] == 1 {
        Some(CounterInstruction::Increment)
    } else if data[0] == 2 {
        Some(CounterInstruction::Decrement)
    } else if data[0] == 3 {
        Some(CounterInstruction::Reset)
    } else {
        None
    }
}

/// Parse instruction data.
pub fn parse_instruction(data: &[u8]) -> (r: Option<CounterInstruction>)
    ensures
        r == parse_instruction_spec(data@),
{
    if data.len() != 1 {
        return None;
    }
    let tag = *vstd::slice::slice_index_get(data, 0);
    if tag == 0 {
        Some(CounterInstruction::Initialize)
    } else if tag == 1 {
        Some(CounterInstruction::Increment)
    } else if tag == 2 {
        Some(CounterInstruction::Decrement)
    } else if tag == 3 {
        Some(CounterInstruction::Reset)
    } else {
        None
    }
}

/// An instruction's persisted form.
pub fn serialize_instruction(ins: &CounterInstruction) -> (r: Vec<u8>)
    ensures
        r@ == seq![instruction_tag(*ins)],
{
    let tag: u8 = match ins {
        CounterInstruction::Initialize => 0,
        CounterInstruction::Increment => 1,
        CounterInstruction::Decrement => 2,
        CounterInstruction::Reset => 3,
    };
    let mut r: Vec<u8> = Vec::new();
    r.push(tag);
    proof {
        assert(r@ =~= seq![instruction_tag(*ins)]);
    }
    r
}

/// A counter account's persisted form: the count's two's-complement bits as
/// eight little-endian bytes.
pub open spec fn account_bytes(count: i64) -> Seq<u8> {
    spec_u64_to_le_bytes(count as u64)
}

/// The count a persisted counter account holds.
pub open spec fn account_count(data: Seq<u8>) -> i64 {
    spec_u64_from_le_bytes(data) as i64
}

/// Serialize a counter account.
pub fn serialize_account(a: &CounterAccount) -> (r: Vec<u8>)
    ensures
        r@ == account_bytes(a.count),
        r@.len() == 8,
{
    u64_to_le_bytes(a.count as u64)
}

/// Parse a counter account; any length other than eight is malformed.
pub fn deserialize_account(data: &[u8]) -> (r: Option<CounterAccount>)
    ensures
        match r {
            Some(a) => data@.len() == 8 && a.count == account_count(data@),
            None => data@.len() != 8,
        },
{
    if data.len() != 8 {
        return None;
    }
    Some(CounterAccount { count: u64_from_le_bytes(data) as i64 })
}

/// The seed namespace of the counter account: the bytes of `counter_v2`.
pub open spec fn counter_seed() -> Seq<u8> {
    seq![99u8, 111u8, 117u8, 110u8, 116u8, 101u8, 114u8, 95u8, 118u8, 50u8]
}

/// The derivation of the counter account's address from the program identity.
pub open spec fn counter_derivation(program_id: Seq<u8>) -> Option<(Seq<u8>, u8)> {
    derived_address_of(seq![counter_seed()], program_id)
}

/// The seed list that derives the counter account's address.
pub fn counter_seed_list() -> (r: Vec<Vec<u8>>)
    ensures
        r.deep_view() == seq![counter_seed()],
{
    let seed: Vec<u8> = vec![99u8, 111u8, 117u8, 110u8, 116u8, 101u8, 114u8, 95u8, 118u8, 50u8];
    proof {
        assert(seed@ =~= counter_seed());
    }
    let mut r: Vec<Vec<u8>> = Vec::new();
    r.push(seed);
    proof {
        assert(r.deep_view().len() == 1);
        assert(r.deep_view()[0] == r@[0]@);
        assert(r.deep_view() =~~= seq![counter_seed()]);
    }
    r
}

/// What each operation does to the count. Incrementing past the largest or
/// decrementing past the smallest count is excluded by the callers.
pub open spec fn spec_apply(op: CounterInstruction, count: i64) -> i64 {
    match op {
        CounterInstruction::Initialize => count,
        CounterInstruction::Increment => (count + 1) as i64,
        CounterInstruction::Decrement => (count - 1) as i64,
        CounterInstruction::Reset => 0,
    }
}

/// The inputs on which an operation neither overflows nor underflows the
/// count it finds in the account.
pub open spec fn op_applicable(op: CounterInstruction, data: Seq<u8>) -> bool {
    match op {
        CounterInstruction::Increment => data.len() == 8 ==> account_count(data) < i64::MAX,
        CounterInstruction::Decrement => data.len() == 8 ==> account_count(data) > i64::MIN,
        _ => true,
    }
}

/// What initialization does: verify the derived address, refuse a live
/// account, then create the account at the derived address, funded by the
/// payer to the given reserve, owned by the program, with count zero.
pub open spec fn spec_initialize_counter(
    a: PdaAccountV,
    payer_lamports: u64,
    rent_minimum: u64,
    program_id: Seq<u8>,
) -> (PdaAccountV, u64, Result<(), ProcessorError>) {
    match counter_derivation(program_id) {
        Option::None => (a, payer_lamports, Err(ProcessorError::InvalidSeeds)),
        Option::Some((pda, bump)) => {
            if a.key != pda {
                (a, payer_lamports, Err(ProcessorError::InvalidSeeds))
            } else if a.data.len() > 0 {
                (a, payer_lamports, Err(ProcessorError::AccountAlreadyInitialized))
            } else if payer_lamports < rent_minimum {
                (a, payer_lamports, Err(ProcessorError::AllocationFailed))
            } else {
                (
                    PdaAccountV {
                        owner: program_id,
                        lamports: rent_minimum,
                        data: account_bytes(0),
                        ..a
                    },
                    (payer_lamports - rent_minimum) as u64,
                    Ok(()),
                )
            }
        },
    }
}

/// What increment, decrement and reset do: the security checks — program
/// ownership, writability, derived address — then the operation on the
/// parsed count, written back in place.
pub open spec fn spec_process_operation(
    a: PdaAccountV,
    op: CounterInstruction,
    program_id: Seq<u8>,
) -> (PdaAccountV, Result<(), ProcessorError>) {
    if a.owner != program_id {
        (a, Err(ProcessorError::IncorrectProgramId))
    } else if !a.is_writable {
        (a, Err(ProcessorError::InvalidAccountData))
    } else {
        match counter_derivation(program_id) {
            Option::None => (a, Err(ProcessorError::InvalidSeeds)),
            Option::Some((pda, bump)) => {
                if a.key != pda {
                    (a, Err(ProcessorError::InvalidSeeds))
                } else if a.data.len() != 8 {
                    (a, Err(ProcessorError::InvalidAccountData))
                } else {
                    (
                        PdaAccountV {
                            data: account_bytes(spec_apply(op, account_count(a.data))),
                            ..a
                        },
                        Ok(()),
                    )
                }
            },
        }
    }
}

/// The processor: the program's stateless entry surface, routing each parsed
/// instruction to its handler.
pub struct Processor;

impl Processor {
    /// Dispatch one call: parse the instruction data and route it.
    pub fn process(
        program_id: &Address,
        account: &mut PdaAccount,
        payer_lamports: &mut u64,
        rent_minimum: u64,
        instruction_data: &[u8],
    ) -> (r: Result<(), ProcessorError>)
        requires
            program_id.wf(),
            parse_instruction_spec(instruction_data@) matches Some(op) ==> op_applicable(
                op,
                old(account).data@,
            ),
        ensures
            match parse_instruction_spec(instruction_data@) {
                Option::None => r == Err::<(), ProcessorError>(
                    ProcessorError::InvalidInstructionData,
                ) && final(account)@ == old(account)@ && *final(payer_lamports) == *old(
                    payer_lamports,
                ),
                Option::Some(CounterInstruction::Initialize) => ({
                    let t = spec_initialize_counter(
                        old(account)@,
                        *old(payer_lamports),
                        rent_minimum,
                        program_id@,
                    );
                    final(account)@ == t.0 && *final(payer_lamports) == t.1 && r == t.2
                }),
                Option::Some(op) => ({
                    let t = spec_process_operation(old(account)@, op, program_id@);
                    final(account)@ == t.0 && r == t.1 && *final(payer_lamports) == *old(
                        payer_lamports,
                    )
                }),
            },
    {
        let ins = match parse_instruction(instruction_data) {
            Some(i) => i,
            None => {
                return Err(ProcessorError::InvalidInstructionData);
            },
        };
        match ins {
            CounterInstruction::Initialize => {
                Self::process_initialize(program_id, account, payer_lamports, rent_minimum)
            },
            CounterInstruction::Increment => Self::process_increment(program_id, account),
            CounterInstruction::Decrement => Self::process_decrement(program_id, account),
            CounterInstruction::Reset => Self::process_reset(program_id, account),
        }
    }

    /// Create the counter account at its derived address with count zero.
    pub fn process_initialize(
        program_id: &Address,
        account: &mut PdaAccount,
        payer_lamports: &mut u64,
        rent_minimum: u64,
    ) -> (r: Result<(), ProcessorError>)
        requires
            program_id.wf(),
        ensures
            ({
                let t = spec_initialize_counter(
                    old(account)@,
                    *old(payer_lamports),
                    rent_minimum,
                    program_id@,
                );
                final(account)@ == t.0 && *final(payer_lamports) == t.1 && r == t.2
            }),
    {
        let seeds = counter_seed_list();
        let pda_bump = match find_derived_address(&seeds, program_id) {
            Some(p) => p,
            None => {
                return Err(ProcessorError::InvalidSeeds);
            },
        };
        if !addr_eq(&account.key, &pda_bump.0) {
            return Err(ProcessorError::InvalidSeeds);
        }
        if account.data.len() > 0 {
            return Err(ProcessorError::AccountAlreadyInitialized);
        }
        if *payer_lamports < rent_minimum {
            return Err(ProcessorError::AllocationFailed);
        }
        *payer_lamports = *payer_lamports - rent_minimum;
        account.owner = program_id.duplicate();
        account.lamports = rent_minimum;
        account.data = serialize_account(&CounterAccount { count: 0 });
        Ok(())
    }

    /// The common body of increment, decrement and reset.
    fn process_operation(
        program_id: &Address,
        account: &mut PdaAccount,
        op: CounterInstruction,
    ) -> (r: Result<(), ProcessorError>)
        requires
            program_id.wf(),
            op_applicable(op, old(account).data@),
        ensures
            ({
                let t = spec_process_operation(old(account)@, op, program_id@);
                final(account)@ == t.0 && r == t.1
            }),
    {
        if !addr_eq(&account.owner, program_id) {
            return Err(ProcessorError::IncorrectProgramId);
        }
        if !account.is_writable {
            return Err(ProcessorError::InvalidAccountData);
        }
        let seeds = counter_seed_list();
        let pda_bump = match find_derived_address(&seeds, program_id) {
            Some(p) => p,
            None => {
                return Err(ProcessorError::InvalidSeeds);
            },
        };
        if !addr_eq(&account.key, &pda_bump.0) {
            return Err(ProcessorError::InvalidSeeds);
        }
        let parsed = match deserialize_account(account.data.as_slice()) {
            Some(a) => a,
            None => {
                return Err(ProcessorError::InvalidAccountData);
            },
        };
        let new_count: i64 = match op {
            CounterInstruction::Initialize => parsed.count,
            CounterInstruction::Increment => parsed.count + 1,
            CounterInstruction::Decrement => parsed.count - 1,
            CounterInstruction::Reset => 0,
        };
        account.data = serialize_account(&CounterAccount { count: new_count });
        Ok(())
    }

    /// Add one to the count.
    pub fn process_increment(program_id: &Address, account: &mut PdaAccount) -> (r: Result<
        (),
        ProcessorError,
    >)
        requires
            program_id.wf(),
            op_applicable(CounterInstruction::Increment, old(account).data@),
        ensures
            ({
                let t = spec_process_operation(
                    old(account)@,
                    CounterInstruction::Increment,
                    program_id@,
                );
                final(account)@ == t.0 && r == t.1
            }),
    {
        Self::process_operation(program_id, account, CounterInstruction::Increment)
    }

    /// Take one from the count.
    pub fn process_decrement(program_id: &Address, account: &mut PdaAccount) -> (r: Result<
        (),
        ProcessorError,
    >)
        requires
            program_id.wf(),
            op_applicable(CounterInstruction::Decrement, old(account).data@),
        ensures
            ({
                let t = spec_process_operation(
                    old(account)@,
                    CounterInstruction::Decrement,
                    program_id@,
                );
                final(account)@ == t.0 && r == t.1
            }),
    {
        Self::process_operation(program_id, account, CounterInstruction::Decrement)
    }

    /// Set the count back to zero.
    pub fn process_reset(program_id: &Address, account: &mut PdaAccount) -> (r: Result<
        (),
        ProcessorError,
    >)
        requires
            program_id.wf(),
        ensures
            ({
                let t = spec_process_operation(
                    old(account)@,
                    CounterInstruction::Reset,
                    program_id@,
                );
                final(account)@ == t.0 && r == t.1
            }),
    {
        Self::process_operation(program_id, account, CounterInstruction::Reset)
    }
}

} // verus!
