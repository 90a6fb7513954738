//! The vault: lifecycle and accounting for one program's custodial vaults.
//!
//! Each vault is a pair of records created and destroyed together: a
//! [`VaultState`] metadata record, addressed by derivation from the owner's
//! identity under the metadata seed namespace, and a value-holding account
//! addressed under the holder seed namespace. The metadata's `balance` field
//! mirrors the value the holder carries above its minimum-survival reserve;
//! that mirror is the central invariant, broken at no point outside a single
//! operation's execution.
//!
//! The [`VaultArena`] holds every live vault of one program instance and
//! exposes the four operations — initialize, deposit, withdraw, close — each
//! of which re-derives and re-validates the addresses it was handed before it
//! touches state, and either fully commits or leaves everything unchanged.

use vstd::prelude::*;

use crate::address::{addr_eq, derived_address_of, find_derived_address, Address};

verus! {

/// The failures an operation can surface. Each failing path maps to exactly
/// one entry; none is recovered internally.
#[derive(Clone, Copy, Debug, PartialEq, Eq, Structural)]
pub enum VaultError {
    /// A zero-amount deposit or withdrawal.
    InvalidAmount,
    /// Bookkeeping arithmetic over- or underflow.
    Overflow,
    /// A withdrawal above the bookkeeping balance.
    InsufficientFunds,
    /// Initialization while the derived addresses are already occupied.
    AlreadyInitialized,
    /// Closing with a nonzero bookkeeping balance.
    VaultNotEmpty,
    /// Closing while the holder's raw balance differs from the minimum
    /// reserve: bookkeeping and reality have diverged.
    UnexpectedVaultLamports,
    /// The caller is not the vault's owner where the owner must co-sign.
    Unauthorized,
    /// A handed-in address fails re-derivation, or no address can be derived.
    DerivationMismatch,
    /// The value-transfer primitive refused the move: the source is short or
    /// the destination would overflow.
    TransferFailed,
}

/// The metadata record: ownership and bookkeeping for one vault.
pub struct VaultState {
    /// The controlling principal. Immutable after creation.
    pub owner: Address,
    /// The derived address of the value-holding account. Immutable.
    pub vault: Address,
    /// Derivation nonce of the metadata record's own address.
    pub state_bump: u8,
    /// Derivation nonce of the value holder's address.
    pub vault_bump: u8,
    /// Bookkeeping balance: mirrors the value the holder carries above its
    /// reserve.
    pub balance: u64,
}

/// The value-holding account carries no structured data beyond its raw
/// balance; this marker stands for its (empty) data layout.
pub struct Vault {}

/// One live vault: the metadata record and the raw balances of both accounts.
pub struct VaultEntry {
    /// Where the metadata record itself sits.
    pub state_address: Address,
    /// Raw value units held by the metadata record (its survival reserve).
    pub state_lamports: u64,
    /// The metadata record.
    pub state: VaultState,
    /// Raw value units held by the value holder, reserve included.
    pub vault_lamports: u64,
    /// The holder's minimum-survival reserve, recorded at creation.
    pub vault_reserve: u64,
}

/// Mathematical model of a metadata record.
pub ghost struct VaultStateV {
    pub owner: Seq<u8>,
    pub vault: Seq<u8>,
    pub state_bump: u8,
    pub vault_bump: u8,
    pub balance: u64,
}

/// Mathematical model of one live vault.
pub ghost struct VaultEntryV {
    pub state_address: Seq<u8>,
    pub state_lamports: u64,
    pub state: VaultStateV,
    pub vault_lamports: u64,
    pub vault_reserve: u64,
}

impl View for VaultState {
    type V = VaultStateV;

    open spec fn view(&self) -> VaultStateV {
        VaultStateV {
            owner: self.owner@,
            vault: self.vault@,
            state_bump: self.state_bump,
            vault_bump: self.vault_bump,
            balance: self.balance,
        }
    }
}

impl View for VaultEntry {
    type V = VaultEntryV;

    open spec fn view(&self) -> VaultEntryV {
        VaultEntryV {
            state_address: self.state_address@,
            state_lamports: self.state_lamports,
            state: self.state@,
            vault_lamports: self.vault_lamports,
            vault_reserve: self.vault_reserve,
        }
    }
}

/// The seed namespace of metadata records: the bytes of `vault_state`.
pub open spec fn metadata_seed() -> Seq<u8> {
    seq![118u8, 97u8, 117u8, 108u8, 116u8, 95u8, 115u8, 116u8, 97u8, 116u8, 101u8]
}

/// The seed namespace of value holders: the bytes of `vault`.
pub open spec fn holder_seed() -> Seq<u8> {
    seq![118u8, 97u8, 117u8, 108u8, 116u8]
}

/// The derivation of a vault's metadata address from its owner's identity.
pub open spec fn metadata_derivation(owner: Seq<u8>, program_id: Seq<u8>) -> Option<(Seq<u8>, u8)> {
    derived_address_of(seq![metadata_seed(), owner], program_id)
}

/// The derivation of a vault's holder address from its owner's identity.
pub open spec fn holder_derivation(owner: Seq<u8>, program_id: Seq<u8>) -> Option<(Seq<u8>, u8)> {
    derived_address_of(seq![holder_seed(), owner], program_id)
}

/// Well-formedness of one vault: both addresses re-derive from the owner with
/// the stored nonces, and the holder's raw balance is exactly its reserve
/// plus the bookkeeping balance.
pub open spec fn entry_wf(e: VaultEntryV, program_id: Seq<u8>) -> bool {
    &&& e.state.owner.len() == 32
    &&& e.state.vault.len() == 32
    &&& e.state_address.len() == 32
    &&& metadata_derivation(e.state.owner, program_id) == Some((e.state_address, e.state.state_bump))
    &&& holder_derivation(e.state.owner, program_id) == Some((e.state.vault, e.state.vault_bump))
    &&& e.vault_lamports == e.vault_reserve + e.state.balance
}

/// Well-formedness of the whole arena: every vault well-formed, and no two
/// metadata records at the same address.
pub open spec fn entries_wf(entries: Seq<VaultEntryV>, program_id: Seq<u8>) -> bool {
    &&& forall|i: int| 0 <= i < entries.len() ==> entry_wf(#[trigger] entries[i], program_id)
    &&& forall|i: int, j: int|
        0 <= i < j < entries.len() ==> (#[trigger] entries[i]).state_address != (
        #[trigger] entries[j]).state_address
}

/// The index of the first vault whose metadata sits at `addr`, or -1.
pub open spec fn find_index(entries: Seq<VaultEntryV>, addr: Seq<u8>) -> int
    decreases entries.len(),
{
    if entries.len() == 0 {
        -1
    } else if entries[0].state_address == addr {
        0
    } else {
        let r = find_index(entries.drop_first(), addr);
        if r == -1 {
            -1
        } else {
            r + 1
        }
    }
}

pub proof fn lemma_find_index(entries: Seq<VaultEntryV>, addr: Seq<u8>)
    ensures
        find_index(entries, addr) == -1 ==> forall|i: int|
            0 <= i < entries.len() ==> (#[trigger] entries[i]).state_address != addr,
        find_index(entries, addr) != -1 ==> {
            &&& 0 <= find_index(entries, addr) < entries.len()
            &&& entries[find_index(entries, addr)].state_address == addr
            &&& forall|j: int|
                0 <= j < find_index(entries, addr) ==> (#[trigger] entries[j]).state_address != addr
        },
    decreases entries.len(),
{
    if entries.len() > 0 && entries[0].state_address != addr {
        lemma_find_index(entries.drop_first(), addr);
        assert forall|i: int|
            0 <= i < entries.len() && find_index(entries, addr) == -1 implies (
        #[trigger] entries[i]).state_address != addr by {
            if i > 0 {
                assert(entries.drop_first()[i - 1] == entries[i]);
            }
        }
        if find_index(entries, addr) != -1 {
            let r = find_index(entries.drop_first(), addr);
            assert(entries.drop_first()[r] == entries[r + 1]);
            assert forall|j: int| 0 <= j < r + 1 implies (#[trigger] entries[j]).state_address
                != addr by {
                if j > 0 {
                    assert(entries.drop_first()[j - 1] == entries[j]);
                }
            }
        }
    }
}

/// The first index determines `find_index`: a match at `i` with no match
/// before it pins the result.
pub proof fn lemma_find_index_at(entries: Seq<VaultEntryV>, addr: Seq<u8>, i: int)
    requires
        0 <= i < entries.len(),
        entries[i].state_address == addr,
        forall|j: int| 0 <= j < i ==> (#[trigger] entries[j]).state_address != addr,
    ensures
        find_index(entries, addr) == i,
    decreases entries.len(),
{
    if i > 0 {
        assert(entries[0].state_address != addr);
        assert(entries.drop_first()[i - 1] == entries[i]);
        assert forall|j: int| 0 <= j < i - 1 implies (
        #[trigger] entries.drop_first()[j]).state_address != addr by {
            assert(entries.drop_first()[j] == entries[j + 1]);
        }
        lemma_find_index_at(entries.drop_first(), addr, i - 1);
    }
}

/// The accounts handed to deposit, withdraw and close are valid for a vault
/// when the holder address matches the metadata's cross-reference and both
/// stored addresses re-derive from the stored owner and nonces.
pub open spec fn entry_valid_for(e: VaultEntryV, vault_addr: Seq<u8>, program_id: Seq<u8>) -> bool {
    &&& vault_addr == e.state.vault
    &&& metadata_derivation(e.state.owner, program_id) == Some((e.state_address, e.state.state_bump))
    &&& holder_derivation(e.state.owner, program_id) == Some((e.state.vault, e.state.vault_bump))
}

/// All live vaults of one program instance, keyed by their derived metadata
/// addresses.
pub struct VaultArena {
    /// The program's own identity, one input of every derivation.
    pub program_id: Address,
    /// The live vaults.
    pub entries: Vec<VaultEntry>,
}

impl View for VaultArena {
    type V = Seq<VaultEntryV>;

    open spec fn view(&self) -> Seq<VaultEntryV> {
        self.entries@.map_values(|e: VaultEntry| e@)
    }
}

impl VaultArena {
    pub open spec fn wf(self) -> bool {
        &&& self.program_id@.len() == 32
        &&& entries_wf(self@, self.program_id@)
    }

    /// An arena with no vaults yet.
    pub fn new(program_id: Address) -> (r: VaultArena)
        requires
            program_id.wf(),
        ensures
            r.wf(),
            r@ =~= Seq::<VaultEntryV>::empty(),
            r.program_id@ == program_id@,
    {
        VaultArena { program_id, entries: Vec::new() }
    }

    /// Number of live vaults.
    pub fn len(&self) -> (r: usize)
        ensures
            r == self@.len(),
    {
        self.entries.len()
    }

    /// A read-only look at the vault at `idx`.
    pub fn entry_at(&self, idx: usize) -> (r: &VaultEntry)
        requires
            idx < self@.len(),
        ensures
            r@ == self@[idx as int],
    {
        &self.entries[idx]
    }

    /// Find the vault whose metadata sits at `state_address`.
    fn lookup(&self, state_address: &Address) -> (r: Option<usize>)
        ensures
            match r {
                Some(i) => i == find_index(self@, state_address@) && i < self@.len(),
                None => find_index(self@, state_address@) == -1,
            },
    {
        let mut i: usize = 0;
        while i < self.entries.len()
            invariant
                i <= self@.len(),
                forall|j: int| 0 <= j < i ==> (#[trigger] self@[j]).state_address != state_address@,
            decreases self@.len() - i,
        {
            if addr_eq(&self.entries[i].state_address, state_address) {
                proof {
                    lemma_find_index_at(self@, state_address@, i as int);
                }
                return Some(i);
            }
            i = i + 1;
        }
        proof {
            lemma_find_index(self@, state_address@);
        }
        None
    }

    /// Re-derive both of a vault's addresses and hold them, with the handed-in
    /// holder address, against what the metadata stores.
    fn validate_entry(&self, idx: usize, vault_address: &Address) -> (r: bool)
        requires
            self.wf(),
            idx < self@.len(),
        ensures
            r == entry_valid_for(self@[idx as int], vault_address@, self.program_id@),
    {
        let e = &self.entries[idx];
        if !addr_eq(vault_address, &e.state.vault) {
            return false;
        }
        let m_seeds = metadata_seeds(&e.state.owner);
        match find_derived_address(&m_seeds, &self.program_id) {
            Some(p) => {
                if !(addr_eq(&p.0, &e.state_address) && p.1 == e.state.state_bump) {
                    return false;
                }
            },
            None => {
                return false;
            },
        }
        let h_seeds = holder_seeds(&e.state.owner);
        match find_derived_address(&h_seeds, &self.program_id) {
            Some(p) => {
                if !(addr_eq(&p.0, &e.state.vault) && p.1 == e.state.vault_bump) {
                    return false;
                }
            },
            None => {
                return false;
            },
        }
        true
    }
}

/// The metadata seed namespace as bytes.
pub fn metadata_seed_bytes() -> (r: Vec<u8>)
    ensures
        r@ == metadata_seed(),
{
    let r: Vec<u8> = vec![118u8, 97u8, 117u8, 108u8, 116u8, 95u8, 115u8, 116u8, 97u8, 116u8, 101u8];
    proof {
        assert(r@ =~= metadata_seed());
    }
    r
}

/// The holder seed namespace as bytes.
pub fn holder_seed_bytes() -> (r: Vec<u8>)
    ensures
        r@ == holder_seed(),
{
    let r: Vec<u8> = vec![118u8, 97u8, 117u8, 108u8, 116u8];
    proof {
        assert(r@ =~= holder_seed());
    }
    r
}

/// The seed list that derives an owner's metadata address.
pub fn metadata_seeds(owner: &Address) -> (r: Vec<Vec<u8>>)
    ensures
        r.deep_view() == seq![metadata_seed(), owner@],
{
    let mut r: Vec<Vec<u8>> = Vec::new();
    r.push(metadata_seed_bytes());
    r.push(owner.to_vec());
    proof {
        assert(r.deep_view().len() == 2);
        assert(r.deep_view()[0] == r@[0]@);
        assert(r.deep_view()[1] == r@[1]@);
        assert(r.deep_view() =~~= seq![metadata_seed(), owner@]);
    }
    r
}

/// The seed list that derives an owner's holder address.
pub fn holder_seeds(owner: &Address) -> (r: Vec<Vec<u8>>)
    ensures
        r.deep_view() == seq![holder_seed(), owner@],
{
    let mut r: Vec<Vec<u8>> = Vec::new();
    r.push(holder_seed_bytes());
    r.push(owner.to_vec());
    proof {
        assert(r.deep_view().len() == 2);
        assert(r.deep_view()[0] == r@[0]@);
        assert(r.deep_view()[1] == r@[1]@);
        assert(r.deep_view() =~~= seq![holder_seed(), owner@]);
    }
    r
}

/// Somebody already sits at one of the derived addresses: allocation of a new
/// pair there must fail.
pub open spec fn addresses_occupied(entries: Seq<VaultEntryV>, sa: Seq<u8>, va: Seq<u8>) -> bool {
    exists|i: int|
        0 <= i < entries.len() && ((#[trigger] entries[i]).state_address == sa
            || entries[i].state.vault == va)
}

/// A vault after a deposit of `amount`: bookkeeping and the holder's raw
/// balance both grow by `amount`.
pub open spec fn deposit_applied(e: VaultEntryV, amount: u64) -> VaultEntryV {
    VaultEntryV {
        state: VaultStateV { balance: (e.state.balance + amount) as u64, ..e.state },
        vault_lamports: (e.vault_lamports + amount) as u64,
        ..e
    }
}

/// A vault after a withdrawal of `amount`: bookkeeping and the holder's raw
/// balance both shrink by `amount`.
pub open spec fn withdraw_applied(e: VaultEntryV, amount: u64) -> VaultEntryV {
    VaultEntryV {
        state: VaultStateV { balance: (e.state.balance - amount) as u64, ..e.state },
        vault_lamports: (e.vault_lamports - amount) as u64,
        ..e
    }
}

/// The vault created by initialization: zero bookkeeping balance, the holder
/// funded to exactly its reserve.
pub open spec fn initialized_entry(
    owner: Seq<u8>,
    sa: Seq<u8>,
    sb: u8,
    va: Seq<u8>,
    vb: u8,
    state_reserve: u64,
    vault_reserve: u64,
) -> VaultEntryV {
    VaultEntryV {
        state_address: sa,
        state_lamports: state_reserve,
        state: VaultStateV { owner, vault: va, state_bump: sb, vault_bump: vb, balance: 0 },
        vault_lamports: vault_reserve,
        vault_reserve,
    }
}

/// What initialization does: derive both addresses from the owner, refuse if
/// either is occupied, debit the owner both survival reserves, and create the
/// pair atomically with balance zero.
pub open spec fn spec_initialize(
    entries: Seq<VaultEntryV>,
    owner: Seq<u8>,
    owner_lamports: u64,
    state_reserve: u64,
    vault_reserve: u64,
    program_id: Seq<u8>,
) -> (Seq<VaultEntryV>, u64, Result<(), VaultError>) {
    match metadata_derivation(owner, program_id) {
        Option::None => (entries, owner_lamports, Err(VaultError::DerivationMismatch)),
        Option::Some((sa, sb)) => match holder_derivation(owner, program_id) {
            Option::None => (entries, owner_lamports, Err(VaultError::DerivationMismatch)),
            Option::Some((va, vb)) => {
                if addresses_occupied(entries, sa, va) {
                    (entries, owner_lamports, Err(VaultError::AlreadyInitialized))
                } else if owner_lamports < state_reserve + vault_reserve {
                    (entries, owner_lamports, Err(VaultError::TransferFailed))
                } else {
                    (
                        entries.push(
                            initialized_entry(owner, sa, sb, va, vb, state_reserve, vault_reserve),
                        ),
                        (owner_lamports - state_reserve - vault_reserve) as u64,
                        Ok(()),
                    )
                }
            },
        },
    }
}

/// What a deposit does: validate the handed-in addresses, refuse a zero
/// amount, attempt the transfer from the caller to the holder, and only then
/// check the bookkeeping increment, committing all or nothing.
pub open spec fn spec_deposit(
    entries: Seq<VaultEntryV>,
    state_addr: Seq<u8>,
    vault_addr: Seq<u8>,
    caller_lamports: u64,
    amount: u64,
    program_id: Seq<u8>,
) -> (Seq<VaultEntryV>, u64, Result<(), VaultError>) {
    let i = find_index(entries, state_addr);
    if i == -1 {
        (entries, caller_lamports, Err(VaultError::DerivationMismatch))
    } else {
        let e = entries[i];
        if !entry_valid_for(e, vault_addr, program_id) {
            (entries, caller_lamports, Err(VaultError::DerivationMismatch))
        } else if amount == 0 {
            (entries, caller_lamports, Err(VaultError::InvalidAmount))
        } else if caller_lamports < amount || e.vault_lamports + amount > u64::MAX {
            (entries, caller_lamports, Err(VaultError::TransferFailed))
        } else if e.state.balance + amount > u64::MAX {
            (entries, caller_lamports, Err(VaultError::Overflow))
        } else {
            (
                entries.update(i, deposit_applied(e, amount)),
                (caller_lamports - amount) as u64,
                Ok(()),
            )
        }
    }
}

/// What a withdrawal does: validate the addresses, demand the owner's
/// co-signature, refuse a zero amount, check sufficiency before any transfer,
/// then move value from the holder to the owner and decrement bookkeeping.
pub open spec fn spec_withdraw(
    entries: Seq<VaultEntryV>,
    state_addr: Seq<u8>,
    vault_addr: Seq<u8>,
    caller: Seq<u8>,
    caller_lamports: u64,
    amount: u64,
    program_id: Seq<u8>,
) -> (Seq<VaultEntryV>, u64, Result<(), VaultError>) {
    let i = find_index(entries, state_addr);
    if i == -1 {
        (entries, caller_lamports, Err(VaultError::DerivationMismatch))
    } else {
        let e = entries[i];
        if !entry_valid_for(e, vault_addr, program_id) {
            (entries, caller_lamports, Err(VaultError::DerivationMismatch))
        } else if caller != e.state.owner {
            (entries, caller_lamports, Err(VaultError::Unauthorized))
        } else if amount == 0 {
            (entries, caller_lamports, Err(VaultError::InvalidAmount))
        } else if e.state.balance < amount {
            (entries, caller_lamports, Err(VaultError::InsufficientFunds))
        } else if e.vault_lamports < amount || caller_lamports + amount > u64::MAX {
            (entries, caller_lamports, Err(VaultError::TransferFailed))
        } else {
            (
                entries.update(i, withdraw_applied(e, amount)),
                (caller_lamports + amount) as u64,
                Ok(()),
            )
        }
    }
}

/// What closing does: validate the addresses, demand the owner's co-signature,
/// demand zero bookkeeping balance and a holder raw balance of exactly the
/// minimum reserve, then destroy both records and return every reserve unit
/// to the owner.
pub open spec fn spec_close(
    entries: Seq<VaultEntryV>,
    state_addr: Seq<u8>,
    vault_addr: Seq<u8>,
    caller: Seq<u8>,
    minimum_reserve: u64,
    caller_lamports: u64,
    program_id: Seq<u8>,
) -> (Seq<VaultEntryV>, u64, Result<(), VaultError>) {
    let i = find_index(entries, state_addr);
    if i == -1 {
        (entries, caller_lamports, Err(VaultError::DerivationMismatch))
    } else {
        let e = entries[i];
        if !entry_valid_for(e, vault_addr, program_id) {
            (entries, caller_lamports, Err(VaultError::DerivationMismatch))
        } else if caller != e.state.owner {
            (entries, caller_lamports, Err(VaultError::Unauthorized))
        } else if e.state.balance != 0 {
            (entries, caller_lamports, Err(VaultError::VaultNotEmpty))
        } else if e.vault_lamports != minimum_reserve {
            (entries, caller_lamports, Err(VaultError::UnexpectedVaultLamports))
        } else if caller_lamports + e.vault_lamports + e.state_lamports > u64::MAX {
            (entries, caller_lamports, Err(VaultError::TransferFailed))
        } else {
            (
                entries.remove(i),
                (caller_lamports + e.vault_lamports + e.state_lamports) as u64,
                Ok(()),
            )
        }
    }
}

impl VaultArena {
    /// Is any live vault already using one of these derived addresses?
    fn any_occupied(&self, sa: &Address, va: &Address) -> (r: bool)
        ensures
            r == addresses_occupied(self@, sa@, va@),
    {
        let mut i: usize = 0;
        while i < self.entries.len()
            invariant
                i <= self@.len(),
                forall|j: int|
                    0 <= j < i ==> (#[trigger] self@[j]).state_address != sa@ && self@[j].state.vault
                        != va@,
            decreases self@.len() - i,
        {
            if addr_eq(&self.entries[i].state_address, sa) || addr_eq(&self.entries[i].state.vault, va) {
                assert(self@[i as int].state_address == sa@ || self@[i as int].state.vault == va@);
                return true;
            }
            i = i + 1;
        }
        false
    }

    /// Create a new vault for `owner`, who co-signs and funds both survival
    /// reserves: the metadata record and the value holder come into being
    /// together, at their derived addresses, with bookkeeping balance zero.
    ///
    /// Re-invocation for a live vault fails with `AlreadyInitialized` before
    /// any mutation, since allocation fails on an occupied address.
    pub fn initialize_vault(
        &mut self,
        owner: &Address,
        state_reserve: u64,
        vault_reserve: u64,
        owner_lamports: &mut u64,
    ) -> (r: Result<(), VaultError>)
        requires
            old(self).wf(),
            owner.wf(),
        ensures
            final(self).wf(),
            final(self).program_id@ == old(self).program_id@,
            ({
                let t = spec_initialize(
                    old(self)@,
                    owner@,
                    *old(owner_lamports),
                    state_reserve,
                    vault_reserve,
                    old(self).program_id@,
                );
                final(self)@ == t.0 && *final(owner_lamports) == t.1 && r == t.2
            }),
            r is Err ==> final(self)@ == old(self)@ && *final(owner_lamports) == *old(owner_lamports),
            (metadata_derivation(owner@, old(self).program_id@) matches Some(m)
                && holder_derivation(owner@, old(self).program_id@) matches Some(h)
                && addresses_occupied(old(self)@, m.0, h.0)) ==> r == Err::<(), VaultError>(
                VaultError::AlreadyInitialized,
            ),
    {
        let m_seeds = metadata_seeds(owner);
        let sa_sb = match find_derived_address(&m_seeds, &self.program_id) {
            Some(p) => p,
            None => {
                return Err(VaultError::DerivationMismatch);
            },
        };
        let h_seeds = holder_seeds(owner);
        let va_vb = match find_derived_address(&h_seeds, &self.program_id) {
            Some(p) => p,
            None => {
                return Err(VaultError::DerivationMismatch);
            },
        };
        let (sa, sb) = sa_sb;
        let (va, vb) = va_vb;
        if self.any_occupied(&sa, &va) {
            return Err(VaultError::AlreadyInitialized);
        }
        if *owner_lamports < state_reserve || *owner_lamports - state_reserve < vault_reserve {
            return Err(VaultError::TransferFailed);
        }
        *owner_lamports = *owner_lamports - state_reserve - vault_reserve;
        let entry = VaultEntry {
            state_address: sa,
            state_lamports: state_reserve,
            state: VaultState {
                owner: owner.duplicate(),
                vault: va,
                state_bump: sb,
                vault_bump: vb,
                balance: 0,
            },
            vault_lamports: vault_reserve,
            vault_reserve,
        };
        self.entries.push(entry);
        proof {
            let ghost t = spec_initialize(
                old(self)@,
                owner@,
                *old(owner_lamports),
                state_reserve,
                vault_reserve,
                old(self).program_id@,
            );
            assert(self@ =~= t.0);
            lemma_entries_wf_push(
                old(self)@,
                self.program_id@,
                self@[old(self)@.len() as int],
            );
        }
        Ok(())
    }

    /// Deposit `amount` value units from the caller — any identity, deposits
    /// are owner-agnostic — into the vault's holder, and increment the
    /// bookkeeping balance by the same amount.
    ///
    /// A zero amount is refused before anything else; the bookkeeping
    /// increment is checked only after the transfer itself has been attempted;
    /// on any failure nothing changes.
    pub fn deposit(
        &mut self,
        state_address: &Address,
        vault_address: &Address,
        caller_lamports: &mut u64,
        amount: u64,
    ) -> (r: Result<(), VaultError>)
        requires
            old(self).wf(),
        ensures
            final(self).wf(),
            final(self).program_id@ == old(self).program_id@,
            ({
                let t = spec_deposit(
                    old(self)@,
                    state_address@,
                    vault_address@,
                    *old(caller_lamports),
                    amount,
                    old(self).program_id@,
                );
                final(self)@ == t.0 && *final(caller_lamports) == t.1 && r == t.2
            }),
            r is Err ==> final(self)@ == old(self)@ && *final(caller_lamports) == *old(caller_lamports),
            ({
                let i = find_index(old(self)@, state_address@);
                (i != -1 && entry_valid_for(old(self)@[i], vault_address@, old(self).program_id@)
                    && amount == 0) ==> r == Err::<(), VaultError>(VaultError::InvalidAmount)
            }),
    {
        let idx = match self.lookup(state_address) {
            Some(i) => i,
            None => {
                return Err(VaultError::DerivationMismatch);
            },
        };
        if !self.validate_entry(idx, vault_address) {
            return Err(VaultError::DerivationMismatch);
        }
        if amount == 0 {
            return Err(VaultError::InvalidAmount);
        }
        let vl = self.entries[idx].vault_lamports;
        let bal = self.entries[idx].state.balance;
        if *caller_lamports < amount || vl > u64::MAX - amount {
            return Err(VaultError::TransferFailed);
        }
        if bal > u64::MAX - amount {
            return Err(VaultError::Overflow);
        }
        *caller_lamports = *caller_lamports - amount;
        let e = &self.entries[idx];
        let updated = VaultEntry {
            state_address: e.state_address.duplicate(),
            state_lamports: e.state_lamports,
            state: VaultState {
                owner: e.state.owner.duplicate(),
                vault: e.state.vault.duplicate(),
                state_bump: e.state.state_bump,
                vault_bump: e.state.vault_bump,
                balance: bal + amount,
            },
            vault_lamports: vl + amount,
            vault_reserve: e.vault_reserve,
        };
        self.entries[idx] = updated;
        proof {
            let ghost i = idx as int;
            assert(self@ =~= old(self)@.update(i, deposit_applied(old(self)@[i], amount)));
            lemma_entries_wf_update(
                old(self)@,
                self.program_id@,
                i,
                deposit_applied(old(self)@[i], amount),
            );
        }
        Ok(())
    }

    /// Withdraw `amount` value units from the vault's holder to the owner,
    /// who must co-sign, and decrement the bookkeeping balance by the same
    /// amount. Sufficiency is checked before any transfer is attempted.
    pub fn withdraw(
        &mut self,
        state_address: &Address,
        vault_address: &Address,
        caller: &Address,
        caller_lamports: &mut u64,
        amount: u64,
    ) -> (r: Result<(), VaultError>)
        requires
            old(self).wf(),
        ensures
            final(self).wf(),
            final(self).program_id@ == old(self).program_id@,
            ({
                let t = spec_withdraw(
                    old(self)@,
                    state_address@,
                    vault_address@,
                    caller@,
                    *old(caller_lamports),
                    amount,
                    old(self).program_id@,
                );
                final(self)@ == t.0 && *final(caller_lamports) == t.1 && r == t.2
            }),
            r is Err ==> final(self)@ == old(self)@ && *final(caller_lamports) == *old(caller_lamports),
            ({
                let i = find_index(old(self)@, state_address@);
                (i != -1 && entry_valid_for(old(self)@[i], vault_address@, old(self).program_id@)
                    && caller@ == old(self)@[i].state.owner && amount != 0
                    && old(self)@[i].state.balance < amount) ==> r == Err::<(), VaultError>(
                    VaultError::InsufficientFunds,
                )
            }),
    {
        let idx = match self.lookup(state_address) {
            Some(i) => i,
            None => {
                return Err(VaultError::DerivationMismatch);
            },
        };
        if !self.validate_entry(idx, vault_address) {
            return Err(VaultError::DerivationMismatch);
        }
        if !addr_eq(caller, &self.entries[idx].state.owner) {
            return Err(VaultError::Unauthorized);
        }
        if amount == 0 {
            return Err(VaultError::InvalidAmount);
        }
        let vl = self.entries[idx].vault_lamports;
        let bal = self.entries[idx].state.balance;
        if bal < amount {
            return Err(VaultError::InsufficientFunds);
        }
        if vl < amount || *caller_lamports > u64::MAX - amount {
            return Err(VaultError::TransferFailed);
        }
        *caller_lamports = *caller_lamports + amount;
        let e = &self.entries[idx];
        let updated = VaultEntry {
            state_address: e.state_address.duplicate(),
            state_lamports: e.state_lamports,
            state: VaultState {
                owner: e.state.owner.duplicate(),
                vault: e.state.vault.duplicate(),
                state_bump: e.state.state_bump,
                vault_bump: e.state.vault_bump,
                balance: bal - amount,
            },
            vault_lamports: vl - amount,
            vault_reserve: e.vault_reserve,
        };
        self.entries[idx] = updated;
        proof {
            let ghost i = idx as int;
            assert(self@ =~= old(self)@.update(i, withdraw_applied(old(self)@[i], amount)));
            lemma_entries_wf_update(
                old(self)@,
                self.program_id@,
                i,
                withdraw_applied(old(self)@[i], amount),
            );
        }
        Ok(())
    }

    /// Destroy a vault: only with the owner's co-signature, only with zero
    /// bookkeeping balance, and only when the holder's raw balance equals
    /// exactly the minimum-survival reserve — a divergence blocks closure
    /// rather than being silently reconciled. Both records vanish together
    /// and every reserve unit returns to the owner.
    pub fn close_vault(
        &mut self,
        state_address: &Address,
        vault_address: &Address,
        caller: &Address,
        minimum_reserve: u64,
        caller_lamports: &mut u64,
    ) -> (r: Result<(), VaultError>)
        requires
            old(self).wf(),
        ensures
            final(self).wf(),
            final(self).program_id@ == old(self).program_id@,
            ({
                let t = spec_close(
                    old(self)@,
                    state_address@,
                    vault_address@,
                    caller@,
                    minimum_reserve,
                    *old(caller_lamports),
                    old(self).program_id@,
                );
                final(self)@ == t.0 && *final(caller_lamports) == t.1 && r == t.2
            }),
            r is Err ==> final(self)@ == old(self)@ && *final(caller_lamports) == *old(caller_lamports),
            ({
                let i = find_index(old(self)@, state_address@);
                r is Ok <==> (i != -1 && entry_valid_for(
                    old(self)@[i],
                    vault_address@,
                    old(self).program_id@,
                ) && caller@ == old(self)@[i].state.owner && old(self)@[i].state.balance == 0
                    && old(self)@[i].vault_lamports == minimum_reserve && *old(caller_lamports)
                    + old(self)@[i].vault_lamports + old(self)@[i].state_lamports <= u64::MAX)
            }),
    {
        let idx = match self.lookup(state_address) {
            Some(i) => i,
            None => {
                return Err(VaultError::DerivationMismatch);
            },
        };
        if !self.validate_entry(idx, vault_address) {
            return Err(VaultError::DerivationMismatch);
        }
        if !addr_eq(caller, &self.entries[idx].state.owner) {
            return Err(VaultError::Unauthorized);
        }
        if self.entries[idx].state.balance != 0 {
            return Err(VaultError::VaultNotEmpty);
        }
        let vl = self.entries[idx].vault_lamports;
        let sl = self.entries[idx].state_lamports;
        if vl != minimum_reserve {
            return Err(VaultError::UnexpectedVaultLamports);
        }
        if sl > u64::MAX - vl || *caller_lamports > u64::MAX - (vl + sl) {
            return Err(VaultError::TransferFailed);
        }
        let _removed = self.entries.remove(idx);
        *caller_lamports = *caller_lamports + vl + sl;
        proof {
            let ghost i = idx as int;
            assert(self@ =~= old(self)@.remove(i));
            lemma_entries_wf_remove(old(self)@, self.program_id@, i);
        }
        Ok(())
    }
}

/// Updating one vault in place, without touching its addresses, preserves
/// arena well-formedness whenever the updated vault is itself well-formed.
pub proof fn lemma_entries_wf_update(
    entries: Seq<VaultEntryV>,
    program_id: Seq<u8>,
    i: int,
    e2: VaultEntryV,
)
    requires
        entries_wf(entries, program_id),
        0 <= i < entries.len(),
        entry_wf(e2, program_id),
        e2.state_address == entries[i].state_address,
    ensures
        entries_wf(entries.update(i, e2), program_id),
{
}

/// Appending a well-formed vault at a fresh metadata address preserves arena
/// well-formedness.
pub proof fn lemma_entries_wf_push(entries: Seq<VaultEntryV>, program_id: Seq<u8>, e2: VaultEntryV)
    requires
        entries_wf(entries, program_id),
        entry_wf(e2, program_id),
        forall|k: int|
            0 <= k < entries.len() ==> (#[trigger] entries[k]).state_address != e2.state_address,
    ensures
        entries_wf(entries.push(e2), program_id),
{
    let es = entries.push(e2);
    assert forall|i: int| 0 <= i < es.len() implies entry_wf(#[trigger] es[i], program_id) by {
        if i < entries.len() {
            assert(es[i] == entries[i]);
        }
    }
}

/// Removing a vault preserves arena well-formedness.
pub proof fn lemma_entries_wf_remove(entries: Seq<VaultEntryV>, program_id: Seq<u8>, i: int)
    requires
        entries_wf(entries, program_id),
        0 <= i < entries.len(),
    ensures
        entries_wf(entries.remove(i), program_id),
{
    let es = entries.remove(i);
    assert forall|k: int| 0 <= k < es.len() implies entry_wf(#[trigger] es[k], program_id) by {
        if k < i {
            assert(es[k] == entries[k]);
        } else {
            assert(es[k] == entries[k + 1]);
        }
    }
    assert forall|k: int, l: int| 0 <= k < l < es.len() implies (#[trigger] es[k]).state_address
        != (#[trigger] es[l]).state_address by {
        if k < i {
            assert(es[k] == entries[k]);
        } else {
            assert(es[k] == entries[k + 1]);
        }
        if l < i {
            assert(es[l] == entries[l]);
        } else {
            assert(es[l] == entries[l + 1]);
        }
    }
}

/// Replacing a vault with one at the same metadata address does not move any
/// lookup.
pub proof fn lemma_find_index_update(
    entries: Seq<VaultEntryV>,
    addr: Seq<u8>,
    i: int,
    e2: VaultEntryV,
)
    requires
        0 <= i < entries.len(),
        e2.state_address == entries[i].state_address,
    ensures
        find_index(entries.update(i, e2), addr) == find_index(entries, addr),
    decreases entries.len(),
{
    let es = entries.update(i, e2);
    if i == 0 {
        if entries[0].state_address != addr {
            assert(es.drop_first() =~= entries.drop_first());
        }
    } else {
        assert(es[0] == entries[0]);
        if entries[0].state_address != addr {
            assert(es.drop_first() =~= entries.drop_first().update(i - 1, e2));
            lemma_find_index_update(entries.drop_first(), addr, i - 1, e2);
        }
    }
}

/// Depositing then withdrawing the same amount, by the vault's owner, always
/// succeeds and returns the vault — bookkeeping balance and the holder's raw
/// balance alike — to exactly its pre-sequence state.
pub proof fn lemma_deposit_withdraw_round_trip(
    entries: Seq<VaultEntryV>,
    state_addr: Seq<u8>,
    vault_addr: Seq<u8>,
    caller_lamports: u64,
    owner_lamports: u64,
    amount: u64,
    program_id: Seq<u8>,
)
    requires
        entries_wf(entries, program_id),
        spec_deposit(entries, state_addr, vault_addr, caller_lamports, amount, program_id).2
            is Ok,
        owner_lamports + amount <= u64::MAX,
    ensures
        ({
            let d = spec_deposit(entries, state_addr, vault_addr, caller_lamports, amount, program_id);
            let i = find_index(entries, state_addr);
            let w = spec_withdraw(
                d.0,
                state_addr,
                vault_addr,
                entries[i].state.owner,
                owner_lamports,
                amount,
                program_id,
            );
            &&& w.2 == Ok::<(), VaultError>(())
            &&& w.0 =~= entries
            &&& w.1 == owner_lamports + amount
        }),
{
    let d = spec_deposit(entries, state_addr, vault_addr, caller_lamports, amount, program_id);
    let i = find_index(entries, state_addr);
    lemma_find_index(entries, state_addr);
    let e = entries[i];
    let e2 = deposit_applied(e, amount);
    lemma_find_index_update(entries, state_addr, i, e2);
    assert(find_index(d.0, state_addr) == i);
    assert(d.0[i] == e2);
    assert(entry_valid_for(e2, vault_addr, program_id));
    let w = spec_withdraw(
        d.0,
        state_addr,
        vault_addr,
        entries[i].state.owner,
        owner_lamports,
        amount,
        program_id,
    );
    assert(withdraw_applied(e2, amount) == e);
    assert(w.0 =~= entries);
}

/// Initialization is idempotent-safe: once a vault exists for an owner, any
/// further initialization for the same owner fails with `AlreadyInitialized`
/// and changes nothing — whatever reserves or funds the second call brings.
pub proof fn lemma_initialize_idempotent_safe(
    entries: Seq<VaultEntryV>,
    owner: Seq<u8>,
    owner_lamports: u64,
    state_reserve: u64,
    vault_reserve: u64,
    owner_lamports2: u64,
    state_reserve2: u64,
    vault_reserve2: u64,
    program_id: Seq<u8>,
)
    requires
        spec_initialize(entries, owner, owner_lamports, state_reserve, vault_reserve, program_id).2
            is Ok,
    ensures
        ({
            let f = spec_initialize(
                entries,
                owner,
                owner_lamports,
                state_reserve,
                vault_reserve,
                program_id,
            );
            let g = spec_initialize(
                f.0,
                owner,
                owner_lamports2,
                state_reserve2,
                vault_reserve2,
                program_id,
            );
            &&& g.2 == Err::<(), VaultError>(VaultError::AlreadyInitialized)
            &&& g.0 == f.0
            &&& g.1 == owner_lamports2
        }),
{
    let f = spec_initialize(entries, owner, owner_lamports, state_reserve, vault_reserve, program_id);
    let sa = metadata_derivation(owner, program_id)->Some_0.0;
    let n = entries.len() as int;
    assert(f.0[n].state_address == sa);
    assert(addresses_occupied(f.0, sa, holder_derivation(owner, program_id)->Some_0.0));
}

} // verus!
