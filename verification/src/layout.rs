//! The persisted layout of a metadata record: a fixed discriminator prefix,
//! the owner's and the holder's 32-byte addresses, the two derivation nonces,
//! and the bookkeeping balance as eight little-endian bytes — 82 bytes in all.
//! Serialization and parsing invert each other exactly.

use vstd::bytes::{
    lemma_auto_spec_u64_to_from_le_bytes, spec_u64_from_le_bytes, spec_u64_to_le_bytes,
    u64_from_le_bytes, u64_to_le_bytes,
};
use vstd::prelude::*;
use vstd::slice::{slice_subrange, slice_to_vec};

use crate::address::Address;
use crate::vault::{VaultState, VaultStateV};

verus! {

/// A metadata record occupies 82 bytes: 8 discriminator + 32 owner + 32
/// holder address + 2 nonces + 8 balance.
pub const VAULT_STATE_SPACE: usize = 82;

/// The fixed prefix that tags serialized metadata records.
pub open spec fn state_discriminator() -> Seq<u8> {
    seq![86u8, 97u8, 117u8, 108u8, 116u8, 83u8, 116u8, 97u8]
}

/// The serialized form of a metadata record.
pub open spec fn vault_state_bytes(s: VaultStateV) -> Seq<u8> {
    state_discriminator() + s.owner + s.vault + seq![s.state_bump, s.vault_bump]
        + spec_u64_to_le_bytes(s.balance)
}

/// What parsing a byte string as a metadata record yields.
pub open spec fn vault_state_parse(data: Seq<u8>) -> Option<VaultStateV> {
    if data.len() == 82 && data.subrange(0, 8) == state_discriminator() {
        Some(
            VaultStateV {
                owner: data.subrange(8, 40),
                vault: data.subrange(40, 72),
                state_bump: data[72],
                vault_bump: data[73],
                balance: spec_u64_from_le_bytes(data.subrange(74, 82)),
            },
        )
    } else {
        None
    }
}

/// True exactly when the two byte strings are equal.
fn bytes_eq(a: &[u8], b: &[u8]) -> (r: bool)
    ensures
        r == (a@ == b@),
{
    if a.len() != b.len() {
        return false;
    }
    let mut i: usize = 0;
    while i < a.len()
        invariant
            i <= a@.len(),
            a@.len() == b@.len(),
            forall|j: int| 0 <= j < i ==> a@[j] == b@[j],
        decreases a@.len() - i,
    {
        if a[i] != b[i] {
            return false;
        }
        i = i + 1;
    }
    proof {
        assert(a@ =~= b@);
    }
    true
}

/// Serialize a metadata record into its persisted 82-byte layout.
pub fn serialize_vault_state(s: &VaultState) -> (r: Vec<u8>)
    requires
        s.owner.wf(),
        s.vault.wf(),
    ensures
        r@ == vault_state_bytes(s@),
        r@.len() == 82,
{
    let mut r: Vec<u8> = vec![86u8, 97u8, 117u8, 108u8, 116u8, 83u8, 116u8, 97u8];
    proof {
        assert(r@ =~= state_discriminator());
    }
    let mut owner_bytes = s.owner.to_vec();
    r.append(&mut owner_bytes);
    let mut vault_bytes = s.vault.to_vec();
    r.append(&mut vault_bytes);
    r.push(s.state_bump);
    r.push(s.vault_bump);
    let mut balance_bytes = u64_to_le_bytes(s.balance);
    r.append(&mut balance_bytes);
    proof {
        assert(r@ =~= vault_state_bytes(s@));
    }
    r
}

/// Parse a persisted 82-byte layout back into a metadata record.
pub fn deserialize_vault_state(data: &[u8]) -> (r: Option<VaultState>)
    ensures
        match r {
            Some(s) => vault_state_parse(data@) == Some(s@) && s.owner.wf() && s.vault.wf(),
            None => vault_state_parse(data@) is None,
        },
{
    if data.len() != 82 {
        return None;
    }
    let disc = slice_subrange(data, 0, 8);
    let expected: Vec<u8> = vec![86u8, 97u8, 117u8, 108u8, 116u8, 83u8, 116u8, 97u8];
    proof {
        assert(expected@ =~= state_discriminator());
    }
    if !bytes_eq(disc, expected.as_slice()) {
        return None;
    }
    let owner = Address::new(slice_to_vec(slice_subrange(data, 8, 40)));
    let vault = Address::new(slice_to_vec(slice_subrange(data, 40, 72)));
    let state_bump = *vstd::slice::slice_index_get(data, 72);
    let vault_bump = *vstd::slice::slice_index_get(data, 73);
    let balance = u64_from_le_bytes(slice_subrange(data, 74, 82));
    Some(VaultState { owner, vault, state_bump, vault_bump, balance })
}

/// Serialization then parsing returns exactly the record that was written.
pub proof fn lemma_vault_state_round_trip(s: VaultStateV)
    requires
        s.owner.len() == 32,
        s.vault.len() == 32,
    ensures
        vault_state_parse(vault_state_bytes(s)) == Some(s),
{
    lemma_auto_spec_u64_to_from_le_bytes();
    let data = vault_state_bytes(s);
    assert(data.len() == 82);
    assert(data.subrange(0, 8) =~= state_discriminator());
    assert(data.subrange(8, 40) =~= s.owner);
    assert(data.subrange(40, 72) =~= s.vault);
    assert(data[72] == s.state_bump);
    assert(data[73] == s.vault_bump);
    assert(data.subrange(74, 82) =~= spec_u64_to_le_bytes(s.balance));
}

} // verus!
