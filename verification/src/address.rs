//! Identities and deterministic address derivation.
//!
//! An [`Address`] is a 32-byte identity: of a principal, of the program, or of
//! a derived account. Derived addresses are computed by the host chain's
//! derivation search from a sequence of seed byte strings and the program's
//! identity; the search also yields a one-byte nonce (the bump) that must be
//! persisted to re-derive and re-validate the address on later calls.

use vstd::prelude::*;

verus! {

/// A 32-byte identity or account address.
pub struct Address {
    bytes: Vec<u8>,
}

impl View for Address {
    type V = Seq<u8>;

    closed spec fn view(&self) -> Seq<u8> {
        self.bytes@
    }
}

impl Address {
    /// A valid address holds exactly 32 bytes.
    pub open spec fn wf(self) -> bool {
        self@.len() == 32
    }

    pub fn new(bytes: Vec<u8>) -> (r: Address)
        requires
            bytes@.len() == 32,
        ensures
            r@ == bytes@,
            r.wf(),
    {
        Address { bytes }
    }

    pub fn as_bytes(&self) -> (r: &Vec<u8>)
        ensures
            r@ == self@,
    {
        &self.bytes
    }

    /// The address's bytes as an owned copy.
    pub fn to_vec(&self) -> (r: Vec<u8>)
        ensures
            r@ == self@,
    {
        let mut out: Vec<u8> = Vec::new();
        let mut i: usize = 0;
        while i < self.bytes.len()
            invariant
                i <= self.bytes@.len(),
                out@ == self.bytes@.subrange(0, i as int),
            decreases self.bytes@.len() - i,
        {
            out.push(self.bytes[i]);
            i = i + 1;
        }
        proof {
            assert(out@ =~= self.bytes@);
        }
        out
    }

    /// An independent copy of the same address.
    pub fn duplicate(&self) -> (r: Address)
        ensures
            r@ == self@,
    {
        Address { bytes: self.to_vec() }
    }
}

/// True exactly when the two addresses hold the same bytes.
pub fn addr_eq(a: &Address, b: &Address) -> (r: bool)
    ensures
        r == (a@ == b@),
{
    let ab = a.as_bytes();
    let bb = b.as_bytes();
    if ab.len() != bb.len() {
        return false;
    }
    let mut i: usize = 0;
    while i < ab.len()
        invariant
            i <= ab@.len(),
            ab@.len() == bb@.len(),
            ab@ == a@,
            bb@ == b@,
            forall|j: int| 0 <= j < i ==> ab@[j] == bb@[j],
        decreases ab@.len() - i,
    {
        if ab[i] != bb[i] {
            return false;
        }
        i = i + 1;
    }
    proof {
        assert(a@ =~= b@);
    }
    true
}

/// What the host chain's derivation search returns for a seed list and a
/// program identity: a 32-byte address off the signing curve and the bump
/// nonce that produced it, or nothing when no bump works or the seeds break
/// the search's limits. The result depends on the arguments alone.
pub uninterp spec fn derived_address_of(seeds: Seq<Seq<u8>>, program_id: Seq<u8>) -> Option<(Seq<u8>, u8)>;

/// Relies on `solana_program::pubkey::Pubkey::try_find_program_address`: a
/// deterministic search over bump nonces that returns the first derived
/// address not on the signing curve, together with that nonce, and `None`
/// when the seeds exceed the search's limits or no nonce works. Addresses
/// are 32 bytes.
#[verifier::external_body]
pub fn find_derived_address(seeds: &Vec<Vec<u8>>, program_id: &Address) -> (r: Option<(Address, u8)>)
    requires
        program_id.wf(),
    ensures
        match r {
            Some(p) => derived_address_of(seeds.deep_view(), program_id@) == Some((p.0@, p.1))
                && p.0.wf(),
            None => derived_address_of(seeds.deep_view(), program_id@) is None,
        },
{
    let pid = solana_program::pubkey::Pubkey::new_from_array(
        <&[u8] as core::convert::TryInto<[u8; 32]>>::try_into(program_id.bytes.as_slice())
            .unwrap(),
    );
    let seed_slices: Vec<&[u8]> = seeds.iter().map(|s| s.as_slice()).collect();
    solana_program::pubkey::Pubkey::try_find_program_address(&seed_slices, &pid)
        .map(|(addr, bump)| (Address { bytes: addr.to_bytes().to_vec() }, bump))
}

} // verus!
