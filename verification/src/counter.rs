//! The single-counter companion program: one account holding a 64-bit value
//! as eight little-endian bytes; every call creates the account at zero if it
//! does not exist yet and then increments it.

use vstd::bytes::{spec_u64_from_le_bytes, spec_u64_to_le_bytes, u64_from_le_bytes, u64_to_le_bytes};
use vstd::prelude::*;

verus! {

/// The counter account's data: a single 64-bit value.
pub struct Counter {
    pub value: u64,
}

/// The counter's persisted form: its value as eight little-endian bytes.
pub fn serialize_counter(c: &Counter) -> (r: Vec<u8>)
    ensures
        r@ == spec_u64_to_le_bytes(c.value),
        r@.len() == 8,
{
    u64_to_le_bytes(c.value)
}

/// Parse eight little-endian bytes back into a counter; any other length is
/// malformed.
pub fn deserialize_counter(data: &[u8]) -> (r: Option<Counter>)
    ensures
        match r {
            Some(c) => data@.len() == 8 && c.value == spec_u64_from_le_bytes(data@),
            None => data@.len() != 8,
        },
{
    if data.len() != 8 {
        return None;
    }
    Some(Counter { value: u64_from_le_bytes(data) })
}

/// One step of the counter program, on the account's data: empty data means
/// the account is created at zero first; then the value is incremented and
/// written back. Data of any other length than zero or eight is malformed.
pub fn counter_step(data: &[u8]) -> (r: Option<Vec<u8>>)
    requires
        data@.len() == 8 ==> spec_u64_from_le_bytes(data@) < u64::MAX,
    ensures
        match r {
            Some(out) => {
                &&& (data@.len() == 0 || data@.len() == 8)
                &&& data@.len() == 0 ==> out@ == spec_u64_to_le_bytes(1)
                &&& data@.len() == 8 ==> out@ == spec_u64_to_le_bytes(
                    (spec_u64_from_le_bytes(data@) + 1) as u64,
                )
            },
            None => data@.len() != 0 && data@.len() != 8,
        },
{
    if data.len() == 0 {
        let created = Counter { value: 0 };
        let value = created.value + 1;
        return Some(serialize_counter(&Counter { value }));
    }
    match deserialize_counter(data) {
        Some(c) => {
            let value = c.value + 1;
            Some(serialize_counter(&Counter { value }))
        },
        None => None,
    }
}

} // verus!
