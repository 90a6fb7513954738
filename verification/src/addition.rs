//! The bare addition companion demo: read two unsigned 32-bit numbers from
//! eight little-endian instruction bytes and add them. Too little data is a
//! harmless no-op, as in the demo it models.

use vstd::bytes::{spec_u32_from_le_bytes, u32_from_le_bytes};
use vstd::prelude::*;
use vstd::slice::slice_subrange;

verus! {

/// The first summand the instruction data carries.
pub open spec fn first_operand(data: Seq<u8>) -> u32 {
    spec_u32_from_le_bytes(data.subrange(0, 4))
}

/// The second summand the instruction data carries.
pub open spec fn second_operand(data: Seq<u8>) -> u32 {
    spec_u32_from_le_bytes(data.subrange(4, 8))
}

/// Split eight instruction bytes into two little-endian 32-bit numbers and
/// add them; with fewer than eight bytes there is nothing to do.
pub fn process_instruction(instruction_data: &[u8]) -> (r: Option<u32>)
    requires
        instruction_data@.len() >= 8 ==> instruction_data@.len() == 8,
        instruction_data@.len() == 8 ==> first_operand(instruction_data@) + second_operand(
            instruction_data@,
        ) <= u32::MAX,
    ensures
        match r {
            Some(sum) => instruction_data@.len() == 8 && sum == first_operand(instruction_data@)
                + second_operand(instruction_data@),
            None => instruction_data@.len() < 8,
        },
{
    if instruction_data.len() < 8 {
        return None;
    }
    let a = u32_from_le_bytes(slice_subrange(instruction_data, 0, 4));
    let b = u32_from_le_bytes(slice_subrange(instruction_data, 4, 8));
    Some(a + b)
}

} // verus!
