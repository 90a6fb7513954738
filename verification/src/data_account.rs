//! The minimal data-holder companion program: one account carrying a single
//! 64-bit value, set once at initialization.

use vstd::prelude::*;

verus! {

/// The data-holder's account: a single stored value.
pub struct MyAccount {
    pub data: u64,
}

/// Store the given value in the account.
pub fn initialize(account: &mut MyAccount, data: u64)
    ensures
        final(account).data == data,
{
    account.data = data;
}

} // verus!
