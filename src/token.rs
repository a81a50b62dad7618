//! Reading token accounts of the token ledger.

use crate::address::{le_value, Address};
use solana_program::program_pack::Pack;
use vstd::prelude::*;

verus! {

/// What the program reads of a token account: its mint, its owner and the
/// balance it holds.
#[derive(Clone, Copy, Debug)]
pub struct TokenHolding {
    pub mint: Address,
    pub owner: Address,
    pub amount: u64,
}

/// The four-byte tag of an optional field at `b[at..at + 4]` is `0` (absent)
/// or `1` (present), little-endian.
pub open spec fn option_tag_ok(b: Seq<u8>, at: int) -> bool {
    &&& b[at] == 0 || b[at] == 1
    &&& b[at + 1] == 0
    &&& b[at + 2] == 0
    &&& b[at + 3] == 0
}

/// `b` is the data of an initialised token account: 165 bytes, valid tags
/// for the delegate, native-amount and close-authority options, and a state
/// byte of initialised (1) or frozen (2).
pub open spec fn is_token_account(b: Seq<u8>) -> bool {
    &&& b.len() == 165
    &&& option_tag_ok(b, 72)
    &&& b[108] == 1 || b[108] == 2
    &&& option_tag_ok(b, 109)
    &&& option_tag_ok(b, 129)
}

/// Relies on `spl_token::state::Account::unpack` (the `Pack` impl of
/// spl-token): it accepts exactly the data of an initialised account, and
/// reads the mint at bytes 0..32, the owner at 32..64 and the balance
/// little-endian at 64..72.
#[verifier::external_body]
fn unpack_token_account(data: &Vec<u8>) -> (r: Option<TokenHolding>)
    ensures
        r is Some <==> is_token_account(data@),
        r matches Some(h) ==> h.mint@ == data@.subrange(0, 32) && h.owner@ == data@.subrange(32, 64)
            && h.amount as nat == le_value(data@.subrange(64, 72)),
{
    spl_token::state::Account::unpack(data).ok().map(
        |a| TokenHolding {
            mint: Address { bytes: a.mint.to_bytes() },
            owner: Address { bytes: a.owner.to_bytes() },
            amount: a.amount,
        },
    )
}

impl TokenHolding {
    /// Reads the data of a token account; `None` where it is not the data of
    /// an initialised account.
    pub fn unpack(data: &Vec<u8>) -> (r: Option<TokenHolding>)
        ensures
            r is Some <==> is_token_account(data@),
            r matches Some(h) ==> h.mint@ == data@.subrange(0, 32) && h.owner@ == data@.subrange(32, 64)
                && h.amount as nat == le_value(data@.subrange(64, 72)),
    {
        unpack_token_account(data)
    }
}

} // verus!
