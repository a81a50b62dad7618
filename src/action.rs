//! What a handler asks the host to do. A handler decides everything from the
//! accounts as they stand when the call begins, and returns the ordered list
//! of actions that carry the decision out; the host performs them in order.

use crate::address::Address;
use vstd::prelude::*;

verus! {

/// One request to the host or to the token ledger.
#[derive(Debug)]
pub enum Action {
    /// Create `address` with `space` zeroed bytes, owned by `owner`, funded
    /// by `payer` with the rent-exempt minimum for `space`. A program-derived
    /// address is signed for with `seeds` (its derivation seeds followed by
    /// the bump); an empty list means that the account signs itself.
    CreateAccount { payer: Address, address: Address, space: u64, owner: Address, seeds: Vec<Vec<u8>> },
    /// Create the token mint at `mint` under `token_program`, funded by
    /// `payer` and signed for with `seeds` as above, then initialise it.
    CreateMint {
        payer: Address,
        mint: Address,
        token_program: Address,
        seeds: Vec<Vec<u8>>,
        authority: Address,
        freeze_authority: Option<Address>,
        decimals: u8,
    },
    /// Create `wallet`'s associated token account for `mint`, funded by `payer`.
    CreateAssociatedTokenAccount { payer: Address, address: Address, wallet: Address, mint: Address, token_program: Address },
    /// Move `amount` tokens from `source` to `destination`.
    Transfer { source: Address, destination: Address, authority: Address, amount: u64 },
    /// Mint `amount` new tokens of `mint` into `destination`.
    MintTo { mint: Address, destination: Address, authority: Address, amount: u64 },
    /// Burn `amount` tokens of `mint` held in `account`.
    Burn { account: Address, mint: Address, authority: Address, amount: u64 },
    /// Move `lamports` from `from` to `to`.
    TransferLamports { from: Address, to: Address, lamports: u64 },
    /// Write `data` at the start of the account at `address`.
    WriteData { address: Address, data: Vec<u8> },
}

/// The mathematical value of an action: addresses and byte strings as
/// sequences.
pub enum ActionView {
    CreateAccount { payer: Seq<u8>, address: Seq<u8>, space: u64, owner: Seq<u8>, seeds: Seq<Seq<u8>> },
    CreateMint {
        payer: Seq<u8>,
        mint: Seq<u8>,
        token_program: Seq<u8>,
        seeds: Seq<Seq<u8>>,
        authority: Seq<u8>,
        freeze_authority: Option<Seq<u8>>,
        decimals: u8,
    },
    CreateAssociatedTokenAccount { payer: Seq<u8>, address: Seq<u8>, wallet: Seq<u8>, mint: Seq<u8>, token_program: Seq<u8> },
    Transfer { source: Seq<u8>, destination: Seq<u8>, authority: Seq<u8>, amount: u64 },
    MintTo { mint: Seq<u8>, destination: Seq<u8>, authority: Seq<u8>, amount: u64 },
    Burn { account: Seq<u8>, mint: Seq<u8>, authority: Seq<u8>, amount: u64 },
    TransferLamports { from: Seq<u8>, to: Seq<u8>, lamports: u64 },
    WriteData { address: Seq<u8>, data: Seq<u8> },
}

/// The view of an optional address.
pub open spec fn opt_address_view(a: Option<Address>) -> Option<Seq<u8>> {
    match a {
        Some(x) => Some(x@),
        None => None,
    }
}

impl View for Action {
    type V = ActionView;

    open spec fn view(&self) -> ActionView {
        match self {
            Action::CreateAccount { payer, address, space, owner, seeds } => ActionView::CreateAccount {
                payer: payer@,
                address: address@,
                space: *space,
                owner: owner@,
                seeds: seeds.deep_view(),
            },
            Action::CreateMint { payer, mint, token_program, seeds, authority, freeze_authority, decimals } =>
                ActionView::CreateMint {
                payer: payer@,
                mint: mint@,
                token_program: token_program@,
                seeds: seeds.deep_view(),
                authority: authority@,
                freeze_authority: opt_address_view(*freeze_authority),
                decimals: *decimals,
            },
            Action::CreateAssociatedTokenAccount { payer, address, wallet, mint, token_program } =>
                ActionView::CreateAssociatedTokenAccount {
                payer: payer@,
                address: address@,
                wallet: wallet@,
                mint: mint@,
                token_program: token_program@,
            },
            Action::Transfer { source, destination, authority, amount } => ActionView::Transfer {
                source: source@,
                destination: destination@,
                authority: authority@,
                amount: *amount,
            },
            Action::MintTo { mint, destination, authority, amount } => ActionView::MintTo {
                mint: mint@,
                destination: destination@,
                authority: authority@,
                amount: *amount,
            },
            Action::Burn { account, mint, authority, amount } => ActionView::Burn {
                account: account@,
                mint: mint@,
                authority: authority@,
                amount: *amount,
            },
            Action::TransferLamports { from, to, lamports } => ActionView::TransferLamports {
                from: from@,
                to: to@,
                lamports: *lamports,
            },
            Action::WriteData { address, data } => ActionView::WriteData { address: address@, data: data@ },
        }
    }
}

/// The views of a list of actions.
pub open spec fn actions_view(v: Seq<Action>) -> Seq<ActionView> {
    v.map_values(|a: Action| a@)
}

/// Appends `a` to `plan`.
pub fn push_action(plan: &mut Vec<Action>, a: Action)
    ensures
        actions_view(final(plan)@) == actions_view(old(plan)@).push(a@),
{
    plan.push(a);
    proof {
        assert(actions_view(plan@) =~= actions_view(old(plan)@).push(a@));
    }
}

} // verus!
