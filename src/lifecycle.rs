//! The accounts of a call, and the create-if-empty protocol for storage that
//! the program owns: an account that holds no data yet is created at the
//! requested size and funded; one that holds data is left as it is.

use crate::action::{Action, ActionView};
use crate::address::Address;
use vstd::prelude::*;

verus! {

/// An account as the host hands it to the program at the start of a call.
#[derive(Debug)]
pub struct AccountInput {
    pub key: Address,
    pub is_signer: bool,
    pub lamports: u64,
    pub data: Vec<u8>,
}

/// The mathematical value of an account handed to the program.
pub struct AccountInputView {
    pub key: Seq<u8>,
    pub is_signer: bool,
    pub lamports: u64,
    pub data: Seq<u8>,
}

impl View for AccountInput {
    type V = AccountInputView;

    open spec fn view(&self) -> AccountInputView {
        AccountInputView { key: self.key@, is_signer: self.is_signer, lamports: self.lamports, data: self.data@ }
    }
}

/// The views of a list of accounts.
pub open spec fn accounts_view(v: Seq<AccountInput>) -> Seq<AccountInputView> {
    v.map_values(|a: AccountInput| a@)
}

/// What `ensure_exists` requests for an account whose data is `data_len`
/// bytes long: creation where it holds nothing, nothing otherwise.
pub open spec fn ensure_exists_spec(
    payer: Seq<u8>,
    address: Seq<u8>,
    data_len: nat,
    space: u64,
    owner: Seq<u8>,
    seeds: Seq<Seq<u8>>,
) -> Option<ActionView> {
    if data_len == 0 {
        Some(ActionView::CreateAccount { payer, address, space, owner, seeds })
    } else {
        None
    }
}

/// Decides whether `account` must be created before first use: an account
/// with no data is created with `space` bytes owned by `owner`, signed for
/// with `seeds`; an account that holds data is already initialised.
pub fn ensure_exists(
    payer: &Address,
    account: &AccountInput,
    space: u64,
    owner: &Address,
    seeds: Vec<Vec<u8>>,
) -> (r: Option<Action>)
    ensures
        match r {
            Some(a) => ensure_exists_spec(payer@, account.key@, account.data@.len(), space, owner@, seeds.deep_view())
                == Some(a@),
            None => ensure_exists_spec(payer@, account.key@, account.data@.len(), space, owner@, seeds.deep_view())
                is None,
        },
{
    if account.data.len() == 0 {
        Some(Action::CreateAccount { payer: *payer, address: account.key, space, owner: *owner, seeds })
    } else {
        None
    }
}

/// The stored state of an account, as the host keeps it between requests.
pub struct StoredAccount {
    pub data: Seq<u8>,
    pub lamports: nat,
    pub owner: Seq<u8>,
}

/// What the host does to the account at `address` on a request: creating it
/// allocates `space` zeroed bytes, adds the rent-exempt minimum for that size
/// and assigns the owner; no request leaves it as it was.
pub open spec fn host_apply(
    s: StoredAccount,
    address: Seq<u8>,
    req: Option<ActionView>,
    minimum_balance: spec_fn(nat) -> nat,
) -> StoredAccount {
    match req {
        Some(ActionView::CreateAccount { payer, address: a, space, owner, seeds }) => if a == address {
            StoredAccount {
                data: Seq::new(space as nat, |i: int| 0u8),
                lamports: s.lamports + minimum_balance(space as nat),
                owner,
            }
        } else {
            s
        },
        _ => s,
    }
}

/// Asking twice in a row for the same account at the same nonzero size
/// leaves it as the first request left it: the second request creates
/// nothing, funds nothing and resets nothing.
pub proof fn lemma_ensure_exists_idempotent(
    payer: Seq<u8>,
    address: Seq<u8>,
    s: StoredAccount,
    space: u64,
    owner: Seq<u8>,
    seeds: Seq<Seq<u8>>,
    minimum_balance: spec_fn(nat) -> nat,
)
    requires
        space > 0,
    ensures
        ({
            let first = host_apply(
                s,
                address,
                ensure_exists_spec(payer, address, s.data.len(), space, owner, seeds),
                minimum_balance,
            );
            let second_req = ensure_exists_spec(payer, address, first.data.len(), space, owner, seeds);
            &&& second_req is None
            &&& host_apply(first, address, second_req, minimum_balance) == first
        }),
{
}

} // verus!
