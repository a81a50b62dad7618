//! The instruction handlers and the dispatcher.
//!
//! Each handler takes the program id and the call's accounts, in the order
//! fixed for its instruction, and returns either the failure that aborts the
//! call or the ordered list of actions that carry the instruction out. The
//! handlers that check program-derived or associated addresses come in two
//! forms: `process_*` derives those addresses itself, and `*_with` takes them
//! as arguments.

use crate::action::{actions_view, push_action, Action, ActionView};
use crate::address::{
    associated_token_address, associated_token_address_of, derive_address, derived_view, le_bytes, lemma_bytes_deep_view,
    program_address, u64_le_bytes, Address,
};
use crate::instruction::{
    perpetuals_instruction_of, program_instruction_of, vault_instruction_of, DecodeError,
    PerpetualsInstruction, ProgramInstruction, VaultInstruction,
};
use crate::lifecycle::{accounts_view, ensure_exists, AccountInput, AccountInputView};
use crate::position::{i64_bytes, le_u64_at, side_byte, Position, Side, UserPositions};
use crate::registry::{
    add_spec, parse_registry, registry_bytes, registry_len, zeros, CodecError, RegistryView, Vault,
    VaultRegistry, VaultView, INITIAL_CAPACITY, REGISTRY_HEADER_LEN, VAULT_LEN,
};
use crate::token::{is_token_account, TokenHolding};
use vstd::prelude::*;

verus! {

/// Why a call fails. Every failure aborts the whole call.
#[derive(Clone, Copy, Debug, PartialEq, Eq, Structural)]
pub enum ProgramFailure {
    /// The instruction data does not decode.
    InvalidInstruction(DecodeError),
    /// Fewer accounts were passed than the instruction needs.
    NotEnoughAccountKeys,
    /// An account that must sign the call did not.
    MissingRequiredSignature,
    /// A passed account is not at the address derived for its role.
    DerivationMismatch,
    /// No address can be derived from the role's seeds.
    DerivationUnavailable,
    /// An account's data is not what its role requires.
    InvalidAccountData,
    /// A token account is not owned by the caller.
    IllegalOwner,
    /// The registry account holds data that does not decode.
    CorruptRegistry(CodecError),
    /// The registry is full.
    CapacityExceeded,
    /// An existing account is too small for the record written to it.
    AccountDataTooSmall,
    /// A counter would pass its largest value.
    ArithmeticOverflow,
}

/// The value of a handler's result.
pub open spec fn plan_view(r: Result<Vec<Action>, ProgramFailure>) -> Result<Seq<ActionView>, ProgramFailure> {
    match r {
        Ok(v) => Ok(actions_view(v@)),
        Err(e) => Err(e),
    }
}

/// A one-action list where `cond` holds, an empty one otherwise.
pub open spec fn when(cond: bool, a: ActionView) -> Seq<ActionView> {
    if cond {
        seq![a]
    } else {
        Seq::empty()
    }
}

/// Seed of the vault registry's address: `"vault_registry"`.
pub open spec fn registry_seed() -> Seq<u8> {
    seq![118u8, 97, 117, 108, 116, 95, 114, 101, 103, 105, 115, 116, 114, 121]
}

/// Seed of a user's position allocator address: `"user_positions"`.
pub open spec fn user_positions_seed() -> Seq<u8> {
    seq![117u8, 115, 101, 114, 95, 112, 111, 115, 105, 116, 105, 111, 110, 115]
}

/// Seed of a position's address: `"position"`.
pub open spec fn position_seed() -> Seq<u8> {
    seq![112u8, 111, 115, 105, 116, 105, 111, 110]
}

/// Seed of the faucet mint's address: `"mint"`.
pub open spec fn mint_seed() -> Seq<u8> {
    seq![109u8, 105, 110, 116]
}

/// The bytes of `"vault_registry"`.
pub fn registry_seed_bytes() -> (r: Vec<u8>)
    ensures
        r@ == registry_seed(),
{
    let r = vec![118u8, 97, 117, 108, 116, 95, 114, 101, 103, 105, 115, 116, 114, 121];
    proof {
        assert(r@ =~= registry_seed());
    }
    r
}

/// The bytes of `"user_positions"`.
pub fn user_positions_seed_bytes() -> (r: Vec<u8>)
    ensures
        r@ == user_positions_seed(),
{
    let r = vec![117u8, 115, 101, 114, 95, 112, 111, 115, 105, 116, 105, 111, 110, 115];
    proof {
        assert(r@ =~= user_positions_seed());
    }
    r
}

/// The bytes of `"position"`.
pub fn position_seed_bytes() -> (r: Vec<u8>)
    ensures
        r@ == position_seed(),
{
    let r = vec![112u8, 111, 115, 105, 116, 105, 111, 110];
    proof {
        assert(r@ =~= position_seed());
    }
    r
}

/// The bytes of `"mint"`.
pub fn mint_seed_bytes() -> (r: Vec<u8>)
    ensures
        r@ == mint_seed(),
{
    let r = vec![109u8, 105, 110, 116];
    proof {
        assert(r@ =~= mint_seed());
    }
    r
}

/// Seeds of the vault registry's address.
pub open spec fn registry_seeds() -> Seq<Seq<u8>> {
    seq![registry_seed()]
}

/// Seeds of `owner`'s position allocator address.
pub open spec fn user_positions_seeds(owner: Seq<u8>) -> Seq<Seq<u8>> {
    seq![user_positions_seed(), owner]
}

/// Seeds of the address of `owner`'s position number `index`.
pub open spec fn position_seeds(owner: Seq<u8>, index: u64) -> Seq<Seq<u8>> {
    seq![position_seed(), owner, le_bytes(index as nat, 8)]
}

/// Seeds of the faucet mint's address.
pub open spec fn mint_seeds() -> Seq<Seq<u8>> {
    seq![mint_seed()]
}

/// The registry's seeds as byte strings.
pub fn registry_seed_list() -> (r: Vec<Vec<u8>>)
    ensures
        r.deep_view() == registry_seeds(),
{
    let seeds: Vec<Vec<u8>> = vec![registry_seed_bytes()];
    proof {
        lemma_bytes_deep_view(seeds@[0]);
        assert(seeds.deep_view() =~= registry_seeds());
    }
    seeds
}

/// The seeds of `owner`'s position allocator as byte strings.
pub fn user_positions_seed_list(owner: &Address) -> (r: Vec<Vec<u8>>)
    ensures
        r.deep_view() == user_positions_seeds(owner@),
{
    let seeds: Vec<Vec<u8>> = vec![user_positions_seed_bytes(), owner.to_vec()];
    proof {
        lemma_bytes_deep_view(seeds@[0]);
        lemma_bytes_deep_view(seeds@[1]);
        assert(seeds.deep_view() =~= user_positions_seeds(owner@));
    }
    seeds
}

/// The seeds of `owner`'s position number `index` as byte strings.
pub fn position_seed_list(owner: &Address, index: u64) -> (r: Vec<Vec<u8>>)
    ensures
        r.deep_view() == position_seeds(owner@, index),
{
    let seeds: Vec<Vec<u8>> = vec![position_seed_bytes(), owner.to_vec(), u64_le_bytes(index)];
    proof {
        lemma_bytes_deep_view(seeds@[0]);
        lemma_bytes_deep_view(seeds@[1]);
        lemma_bytes_deep_view(seeds@[2]);
        assert(seeds.deep_view() =~= position_seeds(owner@, index));
    }
    seeds
}

/// The faucet mint's seeds as byte strings.
pub fn mint_seed_list() -> (r: Vec<Vec<u8>>)
    ensures
        r.deep_view() == mint_seeds(),
{
    let seeds: Vec<Vec<u8>> = vec![mint_seed_bytes()];
    proof {
        lemma_bytes_deep_view(seeds@[0]);
        assert(seeds.deep_view() =~= mint_seeds());
    }
    seeds
}

/// Derives the vault registry's address under `program_id`.
pub fn registry_address(program_id: &Address) -> (r: Option<(Address, u8)>)
    ensures
        derived_view(r) == program_address(registry_seeds(), program_id@),
{
    derive_address(&registry_seed_list(), program_id)
}

/// Derives the address of `owner`'s position allocator under `program_id`.
pub fn user_positions_address(owner: &Address, program_id: &Address) -> (r: Option<(Address, u8)>)
    ensures
        derived_view(r) == program_address(user_positions_seeds(owner@), program_id@),
{
    derive_address(&user_positions_seed_list(owner), program_id)
}

/// Derives the address of `owner`'s position number `index` under
/// `program_id`.
pub fn position_address(owner: &Address, index: u64, program_id: &Address) -> (r: Option<(Address, u8)>)
    ensures
        derived_view(r) == program_address(position_seeds(owner@, index), program_id@),
{
    derive_address(&position_seed_list(owner, index), program_id)
}

/// Derives the faucet mint's address under `program_id`.
pub fn mint_address(program_id: &Address) -> (r: Option<(Address, u8)>)
    ensures
        derived_view(r) == program_address(mint_seeds(), program_id@),
{
    derive_address(&mint_seed_list(), program_id)
}

/// `seeds` followed by the one-byte bump: what signs for a derived address.
pub open spec fn signer_seeds(seeds: Seq<Seq<u8>>, bump: u8) -> Seq<Seq<u8>> {
    seeds.push(seq![bump])
}

/// What `Withdraw` does. Accounts: vault, user, user's derivative holding,
/// derivative mint. The user's derivative tokens are burnt, then the amount
/// leaves the vault for the user.
pub open spec fn withdraw_spec(a: Seq<AccountInputView>, amount: u64) -> Result<Seq<ActionView>, ProgramFailure> {
    if a.len() < 4 {
        Err(ProgramFailure::NotEnoughAccountKeys)
    } else {
        Ok(
            seq![
                ActionView::Burn { account: a[2].key, mint: a[3].key, authority: a[1].key, amount },
                ActionView::TransferLamports { from: a[0].key, to: a[1].key, lamports: amount },
            ],
        )
    }
}

/// What `BurnRToken` does. Accounts: user's holding, mint, user, the
/// holding that receives the second token. The holding is burnt by the
/// amount, and as much is minted into the receiving holding.
pub open spec fn burn_rtoken_spec(a: Seq<AccountInputView>, amount: u64) -> Result<Seq<ActionView>, ProgramFailure> {
    if a.len() < 4 {
        Err(ProgramFailure::NotEnoughAccountKeys)
    } else {
        Ok(
            seq![
                ActionView::Burn { account: a[0].key, mint: a[1].key, authority: a[2].key, amount },
                ActionView::MintTo { mint: a[1].key, destination: a[3].key, authority: a[2].key, amount },
            ],
        )
    }
}

/// Creation of the faucet mint, signed for with its seeds and `bump`; the
/// payer becomes its mint authority.
pub open spec fn faucet_mint_action(a: Seq<AccountInputView>, bump: u8) -> ActionView {
    ActionView::CreateMint {
        payer: a[0].key,
        mint: a[2].key,
        token_program: a[3].key,
        seeds: signer_seeds(mint_seeds(), bump),
        authority: a[0].key,
        freeze_authority: None,
        decimals: 0,
    }
}

/// Creation of the payer's associated holding of the faucet mint.
pub open spec fn faucet_holding_action(a: Seq<AccountInputView>) -> ActionView {
    ActionView::CreateAssociatedTokenAccount {
        payer: a[0].key,
        address: a[1].key,
        wallet: a[0].key,
        mint: a[2].key,
        token_program: a[3].key,
    }
}

/// What `Faucet` does, given the derived faucet mint and the caller's
/// associated holding for it. Accounts: payer, payer's holding, mint, token
/// program, rent, system program, associated token program. The mint and
/// the holding are created where they are empty, then the amount is minted
/// to the holding with no collateral.
pub open spec fn faucet_spec(
    program: Seq<u8>,
    a: Seq<AccountInputView>,
    amount: u64,
    mint: Option<(Seq<u8>, u8)>,
    holding: Seq<u8>,
) -> Result<Seq<ActionView>, ProgramFailure> {
    if a.len() < 7 {
        Err(ProgramFailure::NotEnoughAccountKeys)
    } else {
        match mint {
            None => Err(ProgramFailure::DerivationUnavailable),
            Some((mint_key, bump)) => if a[2].key != mint_key || a[1].key != holding {
                Err(ProgramFailure::DerivationMismatch)
            } else {
                Ok(
                    when(a[2].data.len() == 0, faucet_mint_action(a, bump)) + when(
                        a[1].data.len() == 0,
                        faucet_holding_action(a),
                    ) + seq![
                        ActionView::MintTo {
                            mint: a[2].key,
                            destination: a[1].key,
                            authority: a[0].key,
                            amount,
                        },
                    ],
                )
            },
        }
    }
}

/// The mint and the owner that token account data declares, where it is
/// the data of an initialised token account.
pub open spec fn token_mint_owner(b: Seq<u8>) -> Option<(Seq<u8>, Seq<u8>)> {
    if is_token_account(b) {
        Some((b.subrange(0, 32), b.subrange(32, 64)))
    } else {
        None
    }
}

/// Creation of the depositor's associated holding of the derivative token.
pub open spec fn deposit_holding_action(a: Seq<AccountInputView>) -> ActionView {
    ActionView::CreateAssociatedTokenAccount {
        payer: a[0].key,
        address: a[5].key,
        wallet: a[0].key,
        mint: a[2].key,
        token_program: a[7].key,
    }
}

/// What `Deposit` does, given the vault's custody address (the program's
/// associated holding of the base mint). Accounts: depositor, base mint,
/// derivative mint, vault custody, depositor's base holding, depositor's
/// derivative holding, rent, token program, system program, associated
/// token program. The depositor must sign and must own a base holding of
/// the base mint; the derivative holding is created where it has no
/// lamports; then the amount moves into custody and as much derivative
/// token is minted to the depositor.
pub open spec fn deposit_spec(
    program: Seq<u8>,
    a: Seq<AccountInputView>,
    amount: u64,
    custody: Seq<u8>,
) -> Result<Seq<ActionView>, ProgramFailure> {
    if a.len() < 10 {
        Err(ProgramFailure::NotEnoughAccountKeys)
    } else if !a[0].is_signer {
        Err(ProgramFailure::MissingRequiredSignature)
    } else if a[3].key != custody {
        Err(ProgramFailure::DerivationMismatch)
    } else {
        match token_mint_owner(a[4].data) {
            None => Err(ProgramFailure::InvalidAccountData),
            Some((mint, owner)) => if mint != a[1].key {
                Err(ProgramFailure::InvalidAccountData)
            } else if owner != a[0].key {
                Err(ProgramFailure::IllegalOwner)
            } else {
                Ok(
                    when(a[5].lamports == 0, deposit_holding_action(a)) + seq![
                        ActionView::Transfer {
                            source: a[4].key,
                            destination: a[3].key,
                            authority: a[0].key,
                            amount,
                        },
                        ActionView::MintTo {
                            mint: a[2].key,
                            destination: a[5].key,
                            authority: a[0].key,
                            amount,
                        },
                    ],
                )
            },
        }
    }
}

/// The vault that `CreateVault` records.
pub open spec fn new_vault_view(a: Seq<AccountInputView>) -> VaultView {
    VaultView {
        vault_account: a[3].key,
        mint_token_a: a[1].key,
        mint_a_token_a: a[2].key,
        owner: a[0].key,
    }
}

/// The registry as `CreateVault` finds it: a new empty one where the
/// registry account holds nothing, the decoded one otherwise.
pub open spec fn stored_registry(a: Seq<AccountInputView>) -> Result<RegistryView, ProgramFailure> {
    if a[7].data.len() == 0 {
        Ok(RegistryView { vaults: Seq::empty(), capacity: INITIAL_CAPACITY as nat })
    } else {
        match parse_registry(a[7].data) {
            Ok(r) => Ok(r),
            Err(e) => Err(ProgramFailure::CorruptRegistry(e)),
        }
    }
}

/// Creation of the derivative mint, which signs for itself; the payer
/// becomes its mint and freeze authority.
pub open spec fn vault_mint_action(a: Seq<AccountInputView>) -> ActionView {
    ActionView::CreateMint {
        payer: a[0].key,
        mint: a[2].key,
        token_program: a[5].key,
        seeds: Seq::empty(),
        authority: a[0].key,
        freeze_authority: Some(a[0].key),
        decimals: 0,
    }
}

/// Creation of the vault's custody: the program's associated holding of the
/// base mint.
pub open spec fn vault_custody_action(program: Seq<u8>, a: Seq<AccountInputView>) -> ActionView {
    ActionView::CreateAssociatedTokenAccount {
        payer: a[0].key,
        address: a[3].key,
        wallet: program,
        mint: a[1].key,
        token_program: a[5].key,
    }
}

/// Creation of the registry account at its initial size, signed for with the
/// registry's seeds and `bump`.
pub open spec fn registry_create_action(program: Seq<u8>, a: Seq<AccountInputView>, bump: u8) -> ActionView {
    ActionView::CreateAccount {
        payer: a[0].key,
        address: a[7].key,
        space: registry_len(INITIAL_CAPACITY as nat) as u64,
        owner: program,
        seeds: signer_seeds(registry_seeds(), bump),
    }
}

/// What `CreateVault` does, given the derived registry address and the
/// vault's custody address. Accounts: payer, base mint, derivative mint,
/// vault custody, rent, token program, system program, registry, associated
/// token program, payer's base holding, the program. The registry account
/// must be at its derived address, the payer must sign and the custody must
/// be at its associated address. The derivative mint, the custody and the
/// registry are created where they are empty; the new vault is appended to
/// the registry, which is written back whole.
pub open spec fn create_vault_spec(
    program: Seq<u8>,
    a: Seq<AccountInputView>,
    registry: Option<(Seq<u8>, u8)>,
    custody: Seq<u8>,
) -> Result<Seq<ActionView>, ProgramFailure> {
    if a.len() < 11 {
        Err(ProgramFailure::NotEnoughAccountKeys)
    } else {
        match registry {
            None => Err(ProgramFailure::DerivationUnavailable),
            Some((registry_key, bump)) => if a[7].key != registry_key {
                Err(ProgramFailure::DerivationMismatch)
            } else if !a[0].is_signer {
                Err(ProgramFailure::MissingRequiredSignature)
            } else if a[3].key != custody {
                Err(ProgramFailure::DerivationMismatch)
            } else {
                match stored_registry(a) {
                    Err(e) => Err(e),
                    Ok(r) => match add_spec(r, new_vault_view(a)) {
                        Err(_) => Err(ProgramFailure::CapacityExceeded),
                        Ok(next) => if a[7].data.len() != 0 && a[7].data.len() < registry_len(next.capacity) {
                            Err(ProgramFailure::AccountDataTooSmall)
                        } else {
                            Ok(
                                when(a[2].data.len() == 0, vault_mint_action(a)) + when(
                                    a[3].data.len() == 0,
                                    vault_custody_action(program, a),
                                ) + when(a[7].data.len() == 0, registry_create_action(program, a, bump))
                                    + seq![ActionView::WriteData { address: a[7].key, data: registry_bytes(next) }],
                            )
                        },
                    },
                }
            },
        }
    }
}

/// The next position index that an allocator account with data `data`
/// holds for `owner`: zero where the account holds nothing; the stored index
/// where it holds an allocator of `owner`.
pub open spec fn allocator_next_index(data: Seq<u8>, owner: Seq<u8>) -> Result<u64, ProgramFailure> {
    if data.len() == 0 {
        Ok(0)
    } else if data.len() < 40 || data.subrange(0, 32) != owner {
        Err(ProgramFailure::InvalidAccountData)
    } else {
        Ok(le_u64_at(data, 32))
    }
}

/// The next position index that `OpenPosition` finds in the caller's
/// allocator account.
pub open spec fn stored_next_index(a: Seq<AccountInputView>) -> Result<u64, ProgramFailure> {
    allocator_next_index(a[1].data, a[0].key)
}

/// The stored form of a newly opened position: owned by `owner`, on `side`,
/// of size `amount`, opened and updated at `now`, every other field zero.
pub open spec fn opened_position_bytes(owner: Seq<u8>, side: Side, amount: u64, now: i64) -> Seq<u8> {
    owner + zeros(32) + zeros(32) + zeros(32) + i64_bytes(now) + i64_bytes(now) + seq![side_byte(side)]
        + le_bytes(0, 8) + le_bytes(amount as nat, 8) + le_bytes(0, 8) + le_bytes(0, 8) + le_bytes(0, 8)
        + le_bytes(0, 8) + le_bytes(0, 16) + le_bytes(0, 8) + le_bytes(0, 8)
}

/// Creation of the caller's allocator account, signed for with its seeds
/// and `bump`.
pub open spec fn allocator_create_action(program: Seq<u8>, a: Seq<AccountInputView>, bump: u8) -> ActionView {
    ActionView::CreateAccount {
        payer: a[0].key,
        address: a[1].key,
        space: 40,
        owner: program,
        seeds: signer_seeds(user_positions_seeds(a[0].key), bump),
    }
}

/// Creation of the collateral custody: the program's associated holding of
/// the collateral mint.
pub open spec fn collateral_custody_action(program: Seq<u8>, a: Seq<AccountInputView>) -> ActionView {
    ActionView::CreateAssociatedTokenAccount {
        payer: a[0].key,
        address: a[4].key,
        wallet: program,
        mint: a[3].key,
        token_program: a[5].key,
    }
}

/// Creation of the account of position `index`, signed for with its seeds
/// and `bump`.
pub open spec fn position_create_action(
    program: Seq<u8>,
    a: Seq<AccountInputView>,
    index: u64,
    bump: u8,
) -> ActionView {
    ActionView::CreateAccount {
        payer: a[0].key,
        address: a[10].key,
        space: 225,
        owner: program,
        seeds: signer_seeds(position_seeds(a[0].key, index), bump),
    }
}

/// What `OpenPosition` does, given the derived allocator address, the
/// collateral custody address and the derived address of the position at
/// the allocator's next index. Accounts: caller, caller's allocator,
/// caller's collateral holding, collateral mint, custody, token program,
/// system program, rent, associated token program, the program, the new
/// position's account. The caller must sign, and the allocator, custody and
/// position accounts must be at their addresses. The allocator, the custody
/// and the position account are created where they are empty; the position
/// is written, the allocator's index goes up by one, and the amount of
/// collateral moves into custody.
pub open spec fn open_position_spec(
    program: Seq<u8>,
    a: Seq<AccountInputView>,
    side: Side,
    amount: u64,
    now: i64,
    allocator: Option<(Seq<u8>, u8)>,
    custody: Seq<u8>,
    position: Option<(Seq<u8>, u8)>,
) -> Result<Seq<ActionView>, ProgramFailure> {
    if a.len() < 11 {
        Err(ProgramFailure::NotEnoughAccountKeys)
    } else if !a[0].is_signer {
        Err(ProgramFailure::MissingRequiredSignature)
    } else {
        match allocator {
            None => Err(ProgramFailure::DerivationUnavailable),
            Some((allocator_key, allocator_bump)) => if a[1].key != allocator_key || a[4].key != custody {
                Err(ProgramFailure::DerivationMismatch)
            } else {
                match stored_next_index(a) {
                    Err(e) => Err(e),
                    Ok(index) => if index == u64::MAX {
                        Err(ProgramFailure::ArithmeticOverflow)
                    } else {
                        match position {
                            None => Err(ProgramFailure::DerivationUnavailable),
                            Some((position_key, position_bump)) => if a[10].key != position_key {
                                Err(ProgramFailure::DerivationMismatch)
                            } else if a[10].data.len() != 0 && a[10].data.len() < 225 {
                                Err(ProgramFailure::AccountDataTooSmall)
                            } else {
                                Ok(
                                    when(a[1].data.len() == 0, allocator_create_action(program, a, allocator_bump))
                                        + when(a[4].data.len() == 0, collateral_custody_action(program, a))
                                        + when(
                                        a[10].data.len() == 0,
                                        position_create_action(program, a, index, position_bump),
                                    ) + seq![
                                        ActionView::WriteData {
                                            address: a[10].key,
                                            data: opened_position_bytes(a[0].key, side, amount, now),
                                        },
                                        ActionView::WriteData {
                                            address: a[1].key,
                                            data: a[0].key + le_bytes((index + 1) as nat, 8),
                                        },
                                        ActionView::Transfer {
                                            source: a[2].key,
                                            destination: a[4].key,
                                            authority: a[0].key,
                                            amount,
                                        },
                                    ],
                                )
                            },
                        }
                    },
                }
            },
        }
    }
}

/// What `OpenPosition` does with the addresses derived under `program`.
pub open spec fn open_position_derived_spec(
    program: Seq<u8>,
    a: Seq<AccountInputView>,
    side: Side,
    amount: u64,
    now: i64,
) -> Result<Seq<ActionView>, ProgramFailure> {
    if a.len() < 11 {
        Err(ProgramFailure::NotEnoughAccountKeys)
    } else {
        open_position_spec(
            program,
            a,
            side,
            amount,
            now,
            program_address(user_positions_seeds(a[0].key), program),
            associated_token_address_of(program, a[3].key),
            match stored_next_index(a) {
                Ok(index) => program_address(position_seeds(a[0].key, index), program),
                Err(_) => None,
            },
        )
    }
}

/// What a vault instruction does with the addresses derived under `program`.
pub open spec fn vaults_spec(program: Seq<u8>, a: Seq<AccountInputView>, ins: VaultInstruction) -> Result<
    Seq<ActionView>,
    ProgramFailure,
> {
    match ins {
        VaultInstruction::CreateVault => if a.len() < 11 {
            Err(ProgramFailure::NotEnoughAccountKeys)
        } else {
            create_vault_spec(
                program,
                a,
                program_address(registry_seeds(), program),
                associated_token_address_of(program, a[1].key),
            )
        },
        VaultInstruction::Deposit { amount } => if a.len() < 10 {
            Err(ProgramFailure::NotEnoughAccountKeys)
        } else {
            deposit_spec(program, a, amount, associated_token_address_of(program, a[1].key))
        },
        VaultInstruction::Withdraw { amount } => withdraw_spec(a, amount),
        VaultInstruction::BurnRToken { amount } => burn_rtoken_spec(a, amount),
        VaultInstruction::Faucet { amount } => if a.len() < 7 {
            Err(ProgramFailure::NotEnoughAccountKeys)
        } else {
            faucet_spec(
                program,
                a,
                amount,
                program_address(mint_seeds(), program),
                associated_token_address_of(a[0].key, a[2].key),
            )
        },
    }
}

/// What a perpetuals instruction does. Only opening a position changes
/// anything; the other instructions are accepted and do nothing yet.
pub open spec fn perpetuals_spec(
    program: Seq<u8>,
    a: Seq<AccountInputView>,
    ins: PerpetualsInstruction,
    now: i64,
) -> Result<Seq<ActionView>, ProgramFailure> {
    match ins {
        PerpetualsInstruction::OpenPosition { side, amount } => open_position_derived_spec(program, a, side, amount, now),
        _ => Ok(Seq::empty()),
    }
}

/// The signing seeds as a list of byte strings.
fn signer_seed_bytes(seeds: Vec<Vec<u8>>, bump: u8) -> (r: Vec<Vec<u8>>)
    ensures
        r.deep_view() == signer_seeds(seeds.deep_view(), bump),
{
    let mut r = seeds;
    let b: Vec<u8> = vec![bump];
    proof {
        assert(b@ =~= seq![bump]);
    }
    r.push(b);
    proof {
        lemma_bytes_deep_view(b);
        assert(r.deep_view() =~= signer_seeds(seeds.deep_view(), bump));
    }
    r
}

/// The processor of both sub-programs.
pub struct Processor;

impl Processor {
    /// Handles `Withdraw`.
    pub fn process_withdraw(accounts: &Vec<AccountInput>, amount: u64) -> (r: Result<Vec<Action>, ProgramFailure>)
        ensures
            plan_view(r) == withdraw_spec(accounts_view(accounts@), amount),
    {
        if accounts.len() < 4 {
            return Err(ProgramFailure::NotEnoughAccountKeys);
        }
        let mut plan: Vec<Action> = Vec::new();
        push_action(
            &mut plan,
            Action::Burn { account: accounts[2].key, mint: accounts[3].key, authority: accounts[1].key, amount },
        );
        push_action(&mut plan, Action::TransferLamports { from: accounts[0].key, to: accounts[1].key, lamports: amount });
        proof {
            assert(actions_view(plan@) =~= withdraw_spec(accounts_view(accounts@), amount)->Ok_0);
        }
        Ok(plan)
    }

    /// Handles `BurnRToken`.
    pub fn process_burn_rtoken(accounts: &Vec<AccountInput>, amount: u64) -> (r: Result<Vec<Action>, ProgramFailure>)
        ensures
            plan_view(r) == burn_rtoken_spec(accounts_view(accounts@), amount),
    {
        if accounts.len() < 4 {
            return Err(ProgramFailure::NotEnoughAccountKeys);
        }
        let mut plan: Vec<Action> = Vec::new();
        push_action(
            &mut plan,
            Action::Burn { account: accounts[0].key, mint: accounts[1].key, authority: accounts[2].key, amount },
        );
        push_action(
            &mut plan,
            Action::MintTo { mint: accounts[1].key, destination: accounts[3].key, authority: accounts[2].key, amount },
        );
        proof {
            assert(actions_view(plan@) =~= burn_rtoken_spec(accounts_view(accounts@), amount)->Ok_0);
        }
        Ok(plan)
    }

    /// Handles `Faucet`, given the derived faucet mint and the caller's
    /// associated holding for it.
    pub fn faucet_with(
        program_id: &Address,
        accounts: &Vec<AccountInput>,
        amount: u64,
        mint: Option<(Address, u8)>,
        holding: &Address,
    ) -> (r: Result<Vec<Action>, ProgramFailure>)
        ensures
            plan_view(r) == faucet_spec(program_id@, accounts_view(accounts@), amount, derived_view(mint), holding@),
    {
        if accounts.len() < 7 {
            return Err(ProgramFailure::NotEnoughAccountKeys);
        }
        let (mint_key, bump) = match mint {
            None => {
                return Err(ProgramFailure::DerivationUnavailable);
            },
            Some(m) => m,
        };
        if accounts[2].key != mint_key || accounts[1].key != *holding {
            return Err(ProgramFailure::DerivationMismatch);
        }
        let payer = accounts[0].key;
        let ghost a = accounts_view(accounts@);
        let mut plan: Vec<Action> = Vec::new();
        if accounts[2].data.len() == 0 {
            push_action(
                &mut plan,
                Action::CreateMint {
                    payer,
                    mint: accounts[2].key,
                    token_program: accounts[3].key,
                    seeds: signer_seed_bytes(mint_seed_list(), bump),
                    authority: payer,
                    freeze_authority: None,
                    decimals: 0,
                },
            );
        }
        proof {
            assert(actions_view(plan@) =~= when(a[2].data.len() == 0, faucet_mint_action(a, bump)));
        }
        let ghost after_mint = actions_view(plan@);
        if accounts[1].data.len() == 0 {
            push_action(
                &mut plan,
                Action::CreateAssociatedTokenAccount {
                    payer,
                    address: accounts[1].key,
                    wallet: payer,
                    mint: accounts[2].key,
                    token_program: accounts[3].key,
                },
            );
        }
        proof {
            assert(actions_view(plan@) =~= after_mint + when(a[1].data.len() == 0, faucet_holding_action(a)));
        }
        push_action(
            &mut plan,
            Action::MintTo { mint: accounts[2].key, destination: accounts[1].key, authority: payer, amount },
        );
        proof {
            let want = faucet_spec(program_id@, a, amount, derived_view(mint), holding@)->Ok_0;
            assert(actions_view(plan@) =~= want);
        }
        Ok(plan)
    }

    /// Handles `Faucet`.
    pub fn process_faucet(program_id: &Address, accounts: &Vec<AccountInput>, amount: u64) -> (r: Result<
        Vec<Action>,
        ProgramFailure,
    >)
        ensures
            accounts@.len() < 7 ==> r == Err::<Vec<Action>, ProgramFailure>(ProgramFailure::NotEnoughAccountKeys),
            accounts@.len() >= 7 ==> plan_view(r) == faucet_spec(
                program_id@,
                accounts_view(accounts@),
                amount,
                program_address(mint_seeds(), program_id@),
                associated_token_address_of(accounts@[0].key@, accounts@[2].key@),
            ),
    {
        if accounts.len() < 7 {
            return Err(ProgramFailure::NotEnoughAccountKeys);
        }
        let mint = mint_address(program_id);
        let holding = associated_token_address(&accounts[0].key, &accounts[2].key);
        Self::faucet_with(program_id, accounts, amount, mint, &holding)
    }
    /// Handles `Deposit`, given the vault's custody address.
    pub fn deposit_with(
        program_id: &Address,
        accounts: &Vec<AccountInput>,
        amount: u64,
        custody: &Address,
    ) -> (r: Result<Vec<Action>, ProgramFailure>)
        ensures
            plan_view(r) == deposit_spec(program_id@, accounts_view(accounts@), amount, custody@),
    {
        if accounts.len() < 10 {
            return Err(ProgramFailure::NotEnoughAccountKeys);
        }
        let ghost a = accounts_view(accounts@);
        let payer = accounts[0].key;
        if !accounts[0].is_signer {
            return Err(ProgramFailure::MissingRequiredSignature);
        }
        if accounts[3].key != *custody {
            return Err(ProgramFailure::DerivationMismatch);
        }
        let holding = match TokenHolding::unpack(&accounts[4].data) {
            None => {
                return Err(ProgramFailure::InvalidAccountData);
            },
            Some(h) => h,
        };
        if holding.mint != accounts[1].key {
            return Err(ProgramFailure::InvalidAccountData);
        }
        if holding.owner != payer {
            return Err(ProgramFailure::IllegalOwner);
        }
        let mut plan: Vec<Action> = Vec::new();
        if accounts[5].lamports == 0 {
            push_action(
                &mut plan,
                Action::CreateAssociatedTokenAccount {
                    payer,
                    address: accounts[5].key,
                    wallet: payer,
                    mint: accounts[2].key,
                    token_program: accounts[7].key,
                },
            );
        }
        proof {
            assert(actions_view(plan@) =~= when(a[5].lamports == 0, deposit_holding_action(a)));
        }
        let ghost before = actions_view(plan@);
        push_action(
            &mut plan,
            Action::Transfer { source: accounts[4].key, destination: accounts[3].key, authority: payer, amount },
        );
        push_action(
            &mut plan,
            Action::MintTo { mint: accounts[2].key, destination: accounts[5].key, authority: payer, amount },
        );
        proof {
            let want = deposit_spec(program_id@, a, amount, custody@)->Ok_0;
            assert(actions_view(plan@) =~= want);
        }
        Ok(plan)
    }

    /// Handles `Deposit`.
    pub fn process_deposit(program_id: &Address, accounts: &Vec<AccountInput>, amount: u64) -> (r: Result<
        Vec<Action>,
        ProgramFailure,
    >)
        ensures
            accounts@.len() < 10 ==> r == Err::<Vec<Action>, ProgramFailure>(ProgramFailure::NotEnoughAccountKeys),
            accounts@.len() >= 10 ==> plan_view(r) == deposit_spec(
                program_id@,
                accounts_view(accounts@),
                amount,
                associated_token_address_of(program_id@, accounts@[1].key@),
            ),
    {
        if accounts.len() < 10 {
            return Err(ProgramFailure::NotEnoughAccountKeys);
        }
        let custody = associated_token_address(program_id, &accounts[1].key);
        Self::deposit_with(program_id, accounts, amount, &custody)
    }

    /// Handles `CreateVault`, given the derived registry address and the
    /// vault's custody address.
    pub fn create_vault_with(
        program_id: &Address,
        accounts: &Vec<AccountInput>,
        registry: Option<(Address, u8)>,
        custody: &Address,
    ) -> (r: Result<Vec<Action>, ProgramFailure>)
        ensures
            plan_view(r) == create_vault_spec(program_id@, accounts_view(accounts@), derived_view(registry), custody@),
    {
        if accounts.len() < 11 {
            return Err(ProgramFailure::NotEnoughAccountKeys);
        }
        let ghost a = accounts_view(accounts@);
        let (registry_key, bump) = match registry {
            None => {
                return Err(ProgramFailure::DerivationUnavailable);
            },
            Some(k) => k,
        };
        if accounts[7].key != registry_key {
            return Err(ProgramFailure::DerivationMismatch);
        }
        let payer = accounts[0].key;
        if !accounts[0].is_signer {
            return Err(ProgramFailure::MissingRequiredSignature);
        }
        if accounts[3].key != *custody {
            return Err(ProgramFailure::DerivationMismatch);
        }
        let fresh = accounts[7].data.len() == 0;
        let mut vault_registry = if fresh {
            VaultRegistry::new()
        } else {
            match VaultRegistry::deserialize(accounts[7].data.as_slice()) {
                Ok(r) => r,
                Err(e) => {
                    return Err(ProgramFailure::CorruptRegistry(e));
                },
            }
        };
        proof {
            if fresh {
                assert(vault_registry@.vaults =~= Seq::<VaultView>::empty());
            }
            assert(stored_registry(a) == Ok::<RegistryView, ProgramFailure>(vault_registry@));
        }
        let new_vault = Vault {
            vault_account: accounts[3].key,
            mint_token_a: accounts[1].key,
            mint_a_token_a: accounts[2].key,
            owner: payer,
        };
        if vault_registry.add_vault(new_vault).is_err() {
            return Err(ProgramFailure::CapacityExceeded);
        }
        let size = vault_registry.len();
        if !fresh && accounts[7].data.len() < size {
            return Err(ProgramFailure::AccountDataTooSmall);
        }
        let data = vault_registry.serialize();
        let mut plan: Vec<Action> = Vec::new();
        if accounts[2].data.len() == 0 {
            let no_seeds: Vec<Vec<u8>> = Vec::new();
            proof {
                assert(no_seeds.deep_view() =~= Seq::<Seq<u8>>::empty());
            }
            push_action(
                &mut plan,
                Action::CreateMint {
                    payer,
                    mint: accounts[2].key,
                    token_program: accounts[5].key,
                    seeds: no_seeds,
                    authority: payer,
                    freeze_authority: Some(payer),
                    decimals: 0,
                },
            );
        }
        proof {
            assert(actions_view(plan@) =~= when(a[2].data.len() == 0, vault_mint_action(a)));
        }
        let ghost after_mint = actions_view(plan@);
        if accounts[3].data.len() == 0 {
            push_action(
                &mut plan,
                Action::CreateAssociatedTokenAccount {
                    payer,
                    address: accounts[3].key,
                    wallet: *program_id,
                    mint: accounts[1].key,
                    token_program: accounts[5].key,
                },
            );
        }
        proof {
            assert(actions_view(plan@) =~= after_mint + when(a[3].data.len() == 0, vault_custody_action(program_id@, a)));
        }
        let ghost after_custody = actions_view(plan@);
        match ensure_exists(
            &payer,
            &accounts[7],
            (REGISTRY_HEADER_LEN + VAULT_LEN * INITIAL_CAPACITY) as u64,
            program_id,
            signer_seed_bytes(registry_seed_list(), bump),
        ) {
            Some(create) => push_action(&mut plan, create),
            None => {},
        }
        proof {
            assert(actions_view(plan@) =~= after_custody + when(
                a[7].data.len() == 0,
                registry_create_action(program_id@, a, bump),
            ));
        }
        push_action(&mut plan, Action::WriteData { address: accounts[7].key, data });
        proof {
            let want = create_vault_spec(program_id@, a, derived_view(registry), custody@)->Ok_0;
            assert(actions_view(plan@) =~= want);
        }
        Ok(plan)
    }

    /// Handles `CreateVault`.
    pub fn process_create_vault(program_id: &Address, accounts: &Vec<AccountInput>) -> (r: Result<
        Vec<Action>,
        ProgramFailure,
    >)
        ensures
            accounts@.len() < 11 ==> r == Err::<Vec<Action>, ProgramFailure>(ProgramFailure::NotEnoughAccountKeys),
            accounts@.len() >= 11 ==> plan_view(r) == create_vault_spec(
                program_id@,
                accounts_view(accounts@),
                program_address(registry_seeds(), program_id@),
                associated_token_address_of(program_id@, accounts@[1].key@),
            ),
    {
        if accounts.len() < 11 {
            return Err(ProgramFailure::NotEnoughAccountKeys);
        }
        let registry = registry_address(program_id);
        let custody = associated_token_address(program_id, &accounts[1].key);
        Self::create_vault_with(program_id, accounts, registry, &custody)
    }
    /// The next position index that `allocator` holds for `owner`.
    pub fn next_position_index(allocator: &AccountInput, owner: &Address) -> (r: Result<u64, ProgramFailure>)
        ensures
            r == allocator_next_index(allocator.data@, owner@),
    {
        let data = &allocator.data;
        if data.len() == 0 {
            return Ok(0);
        }
        let stored = match UserPositions::deserialize(data.as_slice()) {
            Ok(u) => u,
            Err(_) => {
                return Err(ProgramFailure::InvalidAccountData);
            },
        };
        if stored.owner != *owner {
            return Err(ProgramFailure::InvalidAccountData);
        }
        Ok(stored.next_position_idx)
    }

    /// Handles `OpenPosition`, given the derived allocator address, the
    /// collateral custody address and the derived address of the position at
    /// the allocator's next index.
    pub fn open_position_with(
        program_id: &Address,
        accounts: &Vec<AccountInput>,
        side: Side,
        amount: u64,
        now: i64,
        allocator: Option<(Address, u8)>,
        custody: &Address,
        position: Option<(Address, u8)>,
    ) -> (r: Result<Vec<Action>, ProgramFailure>)
        ensures
            plan_view(r) == open_position_spec(
                program_id@,
                accounts_view(accounts@),
                side,
                amount,
                now,
                derived_view(allocator),
                custody@,
                derived_view(position),
            ),
    {
        if accounts.len() < 11 {
            return Err(ProgramFailure::NotEnoughAccountKeys);
        }
        let ghost a = accounts_view(accounts@);
        let payer = accounts[0].key;
        if !accounts[0].is_signer {
            return Err(ProgramFailure::MissingRequiredSignature);
        }
        let (allocator_key, allocator_bump) = match allocator {
            None => {
                return Err(ProgramFailure::DerivationUnavailable);
            },
            Some(k) => k,
        };
        if accounts[1].key != allocator_key || accounts[4].key != *custody {
            return Err(ProgramFailure::DerivationMismatch);
        }
        let index = match Self::next_position_index(&accounts[1], &payer) {
            Ok(i) => i,
            Err(e) => {
                return Err(e);
            },
        };
        if index == u64::MAX {
            return Err(ProgramFailure::ArithmeticOverflow);
        }
        let (position_key, position_bump) = match position {
            None => {
                return Err(ProgramFailure::DerivationUnavailable);
            },
            Some(k) => k,
        };
        if accounts[10].key != position_key {
            return Err(ProgramFailure::DerivationMismatch);
        }
        if accounts[10].data.len() != 0 && accounts[10].data.len() < Position::LEN {
            return Err(ProgramFailure::AccountDataTooSmall);
        }
        let mut plan: Vec<Action> = Vec::new();
        match ensure_exists(
            &payer,
            &accounts[1],
            UserPositions::LEN as u64,
            program_id,
            signer_seed_bytes(user_positions_seed_list(&payer), allocator_bump),
        ) {
            Some(create) => push_action(&mut plan, create),
            None => {},
        }
        proof {
            assert(actions_view(plan@) =~= when(
                a[1].data.len() == 0,
                allocator_create_action(program_id@, a, allocator_bump),
            ));
        }
        let ghost after_allocator = actions_view(plan@);
        if accounts[4].data.len() == 0 {
            push_action(
                &mut plan,
                Action::CreateAssociatedTokenAccount {
                    payer,
                    address: accounts[4].key,
                    wallet: *program_id,
                    mint: accounts[3].key,
                    token_program: accounts[5].key,
                },
            );
        }
        proof {
            assert(actions_view(plan@) =~= after_allocator + when(
                a[4].data.len() == 0,
                collateral_custody_action(program_id@, a),
            ));
        }
        let ghost after_custody = actions_view(plan@);
        match ensure_exists(
            &payer,
            &accounts[10],
            Position::LEN as u64,
            program_id,
            signer_seed_bytes(position_seed_list(&payer, index), position_bump),
        ) {
            Some(create) => push_action(&mut plan, create),
            None => {},
        }
        proof {
            assert(actions_view(plan@) =~= after_custody + when(
                a[10].data.len() == 0,
                position_create_action(program_id@, a, index, position_bump),
            ));
        }
        let mut opened = Position::empty(payer);
        opened.side = side;
        opened.size_usd = amount;
        opened.open_time = now;
        opened.update_time = now;
        let position_data = opened.serialize();
        proof {
            assert(position_data@ =~= opened_position_bytes(payer@, side, amount, now));
        }
        push_action(&mut plan, Action::WriteData { address: accounts[10].key, data: position_data });
        let advanced = UserPositions { owner: payer, next_position_idx: index + 1 };
        push_action(&mut plan, Action::WriteData { address: accounts[1].key, data: advanced.serialize() });
        push_action(
            &mut plan,
            Action::Transfer { source: accounts[2].key, destination: accounts[4].key, authority: payer, amount },
        );
        proof {
            let want = open_position_spec(
                program_id@,
                a,
                side,
                amount,
                now,
                derived_view(allocator),
                custody@,
                derived_view(position),
            )->Ok_0;
            assert(actions_view(plan@) =~= want);
        }
        Ok(plan)
    }

    /// Handles `OpenPosition`.
    pub fn process_open_position(
        program_id: &Address,
        accounts: &Vec<AccountInput>,
        side: Side,
        amount: u64,
        now: i64,
    ) -> (r: Result<Vec<Action>, ProgramFailure>)
        ensures
            plan_view(r) == open_position_derived_spec(program_id@, accounts_view(accounts@), side, amount, now),
    {
        if accounts.len() < 11 {
            return Err(ProgramFailure::NotEnoughAccountKeys);
        }
        let payer = accounts[0].key;
        let allocator = user_positions_address(&payer, program_id);
        let custody = associated_token_address(program_id, &accounts[3].key);
        let position = match Self::next_position_index(&accounts[1], &payer) {
            Ok(index) => position_address(&payer, index, program_id),
            Err(_) => None,
        };
        Self::open_position_with(program_id, accounts, side, amount, now, allocator, &custody, position)
    }

    /// Decodes and handles an instruction of the vaults sub-program.
    pub fn process_vaults(program_id: &Address, accounts: &Vec<AccountInput>, data: &[u8]) -> (r: Result<
        Vec<Action>,
        ProgramFailure,
    >)
        ensures
            match vault_instruction_of(data@) {
                Err(e) => r == Err::<Vec<Action>, ProgramFailure>(ProgramFailure::InvalidInstruction(e)),
                Ok(ins) => plan_view(r) == vaults_spec(program_id@, accounts_view(accounts@), ins),
            },
    {
        let ins = match VaultInstruction::unpack(data) {
            Ok(i) => i,
            Err(e) => {
                return Err(ProgramFailure::InvalidInstruction(e));
            },
        };
        match ins {
            VaultInstruction::CreateVault => Self::process_create_vault(program_id, accounts),
            VaultInstruction::Deposit { amount } => Self::process_deposit(program_id, accounts, amount),
            VaultInstruction::Withdraw { amount } => Self::process_withdraw(accounts, amount),
            VaultInstruction::BurnRToken { amount } => Self::process_burn_rtoken(accounts, amount),
            VaultInstruction::Faucet { amount } => Self::process_faucet(program_id, accounts, amount),
        }
    }

    /// Decodes and handles an instruction of the perpetuals sub-program; `now`
    /// is the current time.
    pub fn process_perpetuals(
        program_id: &Address,
        accounts: &Vec<AccountInput>,
        data: &[u8],
        now: i64,
    ) -> (r: Result<Vec<Action>, ProgramFailure>)
        ensures
            match perpetuals_instruction_of(data@) {
                Err(e) => r == Err::<Vec<Action>, ProgramFailure>(ProgramFailure::InvalidInstruction(e)),
                Ok(ins) => plan_view(r) == perpetuals_spec(program_id@, accounts_view(accounts@), ins, now),
            },
    {
        let ins = match PerpetualsInstruction::unpack(data) {
            Ok(i) => i,
            Err(e) => {
                return Err(ProgramFailure::InvalidInstruction(e));
            },
        };
        match ins {
            PerpetualsInstruction::OpenPosition { side, amount } => Self::process_open_position(
                program_id,
                accounts,
                side,
                amount,
                now,
            ),
            _ => {
                let none: Vec<Action> = Vec::new();
                proof {
                    assert(actions_view(none@) =~= Seq::<ActionView>::empty());
                }
                Ok(none)
            },
        }
    }

    /// Decodes and handles module-tagged instruction data: the first byte
    /// selects the sub-program; `now` is the current time.
    pub fn process(program_id: &Address, accounts: &Vec<AccountInput>, data: &[u8], now: i64) -> (r: Result<
        Vec<Action>,
        ProgramFailure,
    >)
        ensures
            match program_instruction_of(data@) {
                Err(e) => r == Err::<Vec<Action>, ProgramFailure>(ProgramFailure::InvalidInstruction(e)),
                Ok(ProgramInstruction::Vaults(ins)) => plan_view(r) == vaults_spec(
                    program_id@,
                    accounts_view(accounts@),
                    ins,
                ),
                Ok(ProgramInstruction::Perpetuals(ins)) => plan_view(r) == perpetuals_spec(
                    program_id@,
                    accounts_view(accounts@),
                    ins,
                    now,
                ),
            },
    {
        let ins = match ProgramInstruction::unpack(data) {
            Ok(i) => i,
            Err(e) => {
                return Err(ProgramFailure::InvalidInstruction(e));
            },
        };
        match ins {
            ProgramInstruction::Vaults(v) => match v {
                VaultInstruction::CreateVault => Self::process_create_vault(program_id, accounts),
                VaultInstruction::Deposit { amount } => Self::process_deposit(program_id, accounts, amount),
                VaultInstruction::Withdraw { amount } => Self::process_withdraw(accounts, amount),
                VaultInstruction::BurnRToken { amount } => Self::process_burn_rtoken(accounts, amount),
                VaultInstruction::Faucet { amount } => Self::process_faucet(program_id, accounts, amount),
            },
            ProgramInstruction::Perpetuals(p) => match p {
                PerpetualsInstruction::OpenPosition { side, amount } => Self::process_open_position(
                    program_id,
                    accounts,
                    side,
                    amount,
                    now,
                ),
                _ => {
                    let none: Vec<Action> = Vec::new();
                    proof {
                        assert(actions_view(none@) =~= Seq::<ActionView>::empty());
                    }
                    Ok(none)
                },
            },
        }
    }
}

} // verus!
