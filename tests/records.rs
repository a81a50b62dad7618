use rugsafe::address::{associated_token_address, derive_address, Address};
use rugsafe::position::{Position, Side, UserPositions};
use rugsafe::processor::{mint_address, position_address, registry_address, user_positions_address};
use rugsafe::registry::CodecError;
use rugsafe::token::TokenHolding;
use solana_program::program_option::COption;
use solana_program::program_pack::Pack;
use solana_program::pubkey::Pubkey;

fn addr(b: u8) -> Address {
    Address::new([b; 32])
}

fn sample_position() -> Position {
    Position {
        owner: addr(1),
        pool: addr(2),
        custody: addr(3),
        collateral_custody: addr(4),
        open_time: -5,
        update_time: 1_700_000_000,
        side: Side::Short,
        price: 10,
        size_usd: 20,
        borrow_size_usd: 30,
        collateral_usd: 40,
        unrealized_profit_usd: 50,
        unrealized_loss_usd: 60,
        cumulative_interest_snapshot: u128::MAX - 1,
        locked_amount: 70,
        collateral_amount: u64::MAX,
    }
}

#[test]
fn position_encoding_matches_borsh() {
    let p = sample_position();
    let expected = borsh::to_vec(&(
        [1u8; 32],
        [2u8; 32],
        [3u8; 32],
        [4u8; 32],
        -5i64,
        1_700_000_000i64,
        2u8,
        10u64,
        20u64,
        30u64,
        40u64,
        50u64,
        60u64,
        u128::MAX - 1,
        70u64,
        u64::MAX,
    ))
    .unwrap();
    let bytes = p.serialize();
    assert_eq!(bytes.len(), Position::LEN);
    assert_eq!(bytes, expected);
}

#[test]
fn position_round_trip() {
    let p = sample_position();
    let mut bytes = p.serialize();
    bytes.extend_from_slice(&[9u8; 8]);
    let q = Position::deserialize(&bytes).unwrap();
    assert_eq!(q.owner, p.owner);
    assert_eq!(q.collateral_custody, p.collateral_custody);
    assert_eq!(q.open_time, -5);
    assert_eq!(q.update_time, 1_700_000_000);
    assert_eq!(q.side, Side::Short);
    assert_eq!(q.size_usd, 20);
    assert_eq!(q.cumulative_interest_snapshot, u128::MAX - 1);
    assert_eq!(q.collateral_amount, u64::MAX);
}

#[test]
fn position_decode_errors() {
    assert_eq!(Position::deserialize(&[0u8; 224]).unwrap_err(), CodecError::TooShort);
    let mut bytes = sample_position().serialize();
    bytes[144] = 3;
    assert_eq!(Position::deserialize(&bytes).unwrap_err(), CodecError::CorruptState);
}

#[test]
fn empty_position_is_all_zero_but_owner() {
    let p = Position::empty(addr(7));
    let bytes = p.serialize();
    assert_eq!(&bytes[0..32], &[7u8; 32][..]);
    assert!(bytes[32..].iter().all(|&b| b == 0));
}

#[test]
fn user_positions_encoding_matches_borsh() {
    let u = UserPositions { owner: addr(8), next_position_idx: 0x0102 };
    let bytes = u.serialize();
    assert_eq!(bytes, borsh::to_vec(&([8u8; 32], 0x0102u64)).unwrap());
    assert_eq!(bytes.len(), UserPositions::LEN);
    let back = UserPositions::deserialize(&bytes).unwrap();
    assert_eq!(back.owner, addr(8));
    assert_eq!(back.next_position_idx, 0x0102);
    assert_eq!(UserPositions::deserialize(&bytes[..39]).unwrap_err(), CodecError::TooShort);
}

#[test]
fn derivation_matches_solana() {
    let program = Pubkey::new_from_array([42u8; 32]);
    let pid = Address::new(program.to_bytes());
    let (key, bump) = Pubkey::find_program_address(&[b"vault_registry"], &program);
    let (ours, our_bump) = registry_address(&pid).unwrap();
    assert_eq!(ours.bytes, key.to_bytes());
    assert_eq!(our_bump, bump);

    let (key, bump) = Pubkey::find_program_address(&[b"mint"], &program);
    let (ours, our_bump) = mint_address(&pid).unwrap();
    assert_eq!(ours.bytes, key.to_bytes());
    assert_eq!(our_bump, bump);

    let owner = [5u8; 32];
    let (key, _) = Pubkey::find_program_address(&[b"user_positions", &owner], &program);
    assert_eq!(user_positions_address(&Address::new(owner), &pid).unwrap().0.bytes, key.to_bytes());

    let (key, _) = Pubkey::find_program_address(&[b"position", &owner, &3u64.to_le_bytes()], &program);
    assert_eq!(position_address(&Address::new(owner), 3, &pid).unwrap().0.bytes, key.to_bytes());
}

#[test]
fn derivation_is_deterministic_and_seed_sensitive() {
    let pid = addr(42);
    let seeds = vec![b"vault_registry".to_vec()];
    let first = derive_address(&seeds, &pid).unwrap();
    let second = derive_address(&seeds, &pid).unwrap();
    assert_eq!(first.0, second.0);
    assert_eq!(first.1, second.1);
    let changed = vec![b"vault_registrz".to_vec()];
    assert_ne!(derive_address(&changed, &pid).unwrap().0, first.0);
    assert_ne!(first.0, pid);
}

#[test]
fn derivation_refuses_too_many_seeds() {
    let seeds: Vec<Vec<u8>> = (0..16u8).map(|i| vec![i]).collect();
    assert!(derive_address(&seeds, &addr(1)).is_none());
    let long = vec![vec![0u8; 33]];
    assert!(derive_address(&long, &addr(1)).is_none());
}

#[test]
fn associated_address_matches_spl() {
    let wallet = addr(11);
    let mint = addr(12);
    let expected = spl_associated_token_account::get_associated_token_address(
        &Pubkey::new_from_array(wallet.bytes),
        &Pubkey::new_from_array(mint.bytes),
    );
    let ours = associated_token_address(&wallet, &mint);
    assert_eq!(ours.bytes, expected.to_bytes());
    assert_ne!(ours, wallet);
}

fn token_account_data(mint: [u8; 32], owner: [u8; 32], amount: u64) -> Vec<u8> {
    let acc = spl_token::state::Account {
        mint: Pubkey::new_from_array(mint),
        owner: Pubkey::new_from_array(owner),
        amount,
        delegate: COption::None,
        state: spl_token::state::AccountState::Initialized,
        is_native: COption::None,
        delegated_amount: 0,
        close_authority: COption::None,
    };
    let mut data = vec![0u8; spl_token::state::Account::LEN];
    spl_token::state::Account::pack(acc, &mut data).unwrap();
    data
}

#[test]
fn token_holding_reads_spl_account() {
    let data = token_account_data([3u8; 32], [4u8; 32], 101);
    let h = TokenHolding::unpack(&data).unwrap();
    assert_eq!(h.mint, addr(3));
    assert_eq!(h.owner, addr(4));
    assert_eq!(h.amount, 101);
}

#[test]
fn token_holding_refuses_bad_data() {
    assert!(TokenHolding::unpack(&vec![0u8; 165]).is_none());
    let mut data = token_account_data([3u8; 32], [4u8; 32], 1);
    data.push(0);
    assert!(TokenHolding::unpack(&data).is_none());
    let mut data = token_account_data([3u8; 32], [4u8; 32], 1);
    data[72] = 2;
    assert!(TokenHolding::unpack(&data).is_none());
}
