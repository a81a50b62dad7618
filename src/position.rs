//! Leveraged positions and the per-user position index allocator.
//!
//! Each position lives in an account of its own, at the address derived from
//! its owner and its index; the owner's `UserPositions` account holds the
//! next index to hand out. Both records are stored in a fixed layout: fields
//! in declaration order, integers little-endian, the side as one byte.

use crate::address::{
    le_bytes, le_value, lemma_le_bytes_len, lemma_le_round_trip, lemma_le_value_bound,
    lemma_radix_values, push_le, push_u64, read_le, read_u64, Address,
};
use crate::registry::CodecError;
use vstd::prelude::*;

verus! {

/// The direction of a position.
#[derive(Clone, Copy, Debug, PartialEq, Eq, Structural)]
pub enum Side {
    Neutral,
    Long,
    Short,
}

impl Default for Side {
    fn default() -> (r: Side)
        ensures
            r == Side::Neutral,
    {
        Side::Neutral
    }
}

/// The byte that stands for a side.
pub open spec fn side_byte(s: Side) -> u8 {
    match s {
        Side::Neutral => 0,
        Side::Long => 1,
        Side::Short => 2,
    }
}

/// The side that a byte stands for, if any.
pub open spec fn side_of(b: u8) -> Option<Side> {
    if b == 0 {
        Some(Side::Neutral)
    } else if b == 1 {
        Some(Side::Long)
    } else if b == 2 {
        Some(Side::Short)
    } else {
        None
    }
}

/// One open position.
#[derive(Clone, Copy, Debug)]
pub struct Position {
    pub owner: Address,
    pub pool: Address,
    pub custody: Address,
    pub collateral_custody: Address,
    pub open_time: i64,
    pub update_time: i64,
    pub side: Side,
    pub price: u64,
    pub size_usd: u64,
    pub borrow_size_usd: u64,
    pub collateral_usd: u64,
    pub unrealized_profit_usd: u64,
    pub unrealized_loss_usd: u64,
    pub cumulative_interest_snapshot: u128,
    pub locked_amount: u64,
    pub collateral_amount: u64,
}

/// The eight bytes of a signed timestamp, in two's complement.
pub open spec fn i64_bytes(v: i64) -> Seq<u8> {
    le_bytes((v as u64) as nat, 8)
}

/// The stored form of a position.
pub open spec fn position_bytes(p: Position) -> Seq<u8> {
    p.owner@ + p.pool@ + p.custody@ + p.collateral_custody@ + i64_bytes(p.open_time) + i64_bytes(
        p.update_time,
    ) + seq![side_byte(p.side)] + le_bytes(p.price as nat, 8) + le_bytes(p.size_usd as nat, 8)
        + le_bytes(p.borrow_size_usd as nat, 8) + le_bytes(p.collateral_usd as nat, 8) + le_bytes(
        p.unrealized_profit_usd as nat,
        8,
    ) + le_bytes(p.unrealized_loss_usd as nat, 8) + le_bytes(
        p.cumulative_interest_snapshot as nat,
        16,
    ) + le_bytes(p.locked_amount as nat, 8) + le_bytes(p.collateral_amount as nat, 8)
}

/// The `u64` stored little-endian at `b[start..start + 8]`.
pub open spec fn le_u64_at(b: Seq<u8>, start: int) -> u64 {
    le_value(b.subrange(start, start + 8)) as u64
}

/// `b` holds a stored position: enough bytes, and a valid side byte.
pub open spec fn is_position_bytes(b: Seq<u8>) -> bool {
    b.len() >= 225 && side_of(b[144]) is Some
}

/// `p` is the position that `b` holds.
pub open spec fn position_matches(p: Position, b: Seq<u8>) -> bool {
    &&& p.owner@ == b.subrange(0, 32)
    &&& p.pool@ == b.subrange(32, 64)
    &&& p.custody@ == b.subrange(64, 96)
    &&& p.collateral_custody@ == b.subrange(96, 128)
    &&& p.open_time == le_u64_at(b, 128) as i64
    &&& p.update_time == le_u64_at(b, 136) as i64
    &&& side_of(b[144]) == Some(p.side)
    &&& p.price == le_u64_at(b, 145)
    &&& p.size_usd == le_u64_at(b, 153)
    &&& p.borrow_size_usd == le_u64_at(b, 161)
    &&& p.collateral_usd == le_u64_at(b, 169)
    &&& p.unrealized_profit_usd == le_u64_at(b, 177)
    &&& p.unrealized_loss_usd == le_u64_at(b, 185)
    &&& p.cumulative_interest_snapshot == le_value(b.subrange(193, 209)) as u128
    &&& p.locked_amount == le_u64_at(b, 209)
    &&& p.collateral_amount == le_u64_at(b, 217)
}

/// A `u64` field stored little-endian reads back as itself.
proof fn lemma_u64_field(b: Seq<u8>, start: int, v: u64)
    requires
        0 <= start,
        start + 8 <= b.len(),
        b.subrange(start, start + 8) == le_bytes(v as nat, 8),
    ensures
        le_u64_at(b, start) == v,
{
    lemma_radix_values();
    lemma_le_round_trip(v as nat, 8);
}

/// Decoding the stored form of a position gives the position back.
pub proof fn lemma_position_round_trip(p: Position)
    ensures
        is_position_bytes(position_bytes(p)),
        position_matches(p, position_bytes(p)),
{
    let b = position_bytes(p);
    lemma_radix_values();
    lemma_le_bytes_len((p.open_time as u64) as nat, 8);
    lemma_le_bytes_len((p.update_time as u64) as nat, 8);
    lemma_le_bytes_len(p.price as nat, 8);
    lemma_le_bytes_len(p.size_usd as nat, 8);
    lemma_le_bytes_len(p.borrow_size_usd as nat, 8);
    lemma_le_bytes_len(p.collateral_usd as nat, 8);
    lemma_le_bytes_len(p.unrealized_profit_usd as nat, 8);
    lemma_le_bytes_len(p.unrealized_loss_usd as nat, 8);
    lemma_le_bytes_len(p.cumulative_interest_snapshot as nat, 16);
    lemma_le_bytes_len(p.locked_amount as nat, 8);
    lemma_le_bytes_len(p.collateral_amount as nat, 8);
    assert(b.len() == 225);
    assert(b.subrange(0, 32) =~= p.owner@);
    assert(b.subrange(32, 64) =~= p.pool@);
    assert(b.subrange(64, 96) =~= p.custody@);
    assert(b.subrange(96, 128) =~= p.collateral_custody@);
    assert(b.subrange(128, 136) =~= i64_bytes(p.open_time));
    assert(b.subrange(136, 144) =~= i64_bytes(p.update_time));
    assert(b[144] == side_byte(p.side));
    assert(b.subrange(145, 153) =~= le_bytes(p.price as nat, 8));
    assert(b.subrange(153, 161) =~= le_bytes(p.size_usd as nat, 8));
    assert(b.subrange(161, 169) =~= le_bytes(p.borrow_size_usd as nat, 8));
    assert(b.subrange(169, 177) =~= le_bytes(p.collateral_usd as nat, 8));
    assert(b.subrange(177, 185) =~= le_bytes(p.unrealized_profit_usd as nat, 8));
    assert(b.subrange(185, 193) =~= le_bytes(p.unrealized_loss_usd as nat, 8));
    assert(b.subrange(193, 209) =~= le_bytes(p.cumulative_interest_snapshot as nat, 16));
    assert(b.subrange(209, 217) =~= le_bytes(p.locked_amount as nat, 8));
    assert(b.subrange(217, 225) =~= le_bytes(p.collateral_amount as nat, 8));
    lemma_u64_field(b, 128, p.open_time as u64);
    lemma_u64_field(b, 136, p.update_time as u64);
    lemma_u64_field(b, 145, p.price);
    lemma_u64_field(b, 153, p.size_usd);
    lemma_u64_field(b, 161, p.borrow_size_usd);
    lemma_u64_field(b, 169, p.collateral_usd);
    lemma_u64_field(b, 177, p.unrealized_profit_usd);
    lemma_u64_field(b, 185, p.unrealized_loss_usd);
    lemma_u64_field(b, 209, p.locked_amount);
    lemma_u64_field(b, 217, p.collateral_amount);
    lemma_le_round_trip(p.cumulative_interest_snapshot as nat, 16);
    let t1 = p.open_time;
    let t2 = p.update_time;
    assert((t1 as u64) as i64 == t1) by (bit_vector);
    assert((t2 as u64) as i64 == t2) by (bit_vector);
}

/// Reads the `u64` at `input[start..start + 8]`.
fn u64_at(input: &[u8], start: usize) -> (r: u64)
    requires
        start + 8 <= input@.len(),
    ensures
        r == le_u64_at(input@, start as int),
{
    let v = read_u64(input, start);
    proof {
        lemma_le_value_bound(input@.subrange(start as int, start + 8));
        lemma_radix_values();
    }
    v
}

impl Position {
    /// Bytes taken by a stored position.
    pub const LEN: usize = 225;

    /// A neutral position of `owner` with every amount zero and every other
    /// address zero.
    pub fn empty(owner: Address) -> (r: Position)
        ensures
            r.owner == owner,
            r.pool@ == Seq::new(32, |i: int| 0u8),
            r.side == Side::Neutral,
            r.open_time == 0 && r.update_time == 0,
            r.price == 0 && r.size_usd == 0 && r.borrow_size_usd == 0,
            r.collateral_usd == 0 && r.unrealized_profit_usd == 0 && r.unrealized_loss_usd == 0,
            r.cumulative_interest_snapshot == 0,
            r.locked_amount == 0 && r.collateral_amount == 0,
            r.custody@ == r.pool@ && r.collateral_custody@ == r.pool@,
    {
        let zero = Address::new([0u8; 32]);
        proof {
            assert(zero@ =~= Seq::new(32, |i: int| 0u8));
        }
        Position {
            owner,
            pool: zero,
            custody: zero,
            collateral_custody: zero,
            open_time: 0,
            update_time: 0,
            side: Side::Neutral,
            price: 0,
            size_usd: 0,
            borrow_size_usd: 0,
            collateral_usd: 0,
            unrealized_profit_usd: 0,
            unrealized_loss_usd: 0,
            cumulative_interest_snapshot: 0,
            locked_amount: 0,
            collateral_amount: 0,
        }
    }

    /// The stored form of the position.
    pub fn serialize(&self) -> (r: Vec<u8>)
        ensures
            r@ == position_bytes(*self),
    {
        let mut out: Vec<u8> = Vec::new();
        self.owner.write(&mut out);
        self.pool.write(&mut out);
        self.custody.write(&mut out);
        self.collateral_custody.write(&mut out);
        push_u64(&mut out, self.open_time as u64);
        push_u64(&mut out, self.update_time as u64);
        let side: u8 = match self.side {
            Side::Neutral => 0,
            Side::Long => 1,
            Side::Short => 2,
        };
        out.push(side);
        push_u64(&mut out, self.price);
        push_u64(&mut out, self.size_usd);
        push_u64(&mut out, self.borrow_size_usd);
        push_u64(&mut out, self.collateral_usd);
        push_u64(&mut out, self.unrealized_profit_usd);
        push_u64(&mut out, self.unrealized_loss_usd);
        push_le(&mut out, self.cumulative_interest_snapshot, 16);
        push_u64(&mut out, self.locked_amount);
        push_u64(&mut out, self.collateral_amount);
        proof {
            assert(out@ =~= position_bytes(*self));
        }
        out
    }

    /// Decodes a stored position; bytes past the first 225 are ignored.
    pub fn deserialize(input: &[u8]) -> (r: Result<Position, CodecError>)
        ensures
            r is Ok <==> is_position_bytes(input@),
            r is Ok ==> position_matches(r->Ok_0, input@),
            !is_position_bytes(input@) && input@.len() < 225 ==> r == Err::<Position, CodecError>(
                CodecError::TooShort,
            ),
            !is_position_bytes(input@) && input@.len() >= 225 ==> r == Err::<Position, CodecError>(
                CodecError::CorruptState,
            ),
    {
        if input.len() < Self::LEN {
            return Err(CodecError::TooShort);
        }
        let side = match input[144] {
            0 => Side::Neutral,
            1 => Side::Long,
            2 => Side::Short,
            _ => {
                return Err(CodecError::CorruptState);
            },
        };
        let interest = read_le(input, 193, 16);
        proof {
            lemma_le_value_bound(input@.subrange(193, 209));
            lemma_radix_values();
        }
        Ok(
            Position {
                owner: Address::read(input, 0),
                pool: Address::read(input, 32),
                custody: Address::read(input, 64),
                collateral_custody: Address::read(input, 96),
                open_time: u64_at(input, 128) as i64,
                update_time: u64_at(input, 136) as i64,
                side,
                price: u64_at(input, 145),
                size_usd: u64_at(input, 153),
                borrow_size_usd: u64_at(input, 161),
                collateral_usd: u64_at(input, 169),
                unrealized_profit_usd: u64_at(input, 177),
                unrealized_loss_usd: u64_at(input, 185),
                cumulative_interest_snapshot: interest,
                locked_amount: u64_at(input, 209),
                collateral_amount: u64_at(input, 217),
            },
        )
    }
}

/// A user's position index allocator: positions `0 .. next_position_idx` of
/// `owner` have been handed out.
#[derive(Clone, Copy, Debug)]
pub struct UserPositions {
    pub owner: Address,
    pub next_position_idx: u64,
}

/// The stored form of an allocator: the owner, then the next index.
pub open spec fn user_positions_bytes(u: UserPositions) -> Seq<u8> {
    u.owner@ + le_bytes(u.next_position_idx as nat, 8)
}

impl UserPositions {
    /// Bytes taken by a stored allocator.
    pub const LEN: usize = 40;

    /// The stored form of the allocator.
    pub fn serialize(&self) -> (r: Vec<u8>)
        ensures
            r@ == user_positions_bytes(*self),
    {
        let mut out: Vec<u8> = Vec::new();
        self.owner.write(&mut out);
        push_u64(&mut out, self.next_position_idx);
        proof {
            assert(out@ =~= user_positions_bytes(*self));
        }
        out
    }

    /// Decodes a stored allocator; bytes past the first 40 are ignored.
    pub fn deserialize(input: &[u8]) -> (r: Result<UserPositions, CodecError>)
        ensures
            input@.len() >= 40 ==> r is Ok && r->Ok_0.owner@ == input@.subrange(0, 32)
                && r->Ok_0.next_position_idx == le_u64_at(input@, 32),
            input@.len() < 40 ==> r == Err::<UserPositions, CodecError>(CodecError::TooShort),
    {
        if input.len() < Self::LEN {
            return Err(CodecError::TooShort);
        }
        Ok(UserPositions { owner: Address::read(input, 0), next_position_idx: u64_at(input, 32) })
    }
}

} // verus!
