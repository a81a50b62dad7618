//! Account addresses, the little-endian integer codec used by every stored
//! record, and program-derived address derivation.

use solana_program::pubkey::Pubkey;
use vstd::prelude::*;

verus! {

/// Length in bytes of an account address.
pub const ADDRESS_LEN: usize = 32;

/// `256` raised to `n`: the number of values that `n` bytes can hold.
pub open spec fn radix(n: nat) -> nat
    decreases n,
{
    if n == 0 {
        1
    } else {
        256 * radix((n - 1) as nat)
    }
}

/// The value of a little-endian byte string.
pub open spec fn le_value(s: Seq<u8>) -> nat
    decreases s.len(),
{
    if s.len() == 0 {
        0
    } else {
        s[0] as nat + 256 * le_value(s.drop_first())
    }
}

/// The `n` low-order bytes of `v`, least significant first.
pub open spec fn le_bytes(v: nat, n: nat) -> Seq<u8>
    decreases n,
{
    if n == 0 {
        Seq::empty()
    } else {
        seq![(v % 256) as u8] + le_bytes(v / 256, (n - 1) as nat)
    }
}

pub proof fn lemma_radix_positive(n: nat)
    ensures
        radix(n) >= 1,
    decreases n,
{
    if n > 0 {
        lemma_radix_positive((n - 1) as nat);
    }
}

pub proof fn lemma_radix_values()
    ensures
        radix(8) == 0x1_0000_0000_0000_0000nat,
        radix(16) == 0x1_0000_0000_0000_0000_0000_0000_0000_0000nat,
{
    reveal_with_fuel(radix, 17);
}

pub proof fn lemma_le_bytes_len(v: nat, n: nat)
    ensures
        le_bytes(v, n).len() == n,
    decreases n,
{
    if n > 0 {
        lemma_le_bytes_len(v / 256, (n - 1) as nat);
    }
}

/// A little-endian string of `n` bytes holds a value below `256^n`.
pub proof fn lemma_le_value_bound(s: Seq<u8>)
    ensures
        le_value(s) < radix(s.len()),
    decreases s.len(),
{
    if s.len() > 0 {
        lemma_le_value_bound(s.drop_first());
        let r = radix((s.len() - 1) as nat);
        let t = le_value(s.drop_first());
        assert(s[0] as nat + 256 * t < 256 * r) by (nonlinear_arith)
            requires
                t < r,
                s[0] < 256,
        ;
    }
}

/// Decoding the encoding of a value that fits gives the value back.
pub proof fn lemma_le_round_trip(v: nat, n: nat)
    requires
        v < radix(n),
    ensures
        le_value(le_bytes(v, n)) == v,
    decreases n,
{
    if n > 0 {
        let r = radix((n - 1) as nat);
        assert(v / 256 < r) by (nonlinear_arith)
            requires
                v < 256 * r,
        ;
        lemma_le_round_trip(v / 256, (n - 1) as nat);
        let s = le_bytes(v, n);
        assert(s.drop_first() =~= le_bytes(v / 256, (n - 1) as nat));
        assert((v % 256) + 256 * (v / 256) == v) by (nonlinear_arith);
    }
}

/// A 32-byte account address.
#[derive(Clone, Copy, Debug)]
pub struct Address {
    pub bytes: [u8; 32],
}

impl View for Address {
    type V = Seq<u8>;

    open spec fn view(&self) -> Seq<u8> {
        self.bytes@
    }
}

impl PartialEq for Address {
    fn eq(&self, other: &Address) -> (r: bool) {
        let mut i: usize = 0;
        while i < ADDRESS_LEN
            invariant
                0 <= i <= ADDRESS_LEN,
                self.bytes@.len() == 32,
                other.bytes@.len() == 32,
                forall|j: int| 0 <= j < i ==> self.bytes@[j] == other.bytes@[j],
            decreases ADDRESS_LEN - i,
        {
            if self.bytes[i] != other.bytes[i] {
                return false;
            }
            i = i + 1;
        }
        proof {
            assert(self.bytes@ =~= other.bytes@);
        }
        true
    }
}

impl vstd::std_specs::cmp::PartialEqSpecImpl for Address {
    open spec fn obeys_eq_spec() -> bool {
        true
    }

    open spec fn eq_spec(&self, other: &Address) -> bool {
        self@ == other@
    }
}

impl Address {
    /// The address made of the given bytes.
    pub fn new(bytes: [u8; 32]) -> (r: Address)
        ensures
            r@ == bytes@,
    {
        Address { bytes }
    }

    /// The address read from `input[start..start + 32]`.
    pub fn read(input: &[u8], start: usize) -> (r: Address)
        requires
            start + 32 <= input@.len(),
        ensures
            r@ == input@.subrange(start as int, start + 32),
    {
        let mut bytes: [u8; 32] = [0u8; 32];
        let len = input.len();
        let mut i: usize = 0;
        while i < ADDRESS_LEN
            invariant
                0 <= i <= ADDRESS_LEN,
                start + 32 <= input@.len(),
                len == input@.len(),
                bytes@.len() == 32,
                forall|j: int| 0 <= j < i ==> bytes@[j] == input@[start + j],
            decreases ADDRESS_LEN - i,
        {
            bytes[i] = input[start + i];
            i = i + 1;
        }
        proof {
            assert(bytes@ =~= input@.subrange(start as int, start + 32));
        }
        Address { bytes }
    }

    /// The address's bytes.
    pub fn to_vec(&self) -> (r: Vec<u8>)
        ensures
            r@ == self@,
    {
        let mut out: Vec<u8> = Vec::new();
        self.write(&mut out);
        proof {
            assert(out@ =~= self@);
        }
        out
    }

    /// Appends the address's bytes to `out`.
    pub fn write(&self, out: &mut Vec<u8>)
        ensures
            final(out)@ == old(out)@ + self@,
    {
        let mut i: usize = 0;
        while i < ADDRESS_LEN
            invariant
                0 <= i <= ADDRESS_LEN,
                self.bytes@.len() == 32,
                out@ == old(out)@ + self@.subrange(0, i as int),
            decreases ADDRESS_LEN - i,
        {
            out.push(self.bytes[i]);
            i = i + 1;
            proof {
                assert(out@ =~= old(out)@ + self@.subrange(0, i as int));
            }
        }
        proof {
            assert(self@.subrange(0, 32) =~= self@);
        }
    }
}

/// Appends the `n` low-order bytes of `v` to `out`, least significant first.
pub fn push_le(out: &mut Vec<u8>, v: u128, n: usize)
    ensures
        final(out)@ == old(out)@ + le_bytes(v as nat, n as nat),
{
    let mut i: usize = 0;
    let mut rest: u128 = v;
    while i < n
        invariant
            0 <= i <= n,
            out@ + le_bytes(rest as nat, (n - i) as nat) == old(out)@ + le_bytes(v as nat, n as nat),
        decreases n - i,
    {
        let byte: u8 = (rest % 256) as u8;
        proof {
            let tail = le_bytes(rest as nat / 256, (n - i - 1) as nat);
            assert(le_bytes(rest as nat, (n - i) as nat) == seq![byte] + tail);
            assert(out@.push(byte) + tail =~= out@ + (seq![byte] + tail));
        }
        out.push(byte);
        rest = rest / 256;
        i = i + 1;
    }
}

/// The little-endian value of `input[start..start + n]`.
pub fn read_le(input: &[u8], start: usize, n: usize) -> (r: u128)
    requires
        n <= 16,
        start + n <= input@.len(),
    ensures
        r as nat == le_value(input@.subrange(start as int, start + n)),
{
    let len = input.len();
    let mut i: usize = n;
    let mut acc: u128 = 0;
    proof {
        assert(input@.subrange(start + n, start + n) =~= Seq::<u8>::empty());
    }
    while i > 0
        invariant
            0 <= i <= n <= 16,
            start + n <= input@.len(),
            len == input@.len(),
            acc as nat == le_value(input@.subrange(start + i, start + n)),
        decreases i,
    {
        let ghost prev = input@.subrange(start + i, start + n);
        i = i - 1;
        let byte: u8 = input[start + i];
        proof {
            let cur = input@.subrange(start + i, start + n);
            assert(cur.drop_first() =~= prev);
            lemma_le_value_bound(cur);
            lemma_radix_values();
            lemma_radix_monotone(cur.len(), 16);
        }
        acc = acc * 256 + byte as u128;
    }
    acc
}

pub proof fn lemma_radix_monotone(a: nat, b: nat)
    requires
        a <= b,
    ensures
        radix(a) <= radix(b),
    decreases b,
{
    if a < b {
        lemma_radix_monotone(a, (b - 1) as nat);
        lemma_radix_positive((b - 1) as nat);
    }
}

/// The little-endian `u64` at `input[start..start + 8]`.
pub fn read_u64(input: &[u8], start: usize) -> (r: u64)
    requires
        start + 8 <= input@.len(),
    ensures
        r as nat == le_value(input@.subrange(start as int, start + 8)),
{
    let v = read_le(input, start, 8);
    proof {
        lemma_le_value_bound(input@.subrange(start as int, start + 8));
        lemma_radix_values();
    }
    v as u64
}

/// Appends the eight little-endian bytes of `v` to `out`.
pub fn push_u64(out: &mut Vec<u8>, v: u64)
    ensures
        final(out)@ == old(out)@ + le_bytes(v as nat, 8),
{
    push_le(out, v as u128, 8);
}

/// The eight little-endian bytes of `v`.
pub fn u64_le_bytes(v: u64) -> (r: Vec<u8>)
    ensures
        r@ == le_bytes(v as nat, 8),
{
    let mut out: Vec<u8> = Vec::new();
    push_u64(&mut out, v);
    proof {
        assert(Seq::<u8>::empty() + le_bytes(v as nat, 8) =~= le_bytes(v as nat, 8));
    }
    out
}

/// The deep view of a byte vector is its view.
pub proof fn lemma_bytes_deep_view(v: Vec<u8>)
    ensures
        v.deep_view() == v@,
{
    assert(v.deep_view() =~= v@);
}

/// What `try_find_program_address` returns for the given seeds and program:
/// the derived address and its bump, or none where no bump gives an address
/// off the curve or the seeds break the length limits.
pub uninterp spec fn program_address(seeds: Seq<Seq<u8>>, program: Seq<u8>) -> Option<(Seq<u8>, u8)>;

/// The view of a derivation result.
pub open spec fn derived_view(r: Option<(Address, u8)>) -> Option<(Seq<u8>, u8)> {
    match r {
        Some((a, b)) => Some((a@, b)),
        None => None,
    }
}

/// Relies on `Pubkey::try_find_program_address` of solana-program: the
/// derivation is a function of the seeds and the program id alone.
#[verifier::external_body]
fn try_find_program_address(seeds: &Vec<Vec<u8>>, program: &Address) -> (r: Option<(Address, u8)>)
    ensures
        derived_view(r) == program_address(seeds.deep_view(), program@),
{
    let refs: Vec<&[u8]> = seeds.iter().map(|s| s.as_slice()).collect();
    Pubkey::try_find_program_address(&refs, &Pubkey::new_from_array(program.bytes)).map(
        |(k, b)| (Address { bytes: k.to_bytes() }, b),
    )
}

/// Deriving twice from the same seeds under the same program gives the same
/// address and the same bump.
pub proof fn lemma_derivation_deterministic(
    seeds: Seq<Seq<u8>>,
    program: Seq<u8>,
    first: Option<(Address, u8)>,
    second: Option<(Address, u8)>,
)
    requires
        derived_view(first) == program_address(seeds, program),
        derived_view(second) == program_address(seeds, program),
    ensures
        derived_view(first) == derived_view(second),
        first is Some <==> second is Some,
        first matches Some((a, b)) ==> (second matches Some((c, d)) && a@ == c@ && b == d),
{
}

/// Derives the program address for `seeds` under `program`, with its bump.
pub fn derive_address(seeds: &Vec<Vec<u8>>, program: &Address) -> (r: Option<(Address, u8)>)
    ensures
        derived_view(r) == program_address(seeds.deep_view(), program@),
{
    try_find_program_address(seeds, program)
}

/// What `get_associated_token_address` returns: the address of `wallet`'s
/// associated token account for `mint` under the classic token program.
pub uninterp spec fn associated_token_address_of(wallet: Seq<u8>, mint: Seq<u8>) -> Seq<u8>;

/// Relies on `spl_associated_token_account::get_associated_token_address`:
/// the address is a function of the wallet and the mint alone. (It panics
/// only where no bump seed gives an off-curve address, which the derivation's
/// documentation calls statistically improbable.)
#[verifier::external_body]
fn get_associated_token_address(wallet: &Address, mint: &Address) -> (r: Address)
    ensures
        r@ == associated_token_address_of(wallet@, mint@),
{
    let k = spl_associated_token_account::get_associated_token_address(
        &Pubkey::new_from_array(wallet.bytes),
        &Pubkey::new_from_array(mint.bytes),
    );
    Address { bytes: k.to_bytes() }
}

/// The address of `wallet`'s associated token account for `mint`.
pub fn associated_token_address(wallet: &Address, mint: &Address) -> (r: Address)
    ensures
        r@ == associated_token_address_of(wallet@, mint@),
{
    get_associated_token_address(wallet, mint)
}

} // verus!
