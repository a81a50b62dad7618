//! The vault registry: a bounded list of fixed-size vault records, stored in
//! an account of fixed size as
//! `[count: u64 LE][capacity: u64 LE][record]*count[zero padding]`, where the
//! padding fills the account out to `16 + 128 * capacity` bytes.

use crate::address::{
    le_bytes, le_value, lemma_le_bytes_len, lemma_le_round_trip, lemma_radix_values, push_u64,
    radix, read_u64, Address,
};
use vstd::prelude::*;

verus! {

/// Bytes taken by one vault record: four addresses.
pub const VAULT_LEN: usize = 128;

/// Bytes taken by the registry header: the record count and the capacity.
pub const REGISTRY_HEADER_LEN: usize = 16;

/// Capacity of a newly created registry.
pub const INITIAL_CAPACITY: usize = 10;

/// One vault: its custody account, the deposited (base) token's mint, the
/// derivative token's mint and the vault's owner.
#[derive(Clone, Copy, Debug)]
pub struct Vault {
    pub vault_account: Address,
    pub mint_token_a: Address,
    pub mint_a_token_a: Address,
    pub owner: Address,
}

/// The mathematical value of a vault: its four addresses as byte strings.
pub struct VaultView {
    pub vault_account: Seq<u8>,
    pub mint_token_a: Seq<u8>,
    pub mint_a_token_a: Seq<u8>,
    pub owner: Seq<u8>,
}

impl VaultView {
    /// Every field is an address of 32 bytes.
    pub open spec fn wf(self) -> bool {
        &&& self.vault_account.len() == 32
        &&& self.mint_token_a.len() == 32
        &&& self.mint_a_token_a.len() == 32
        &&& self.owner.len() == 32
    }
}

impl View for Vault {
    type V = VaultView;

    open spec fn view(&self) -> VaultView {
        VaultView {
            vault_account: self.vault_account@,
            mint_token_a: self.mint_token_a@,
            mint_a_token_a: self.mint_a_token_a@,
            owner: self.owner@,
        }
    }
}

/// The 128-byte encoding of a vault: its four addresses in field order.
pub open spec fn vault_bytes(v: VaultView) -> Seq<u8> {
    v.vault_account + v.mint_token_a + v.mint_a_token_a + v.owner
}

/// The vault that the first 128 bytes of `b` encode.
pub open spec fn vault_of(b: Seq<u8>) -> VaultView {
    VaultView {
        vault_account: b.subrange(0, 32),
        mint_token_a: b.subrange(32, 64),
        mint_a_token_a: b.subrange(64, 96),
        owner: b.subrange(96, 128),
    }
}

/// Decoding the encoding of a vault gives the vault back.
pub proof fn lemma_vault_round_trip(v: VaultView)
    requires
        v.wf(),
    ensures
        vault_bytes(v).len() == 128,
        vault_of(vault_bytes(v)) == v,
{
    let b = vault_bytes(v);
    assert(b.subrange(0, 32) =~= v.vault_account);
    assert(b.subrange(32, 64) =~= v.mint_token_a);
    assert(b.subrange(64, 96) =~= v.mint_a_token_a);
    assert(b.subrange(96, 128) =~= v.owner);
}

impl Vault {
    /// Bytes taken by one encoded vault.
    pub const LEN: usize = 128;

    /// The vault's 128-byte encoding.
    pub fn serialize(&self) -> (r: Vec<u8>)
        ensures
            r@ == vault_bytes(self@),
    {
        let mut data: Vec<u8> = Vec::new();
        self.write(&mut data);
        proof {
            assert(vault_bytes(self@) =~= Seq::<u8>::empty() + vault_bytes(self@));
        }
        data
    }

    /// Appends the vault's encoding to `out`.
    pub fn write(&self, out: &mut Vec<u8>)
        ensures
            final(out)@ == old(out)@ + vault_bytes(self@),
    {
        self.vault_account.write(out);
        self.mint_token_a.write(out);
        self.mint_a_token_a.write(out);
        self.owner.write(out);
        proof {
            assert(final(out)@ =~= old(out)@ + vault_bytes(self@));
        }
    }

    /// The vault encoded by the first 128 bytes of `input`.
    pub fn deserialize(input: &[u8]) -> (r: Vault)
        requires
            input@.len() >= 128,
        ensures
            r@ == vault_of(input@),
    {
        let r = Self::read(input, 0);
        proof {
            let b = input@.subrange(0, 128);
            assert(b.subrange(0, 32) =~= input@.subrange(0, 32));
            assert(b.subrange(32, 64) =~= input@.subrange(32, 64));
            assert(b.subrange(64, 96) =~= input@.subrange(64, 96));
            assert(b.subrange(96, 128) =~= input@.subrange(96, 128));
        }
        r
    }

    /// The vault encoded at `input[start..start + 128]`.
    pub fn read(input: &[u8], start: usize) -> (r: Vault)
        requires
            start + 128 <= input@.len(),
        ensures
            r@ == vault_of(input@.subrange(start as int, start + 128)),
    {
        let _len = input.len();
        let vault_account = Address::read(input, start);
        let mint_token_a = Address::read(input, start + 32);
        let mint_a_token_a = Address::read(input, start + 64);
        let owner = Address::read(input, start + 96);
        let r = Vault { vault_account, mint_token_a, mint_a_token_a, owner };
        proof {
            let b = input@.subrange(start as int, start + 128);
            assert(b.subrange(0, 32) =~= vault_account@);
            assert(b.subrange(32, 64) =~= mint_token_a@);
            assert(b.subrange(64, 96) =~= mint_a_token_a@);
            assert(b.subrange(96, 128) =~= owner@);
        }
        r
    }
}

/// Why a registry operation was refused.
#[derive(Clone, Copy, Debug, PartialEq, Eq, Structural)]
pub enum RegistryError {
    /// The registry already holds `capacity` records.
    CapacityExceeded,
    /// No record stands at the given index.
    IndexOutOfBounds,
}

/// Why stored bytes do not decode to a registry.
#[derive(Clone, Copy, Debug, PartialEq, Eq, Structural)]
pub enum CodecError {
    /// The bytes end before the header or before the last record.
    TooShort,
    /// The header is inconsistent: more records than capacity, or a capacity
    /// that no account could hold.
    CorruptState,
}

/// The registry of vaults, with room for `capacity` of them.
#[derive(Debug)]
pub struct VaultRegistry {
    pub vaults: Vec<Vault>,
    pub capacity: usize,
}

/// The mathematical value of a registry.
pub struct RegistryView {
    pub vaults: Seq<VaultView>,
    pub capacity: nat,
}

impl View for VaultRegistry {
    type V = RegistryView;

    open spec fn view(&self) -> RegistryView {
        RegistryView { vaults: self.vaults@.map_values(|v: Vault| v@), capacity: self.capacity as nat }
    }
}

/// Size in bytes of the account that holds a registry of the given capacity.
pub open spec fn registry_len(capacity: nat) -> nat {
    16 + 128 * capacity
}

impl RegistryView {
    /// The registry holds no more records than its capacity.
    pub open spec fn wf(self) -> bool {
        self.vaults.len() <= self.capacity
    }

    /// The registry's account size is a machine-sized number of bytes.
    pub open spec fn fits(self) -> bool {
        registry_len(self.capacity) <= usize::MAX
    }

    /// Every record holds four 32-byte addresses.
    pub open spec fn records_wf(self) -> bool {
        forall|i: int| 0 <= i < self.vaults.len() ==> #[trigger] self.vaults[i].wf()
    }
}

/// The records' encodings, one after the other.
pub open spec fn records_bytes(vs: Seq<VaultView>) -> Seq<u8>
    decreases vs.len(),
{
    if vs.len() == 0 {
        Seq::empty()
    } else {
        records_bytes(vs.drop_last()) + vault_bytes(vs.last())
    }
}

/// `n` zero bytes.
pub open spec fn zeros(n: nat) -> Seq<u8> {
    Seq::new(n, |i: int| 0u8)
}

/// The stored form of a registry: header, records, then zeros up to the
/// account size for its capacity.
pub open spec fn registry_bytes(r: RegistryView) -> Seq<u8> {
    le_bytes(r.vaults.len(), 8) + le_bytes(r.capacity, 8) + records_bytes(r.vaults) + zeros(
        (128 * (r.capacity - r.vaults.len())) as nat,
    )
}

/// What stored bytes decode to.
pub open spec fn parse_registry(b: Seq<u8>) -> Result<RegistryView, CodecError> {
    if b.len() < 16 {
        Err(CodecError::TooShort)
    } else {
        let count = le_value(b.subrange(0, 8));
        let capacity = le_value(b.subrange(8, 16));
        if count > capacity || registry_len(capacity) > usize::MAX {
            Err(CodecError::CorruptState)
        } else if b.len() < 16 + 128 * count {
            Err(CodecError::TooShort)
        } else {
            Ok(
                RegistryView {
                    vaults: Seq::new(count, |i: int| vault_of(b.subrange(16 + 128 * i, 16 + 128 * i + 128))),
                    capacity,
                },
            )
        }
    }
}

/// What `add_vault` does: append where there is room, refuse otherwise.
pub open spec fn add_spec(r: RegistryView, v: VaultView) -> Result<RegistryView, RegistryError> {
    if r.vaults.len() < r.capacity {
        Ok(RegistryView { vaults: r.vaults.push(v), capacity: r.capacity })
    } else {
        Err(RegistryError::CapacityExceeded)
    }
}

/// What `remove_vault` does: drop the record at `index` and shift the rest
/// down, or refuse an index past the end.
pub open spec fn remove_spec(r: RegistryView, index: int) -> Result<RegistryView, RegistryError> {
    if 0 <= index < r.vaults.len() {
        Ok(RegistryView { vaults: r.vaults.remove(index), capacity: r.capacity })
    } else {
        Err(RegistryError::IndexOutOfBounds)
    }
}

/// One mutation of a registry.
pub enum RegistryOp {
    Add(VaultView),
    Remove(int),
}

/// The registry after one operation; a refused operation leaves it as it was.
pub open spec fn apply_op(r: RegistryView, op: RegistryOp) -> RegistryView {
    let res = match op {
        RegistryOp::Add(v) => add_spec(r, v),
        RegistryOp::Remove(i) => remove_spec(r, i),
    };
    match res {
        Ok(next) => next,
        Err(_) => r,
    }
}

/// The registry after a sequence of operations, applied in order.
pub open spec fn apply_ops(r: RegistryView, ops: Seq<RegistryOp>) -> RegistryView
    decreases ops.len(),
{
    if ops.len() == 0 {
        r
    } else {
        apply_op(apply_ops(r, ops.drop_last()), ops.last())
    }
}

/// After any sequence of additions and removals, a registry that started
/// within its capacity is still within it, and its capacity is unchanged.
pub proof fn lemma_capacity_invariant(r: RegistryView, ops: Seq<RegistryOp>)
    requires
        r.wf(),
    ensures
        apply_ops(r, ops).wf(),
        apply_ops(r, ops).capacity == r.capacity,
    decreases ops.len(),
{
    if ops.len() > 0 {
        lemma_capacity_invariant(r, ops.drop_last());
    }
}

/// Adding to a full registry is refused with `CapacityExceeded`, and the
/// count does not grow.
pub proof fn lemma_add_to_full_refused(r: RegistryView, v: VaultView)
    requires
        r.vaults.len() >= r.capacity,
    ensures
        add_spec(r, v) == Err::<RegistryView, RegistryError>(RegistryError::CapacityExceeded),
        apply_op(r, RegistryOp::Add(v)).vaults.len() == r.vaults.len(),
{
}

pub proof fn lemma_records_bytes_len(vs: Seq<VaultView>)
    requires
        forall|i: int| 0 <= i < vs.len() ==> #[trigger] vs[i].wf(),
    ensures
        records_bytes(vs).len() == 128 * vs.len(),
    decreases vs.len(),
{
    if vs.len() > 0 {
        let init = vs.drop_last();
        assert forall|i: int| 0 <= i < init.len() implies #[trigger] init[i].wf() by {
            assert(init[i] == vs[i]);
        }
        lemma_records_bytes_len(init);
        assert(vs.last().wf());
    }
}

/// The record at index `i` of a concatenation of records.
pub proof fn lemma_records_bytes_at(vs: Seq<VaultView>, i: int)
    requires
        forall|j: int| 0 <= j < vs.len() ==> #[trigger] vs[j].wf(),
        0 <= i < vs.len(),
    ensures
        records_bytes(vs).subrange(128 * i, 128 * i + 128) == vault_bytes(vs[i]),
    decreases vs.len(),
{
    let init = vs.drop_last();
    assert forall|j: int| 0 <= j < init.len() implies #[trigger] init[j].wf() by {
        assert(init[j] == vs[j]);
    }
    lemma_records_bytes_len(init);
    assert(vs.last().wf());
    let a = records_bytes(init);
    let b = vault_bytes(vs.last());
    assert(records_bytes(vs) == a + b);
    if i < vs.len() - 1 {
        lemma_records_bytes_at(init, i);
        assert((a + b).subrange(128 * i, 128 * i + 128) =~= a.subrange(128 * i, 128 * i + 128));
    } else {
        assert((a + b).subrange(128 * i, 128 * i + 128) =~= b);
    }
}

/// Decoding what `serialize` writes gives the registry back.
pub proof fn lemma_round_trip(r: RegistryView)
    requires
        r.wf(),
        r.fits(),
        r.records_wf(),
    ensures
        parse_registry(registry_bytes(r)) == Ok::<RegistryView, CodecError>(r),
{
    let count = r.vaults.len();
    let cap = r.capacity;
    lemma_radix_values();
    assert(cap < radix(8));
    let h1 = le_bytes(count, 8);
    let h2 = le_bytes(cap, 8);
    let recs = records_bytes(r.vaults);
    let pad = zeros((128 * (cap - count)) as nat);
    lemma_le_bytes_len(count, 8);
    lemma_le_bytes_len(cap, 8);
    lemma_records_bytes_len(r.vaults);
    let b = registry_bytes(r);
    assert(b == h1 + h2 + recs + pad);
    assert(b.subrange(0, 8) =~= h1);
    assert(b.subrange(8, 16) =~= h2);
    lemma_le_round_trip(count, 8);
    lemma_le_round_trip(cap, 8);
    assert(b.len() == 16 + 128 * count + 128 * (cap - count));
    let parsed = Seq::new(count, |i: int| vault_of(b.subrange(16 + 128 * i, 16 + 128 * i + 128)));
    assert forall|i: int| 0 <= i < count implies #[trigger] parsed[i] == r.vaults[i] by {
        lemma_records_bytes_at(r.vaults, i);
        assert(b.subrange(16 + 128 * i, 16 + 128 * i + 128) =~= recs.subrange(128 * i, 128 * i + 128));
        lemma_vault_round_trip(r.vaults[i]);
    }
    assert(parsed =~= r.vaults);
}

impl VaultRegistry {
    /// Capacity of a newly created registry.
    pub const INITIAL_CAPACITY: usize = 10;

    /// An empty registry with the initial capacity.
    pub fn new() -> (r: VaultRegistry)
        ensures
            r@.vaults.len() == 0,
            r@.capacity == INITIAL_CAPACITY,
    {
        let r = VaultRegistry { vaults: Vec::new(), capacity: INITIAL_CAPACITY };
        proof {
            assert(r@.vaults =~= Seq::<VaultView>::empty());
        }
        r
    }

    /// Size in bytes of the account that holds this registry.
    pub fn len(&self) -> (r: usize)
        requires
            self@.fits(),
        ensures
            r == registry_len(self@.capacity),
    {
        REGISTRY_HEADER_LEN + VAULT_LEN * self.capacity
    }

    /// The number of vaults held.
    pub fn vault_count(&self) -> (r: usize)
        ensures
            r == self@.vaults.len(),
    {
        self.vaults.len()
    }

    /// Doubles the capacity. The account that holds the registry must be
    /// resized to `len()` before the registry is written back.
    pub fn grow(&mut self)
        requires
            old(self).capacity * 2 <= usize::MAX,
        ensures
            final(self)@.vaults == old(self)@.vaults,
            final(self)@.capacity == 2 * old(self)@.capacity,
    {
        self.capacity = self.capacity * 2;
    }

    /// Appends a vault if there is room.
    pub fn add_vault(&mut self, vault: Vault) -> (r: Result<(), RegistryError>)
        ensures
            match add_spec(old(self)@, vault@) {
                Ok(next) => r is Ok && final(self)@ == next,
                Err(e) => r == Err::<(), RegistryError>(e) && final(self)@ == old(self)@,
            },
    {
        if self.vaults.len() >= self.capacity {
            return Err(RegistryError::CapacityExceeded);
        }
        self.vaults.push(vault);
        proof {
            assert(self@.vaults =~= old(self)@.vaults.push(vault@));
        }
        Ok(())
    }

    /// Removes the vault at `index`, shifting the later ones down.
    pub fn remove_vault(&mut self, index: usize) -> (r: Result<(), RegistryError>)
        ensures
            match remove_spec(old(self)@, index as int) {
                Ok(next) => r is Ok && final(self)@ == next,
                Err(e) => r == Err::<(), RegistryError>(e) && final(self)@ == old(self)@,
            },
    {
        if index >= self.vaults.len() {
            return Err(RegistryError::IndexOutOfBounds);
        }
        self.vaults.remove(index);
        proof {
            assert(self@.vaults =~= old(self)@.vaults.remove(index as int));
        }
        Ok(())
    }

    /// The stored form of the registry: header, records, then zeros up to
    /// `len()` bytes.
    pub fn serialize(&self) -> (r: Vec<u8>)
        requires
            self@.wf(),
            self@.fits(),
        ensures
            r@ == registry_bytes(self@),
            r@.len() == registry_len(self@.capacity),
    {
        let mut data: Vec<u8> = Vec::new();
        push_u64(&mut data, self.vaults.len() as u64);
        push_u64(&mut data, self.capacity as u64);
        let ghost header = data@;
        proof {
            lemma_radix_values();
            assert(header =~= le_bytes(self@.vaults.len(), 8) + le_bytes(self@.capacity, 8));
            lemma_le_bytes_len(self@.vaults.len(), 8);
            lemma_le_bytes_len(self@.capacity, 8);
        }
        let mut i: usize = 0;
        while i < self.vaults.len()
            invariant
                0 <= i <= self.vaults@.len(),
                header.len() == 16,
                data@ == header + records_bytes(self@.vaults.take(i as int)),
            decreases self.vaults@.len() - i,
        {
            let ghost before = data@;
            self.vaults[i].write(&mut data);
            proof {
                let taken = self@.vaults.take(i + 1);
                assert(taken.drop_last() =~= self@.vaults.take(i as int));
                assert(taken.last() == self.vaults@[i as int]@);
                assert(data@ =~= header + records_bytes(taken));
            }
            i = i + 1;
        }
        proof {
            assert(self@.vaults.take(self.vaults@.len() as int) =~= self@.vaults);
            assert forall|j: int| 0 <= j < self@.vaults.len() implies #[trigger] self@.vaults[j].wf() by {
            }
            lemma_records_bytes_len(self@.vaults);
        }
        let total = self.len();
        let ghost body = data@;
        while data.len() < total
            invariant
                body.len() <= data@.len() <= total,
                total == registry_len(self@.capacity),
                data@ == body + zeros((data@.len() - body.len()) as nat),
            decreases total - data@.len(),
        {
            data.push(0u8);
            proof {
                assert(data@ =~= body + zeros((data@.len() - body.len()) as nat));
            }
        }
        proof {
            assert(data@.len() - body.len() == 128 * (self@.capacity - self@.vaults.len()));
        }
        data
    }

    /// Decodes a registry from its stored form.
    pub fn deserialize(input: &[u8]) -> (r: Result<VaultRegistry, CodecError>)
        ensures
            match parse_registry(input@) {
                Ok(v) => r is Ok && r->Ok_0@ == v,
                Err(e) => r == Err::<VaultRegistry, CodecError>(e),
            },
    {
        if input.len() < REGISTRY_HEADER_LEN {
            return Err(CodecError::TooShort);
        }
        let count = read_u64(input, 0);
        let capacity = read_u64(input, 8);
        let max_capacity: usize = (usize::MAX - REGISTRY_HEADER_LEN) / VAULT_LEN;
        if count > capacity || capacity > max_capacity as u64 {
            proof {
                if count <= capacity {
                    assert(registry_len(capacity as nat) > usize::MAX) by (nonlinear_arith)
                        requires
                            capacity > (usize::MAX - 16) / 128,
                    ;
                }
            }
            return Err(CodecError::CorruptState);
        }
        proof {
            assert(registry_len(capacity as nat) <= usize::MAX) by (nonlinear_arith)
                requires
                    capacity <= (usize::MAX - 16) / 128,
            ;
        }
        let count: usize = count as usize;
        let capacity: usize = capacity as usize;
        if (input.len() - REGISTRY_HEADER_LEN) / VAULT_LEN < count {
            proof {
                assert(input@.len() < 16 + 128 * count) by (nonlinear_arith)
                    requires
                        (input@.len() - 16) / 128 < count,
                        input@.len() >= 16,
                ;
            }
            return Err(CodecError::TooShort);
        }
        proof {
            assert(input@.len() >= 16 + 128 * count) by (nonlinear_arith)
                requires
                    (input@.len() - 16) / 128 >= count,
                    input@.len() >= 16,
            ;
        }
        let ghost expected = Seq::new(
            count as nat,
            |i: int| vault_of(input@.subrange(16 + 128 * i, 16 + 128 * i + 128)),
        );
        let mut vaults: Vec<Vault> = Vec::new();
        let len = input.len();
        let mut i: usize = 0;
        while i < count
            invariant
                0 <= i <= count,
                len == input@.len(),
                expected == Seq::new(
                    count as nat,
                    |k: int| vault_of(input@.subrange(16 + 128 * k, 16 + 128 * k + 128)),
                ),
                16 + 128 * count <= input@.len(),
                count <= capacity,
                vaults@.len() == i,
                forall|j: int| 0 <= j < i ==> #[trigger] vaults@[j]@ == expected[j],
            decreases count - i,
        {
            proof {
                assert(16 + 128 * i + 128 <= 16 + 128 * count) by (nonlinear_arith)
                    requires
                        i < count,
                ;
            }
            let v = Vault::read(input, REGISTRY_HEADER_LEN + VAULT_LEN * i);
            vaults.push(v);
            i = i + 1;
        }
        let r = VaultRegistry { vaults, capacity };
        proof {
            assert(r@.vaults =~= expected);
        }
        Ok(r)
    }
}

} // verus!
