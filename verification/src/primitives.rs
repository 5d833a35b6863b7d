//! Fixed-width values that the rest of the crate is written over: addresses,
//! hashes, 256-bit amounts and spans of time.

use vstd::prelude::*;
use vstd::std_specs::cmp::PartialEqSpec;

verus! {

/// A 20-byte account address.
#[derive(Debug, Clone, Copy, Eq, Hash)]
pub struct Address {
    /// The bytes of the address, most significant first.
    pub bytes: [u8; 20],
}

/// Compares two byte arrays of one length.
fn bytes_equal<const N: usize>(a: &[u8; N], b: &[u8; N]) -> (equal: bool)
    ensures
        equal == (a@ == b@),
{
    let mut i: usize = 0;
    while i < N
        invariant
            i <= N,
            forall|j: int| 0 <= j < i ==> a@[j] == b@[j],
        decreases N - i,
    {
        if a[i] != b[i] {
            return false;
        }
        i = i + 1;
    }
    assert(a@ =~= b@);
    true
}

impl PartialEq for Address {
    fn eq(&self, other: &Self) -> (equal: bool) {
        let equal = bytes_equal(&self.bytes, &other.bytes);
        assert(self.bytes@ == other.bytes@ ==> self.bytes =~= other.bytes);
        equal
    }
}

impl vstd::std_specs::cmp::PartialEqSpecImpl for Address {
    open spec fn obeys_eq_spec() -> bool {
        true
    }

    open spec fn eq_spec(&self, other: &Self) -> bool {
        *self == *other
    }
}

impl Address {
    /// The address whose bytes are all zero.
    pub fn zero() -> (address: Self)
        ensures
            address == zero_address(),
            forall|i: int| 0 <= i < 20 ==> address.bytes@[i] == 0,
    {
        let address = Address { bytes: [0u8; 20] };
        assert(address.bytes@ =~= zero_address().bytes@);
        assert(address.bytes =~= zero_address().bytes);
        address
    }

    /// The EIP-55 text of the address: `0x` and forty hex digits, in mixed case.
    pub fn to_checksum(&self) -> (text: String)
        ensures
            text@ == eip55_text(self.bytes@),
    {
        checksum_of(self.bytes)
    }
}

/// The address whose bytes are all zero.
pub open spec fn zero_address() -> Address {
    Address {
        bytes: [
            0u8, 0u8, 0u8, 0u8, 0u8, 0u8, 0u8, 0u8, 0u8, 0u8,
            0u8, 0u8, 0u8, 0u8, 0u8, 0u8, 0u8, 0u8, 0u8, 0u8,
        ],
    }
}

/// What `alloy_primitives::Address::to_checksum` returns, without a chain id, for an
/// address of the given bytes.
pub uninterp spec fn eip55_text(bytes: Seq<u8>) -> Seq<char>;

/// Calls `alloy_primitives::Address::to_checksum` without a chain id. Claimed of it:
/// the text depends on the twenty bytes alone. That it is the EIP-55 encoding, which
/// takes a Keccak-256 hash to write down, is left unsaid.
#[verifier::external_body]
fn checksum_of(bytes: [u8; 20]) -> (text: String)
    ensures
        text@ == eip55_text(bytes@),
{
    alloy_primitives::Address::new(bytes).to_checksum(None)
}

/// A 32-byte value: a block hash, a transaction hash or a memo.
#[derive(Debug, Clone, Copy, Eq, Hash)]
pub struct B256 {
    /// The bytes, most significant first.
    pub bytes: [u8; 32],
}

impl PartialEq for B256 {
    fn eq(&self, other: &Self) -> (equal: bool) {
        let equal = bytes_equal(&self.bytes, &other.bytes);
        assert(self.bytes@ == other.bytes@ ==> self.bytes =~= other.bytes);
        equal
    }
}

impl vstd::std_specs::cmp::PartialEqSpecImpl for B256 {
    open spec fn obeys_eq_spec() -> bool {
        true
    }

    open spec fn eq_spec(&self, other: &Self) -> bool {
        *self == *other
    }
}

impl B256 {
    /// The value whose bytes are all zero.
    pub fn zero() -> (value: Self)
        ensures
            value.is_zero(),
    {
        B256 { bytes: [0u8; 32] }
    }

    /// Whether every byte is zero.
    pub open spec fn is_zero(self) -> bool {
        forall|i: int| 0 <= i < 32 ==> self.bytes@[i] == 0
    }
}

impl Default for B256 {
    fn default() -> (value: Self)
        ensures
            value.is_zero(),
    {
        B256::zero()
    }
}

/// The number of values of a 256-bit unsigned integer.
pub open spec fn two_to_the_256() -> nat {
    0x1_0000000000000000_0000000000000000_0000000000000000_0000000000000000nat
}

/// The number that four 64-bit limbs stand for, least significant first.
pub open spec fn limbs_value(limbs: Seq<u64>) -> nat {
    (limbs[0] + limbs[1] * 0x1_0000000000000000int + limbs[2]
        * 0x1_0000000000000000_0000000000000000int + limbs[3]
        * 0x1_0000000000000000_0000000000000000_0000000000000000int) as nat
}

/// A 256-bit unsigned integer.
#[derive(Debug, Clone, Copy, PartialEq, Eq, Hash)]
pub struct U256 {
    /// The limbs of the number, least significant first.
    pub limbs: [u64; 4],
}

impl View for U256 {
    type V = nat;

    open spec fn view(&self) -> nat {
        limbs_value(self.limbs@)
    }
}

impl U256 {
    /// Zero.
    pub fn zero() -> (value: Self)
        ensures
            value@ == 0,
    {
        U256 { limbs: [0u64; 4] }
    }

    /// The number of the given 64-bit integer.
    pub fn from_u64(number: u64) -> (value: Self)
        ensures
            value@ == number,
    {
        U256 { limbs: [number, 0, 0, 0] }
    }

    /// Whether this number is greater than `other`.
    pub fn exceeds(&self, other: &Self) -> (greater: bool)
        ensures
            greater == (self@ > other@),
    {
        if self.limbs[3] != other.limbs[3] {
            self.limbs[3] > other.limbs[3]
        } else if self.limbs[2] != other.limbs[2] {
            self.limbs[2] > other.limbs[2]
        } else if self.limbs[1] != other.limbs[1] {
            self.limbs[1] > other.limbs[1]
        } else {
            self.limbs[0] > other.limbs[0]
        }
    }

    /// The product of a 128-bit and a 64-bit number.
    pub fn product(a: u128, b: u64) -> (value: Self)
        ensures
            value@ == a * b,
    {
        U256 { limbs: widening_product(a, b) }
    }

    /// Adds `other` to this number, modulo 2^256.
    pub fn add_wrapping(&self, other: &Self) -> (value: Self)
        ensures
            value@ == (self@ + other@) % two_to_the_256(),
    {
        U256 { limbs: wrapping_sum(self.limbs, other.limbs) }
    }
}

/// Multiplies with `alloy_primitives::U256`, whose `*` is
/// `ruint::Uint::wrapping_mul`. Claimed of it: the limbs of the result stand for the
/// product, which has at most 192 bits and so never wraps.
#[verifier::external_body]
fn widening_product(a: u128, b: u64) -> (limbs: [u64; 4])
    ensures
        limbs_value(limbs@) == a * b,
{
    (alloy_primitives::U256::from(a) * alloy_primitives::U256::from(b)).into_limbs()
}

/// Adds with `alloy_primitives::U256`, whose `+=` is `ruint::Uint::wrapping_add`.
/// Claimed of it: the limbs of the result stand for the sum modulo 2^256.
#[verifier::external_body]
fn wrapping_sum(a: [u64; 4], b: [u64; 4]) -> (limbs: [u64; 4])
    ensures
        limbs_value(limbs@) == (limbs_value(a@) + limbs_value(b@)) % two_to_the_256(),
{
    let mut sum = alloy_primitives::U256::from_limbs(a);
    sum += alloy_primitives::U256::from_limbs(b);
    sum.into_limbs()
}

/// A span of time, in whole seconds and nanoseconds beyond them.
#[derive(Debug, Clone, Copy, PartialEq, Eq, Hash, Structural)]
pub struct Duration {
    /// Whole seconds.
    pub secs: u64,
    /// Nanoseconds beyond the whole seconds, below one billion.
    pub nanos: u32,
}

impl Duration {
    /// The whole span in nanoseconds.
    pub open spec fn total_nanos(self) -> nat {
        (self.secs * 1_000_000_000 + self.nanos) as nat
    }

    /// The span of the given number of milliseconds.
    pub fn from_millis(millis: u64) -> (span: Self)
        ensures
            span.total_nanos() == millis * 1_000_000,
            span.nanos < 1_000_000_000,
    {
        let rest: u64 = millis % 1000;
        Duration { secs: millis / 1000, nanos: (rest * 1_000_000) as u32 }
    }
}

/// What limbs stand for: the lowest limb, and 2^64 times what the limbs above it stand
/// for.
pub proof fn law_limbs_are_digits_of_base_two_to_the_64(limbs: Seq<u64>)
    requires
        limbs.len() == 4,
    ensures
        limbs_value(limbs) == limbs[0] + 0x1_0000000000000000 * limbs_value(
            seq![limbs[1], limbs[2], limbs[3], 0],
        ),
        limbs_value(limbs) < two_to_the_256(),
        limbs_value(limbs) == 0 <==> limbs[0] == 0 && limbs[1] == 0 && limbs[2] == 0 && limbs[3]
            == 0,
{
}

/// 2^256 is the fourth power of 2^64.
pub proof fn law_two_to_the_256()
    ensures
        two_to_the_256() == 0x1_0000000000000000 * (0x1_0000000000000000 * (0x1_0000000000000000
            * 0x1_0000000000000000)),
{
}

/// A 256-bit number is what its limbs stand for.
pub proof fn law_numbers_are_their_limbs(number: U256)
    ensures
        number@ == limbs_value(number.limbs@),
{
}

/// The zero address has twenty zero bytes, and no other address has.
pub proof fn law_zero_address(address: Address)
    ensures
        address == zero_address() <==> forall|i: int| 0 <= i < 20 ==> address.bytes@[i] == 0,
{
    assert forall|i: int| 0 <= i < 20 implies zero_address().bytes@[i] == 0 by {}
    if forall|i: int| 0 <= i < 20 ==> address.bytes@[i] == 0 {
        assert(address.bytes@ =~= zero_address().bytes@);
        assert(address.bytes =~= zero_address().bytes);
    }
}

/// A value is zero exactly if its 32 bytes are.
pub proof fn law_zero_value(value: B256)
    ensures
        value.is_zero() <==> forall|i: int| 0 <= i < 32 ==> value.bytes@[i] == 0,
{
}

/// A second has a billion nanoseconds.
pub proof fn law_spans_add_up(span: Duration)
    ensures
        span.total_nanos() == 1_000_000_000 * span.secs + span.nanos,
{
}

/// Addresses are equal exactly if their bytes are.
pub proof fn law_addresses_are_equal_by_bytes(a: Address, b: Address)
    ensures
        Address::obeys_eq_spec(),
        a.eq_spec(&b) <==> forall|i: int| 0 <= i < 20 ==> a.bytes@[i] == b.bytes@[i],
{
    if forall|i: int| 0 <= i < 20 ==> a.bytes@[i] == b.bytes@[i] {
        assert(a.bytes@ =~= b.bytes@);
        assert(a.bytes =~= b.bytes);
    }
}

/// Values are equal exactly if their bytes are.
pub proof fn law_values_are_equal_by_bytes(a: B256, b: B256)
    ensures
        B256::obeys_eq_spec(),
        a.eq_spec(&b) <==> forall|i: int| 0 <= i < 32 ==> a.bytes@[i] == b.bytes@[i],
{
    if forall|i: int| 0 <= i < 32 ==> a.bytes@[i] == b.bytes@[i] {
        assert(a.bytes@ =~= b.bytes@);
        assert(a.bytes =~= b.bytes);
    }
}

} // verus!
