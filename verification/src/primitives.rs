//! Plain values that transactions are made of, and their textual forms.

use vstd::prelude::*;

verus! {

/// An account address.
#[derive(Debug, Clone, Copy, PartialEq, Eq)]
pub struct Address {
    pub bytes: [u8; 20],
}

impl Address {
    /// The address whose bytes are all zero.
    pub fn zero() -> (r: Address)
        ensures
            r.bytes@ == Seq::new(20, |i: int| 0u8),
    {
        let bytes: [u8; 20] = [0;20];
        assert(bytes@ =~= Seq::new(20, |i: int| 0u8));
        Address { bytes }
    }
}

/// A transaction hash.
#[derive(Debug, Clone, Copy, PartialEq, Eq)]
pub struct TxHash {
    pub bytes: [u8; 32],
}

/// A 256-bit unsigned number, in two halves.
#[derive(Debug, Clone, Copy, PartialEq, Eq)]
pub struct U256 {
    pub high: u128,
    pub low: u128,
}

impl View for U256 {
    type V = nat;

    /// The number itself.
    open spec fn view(&self) -> nat {
        (self.high * 0x1_0000_0000_0000_0000_0000_0000_0000_0000 + self.low) as nat
    }
}

impl U256 {
    /// The number with this value.
    pub fn from_u128(value: u128) -> (r: U256)
        ensures
            r@ == value,
    {
        U256 { high: 0, low: value }
    }

    /// The number as a `u128`, where it fits.
    pub fn to_u128(self) -> (r: Option<u128>)
        ensures
            r is Some <==> self@ <= u128::MAX,
            r matches Some(value) ==> value == self@,
    {
        if self.high == 0 {
            Some(self.low)
        } else {
            None
        }
    }

    /// The number as a `u64`, where it fits.
    pub fn to_u64(self) -> (r: Option<u64>)
        ensures
            r is Some <==> self@ <= u64::MAX,
            r matches Some(value) ==> value == self@,
    {
        if self.high == 0 && self.low <= u64::MAX as u128 {
            Some(self.low as u64)
        } else {
            None
        }
    }
}

/// Whether a number, if it is given, fits into a `u64`.
pub open spec fn fits_u64(n: Option<U256>) -> bool {
    n matches Some(n) ==> n@ <= u64::MAX
}

/// Whether a number, if it is given, fits into a `u128`.
pub open spec fn fits_u128(n: Option<U256>) -> bool {
    n matches Some(n) ==> n@ <= u128::MAX
}

/// Tests whether a number, if it is given, fits into a `u64`.
pub fn check_fits_u64(n: Option<U256>) -> (r: bool)
    ensures
        r == fits_u64(n),
{
    match n {
        Some(n) => n.to_u64().is_some(),
        None => true,
    }
}

/// Tests whether a number, if it is given, fits into a `u128`.
pub fn check_fits_u128(n: Option<U256>) -> (r: bool)
    ensures
        r == fits_u128(n),
{
    match n {
        Some(n) => n.to_u128().is_some(),
        None => true,
    }
}

/// The lowercase hexadecimal digit of a number below sixteen.
pub open spec fn hex_digit(n: int) -> char {
    if n < 10 {
        ('0' as int + n) as char
    } else {
        ('a' as int + (n - 10)) as char
    }
}

/// Two lowercase hexadecimal digits for each byte, the high one first, behind `0x`.
pub open spec fn prefixed_hex(bytes: Seq<u8>) -> Seq<char> {
    Seq::new(
        2 + 2 * bytes.len(),
        |i: int|
            if i == 0 {
                '0'
            } else if i == 1 {
                'x'
            } else if i % 2 == 0 {
                hex_digit(bytes[(i - 2) / 2] as int / 16)
            } else {
                hex_digit(bytes[(i - 2) / 2] as int % 16)
            },
    )
}

/// Different bytes are written differently.
pub proof fn prefixed_hex_is_injective(a: Seq<u8>, b: Seq<u8>)
    requires
        prefixed_hex(a) == prefixed_hex(b),
    ensures
        a == b,
{
    assert(prefixed_hex(a).len() == 2 + 2 * a.len());
    assert(prefixed_hex(b).len() == 2 + 2 * b.len());
    assert forall|i: int| 0 <= i < a.len() implies a[i] == b[i] by {
        let high = 2 + 2 * i;
        let low = 3 + 2 * i;
        assert((high - 2) / 2 == i && (low - 2) / 2 == i && high % 2 == 0 && low % 2 == 1);
        assert(prefixed_hex(a)[high] == hex_digit(a[i] as int / 16));
        assert(prefixed_hex(b)[high] == hex_digit(b[i] as int / 16));
        assert(prefixed_hex(a)[low] == hex_digit(a[i] as int % 16));
        assert(prefixed_hex(b)[low] == hex_digit(b[i] as int % 16));
    }
    assert(a =~= b);
}

/// Calls `hex::encode_prefixed` of `alloy_primitives`: the bytes in lowercase hexadecimal
/// behind `0x`.
#[verifier::external_body]
pub(crate) fn encode_prefixed(bytes: &[u8]) -> (r: String)
    ensures
        r@ == prefixed_hex(bytes@),
{
    alloy_primitives::hex::encode_prefixed(bytes)
}

/// The checksummed text of an address with these bytes.
pub uninterp spec fn checksummed(bytes: Seq<u8>) -> Seq<char>;

/// Calls `Display` of `alloy_primitives::Address`: the text depends on the bytes alone.
#[verifier::external_body]
pub(crate) fn display_address(address: &Address) -> (r: String)
    ensures
        r@ == checksummed(address.bytes@),
{
    alloy_primitives::Address::new(address.bytes).to_string()
}

/// Calls `Debug` of `alloy_primitives::B256`: the hash in lowercase hexadecimal behind `0x`.
#[verifier::external_body]
pub(crate) fn debug_hash(hash: &TxHash) -> (r: String)
    ensures
        r@ == prefixed_hex(hash.bytes@),
{
    format!("{:?}", alloy_primitives::B256::new(hash.bytes))
}

/// What `Chain::is_legacy` says of the chain with this id.
pub uninterp spec fn chain_is_legacy(id: u64) -> bool;

/// Calls `Chain::is_legacy` of `alloy_chains` on the chain with this id: the answer depends on
/// the id alone.
#[verifier::external_body]
pub(crate) fn is_legacy_chain(id: u64) -> (r: bool)
    ensures
        r == chain_is_legacy(id),
{
    alloy_chains::Chain::from(id).is_legacy()
}

/// A number is its high half, which counts as many as the low half has values, and its low half.
pub proof fn number_is_its_halves(n: U256)
    ensures
        n@ == n.high * 0x1_0000_0000_0000_0000_0000_0000_0000_0000 + n.low,
        n.high == 0 <==> n@ <= u128::MAX,
        n@ <= u128::MAX ==> n@ == n.low,
{
}

/// A given number fits into a word exactly if it is at most the largest number of the word, and a
/// number that is not given fits.
pub proof fn numbers_fit_up_to_the_largest(n: U256)
    ensures
        fits_u64(None),
        fits_u128(None),
        fits_u64(Some(n)) <==> n.high == 0 && n.low <= 0xffff_ffff_ffff_ffff,
        fits_u128(Some(n)) <==> n.high == 0,
{
}

/// Bytes are written behind `0x` in two digits each, of which the first counts sixteen times what
/// the second does; the digits are those below ten and the lowercase letters up to `f`.
pub proof fn hexadecimal_digits_are_those_of_the_bytes(bytes: Seq<u8>, i: int)
    requires
        0 <= i < bytes.len(),
    ensures
        prefixed_hex(bytes).len() == 2 + 2 * bytes.len(),
        prefixed_hex(bytes)[0] == '0',
        prefixed_hex(bytes)[1] == 'x',
        ({
            let high = bytes[i] as int / 16;
            let low = bytes[i] as int % 16;
            &&& prefixed_hex(bytes)[2 + 2 * i] == if high < 10 {
                ('0' as int + high) as char
            } else {
                ('a' as int + high - 10) as char
            }
            &&& prefixed_hex(bytes)[3 + 2 * i] == if low < 10 {
                ('0' as int + low) as char
            } else {
                ('a' as int + low - 10) as char
            }
        }),
{
}

} // verus!
