//! Byte-level value types, and the Keccak-256 digest.

use vstd::prelude::*;

verus! {

/// A 32-byte word: a digest, a trie key or a root hash.
pub type B256 = [u8; 32];

/// A 20-byte account address.
pub type Address = [u8; 20];

/// A 256-bit unsigned integer, held as its 32 big-endian bytes.
#[derive(Clone, Copy, Debug, PartialEq, Eq)]
pub struct U256 {
    pub be: [u8; 32],
}

impl U256 {
    /// Every byte of the integer is zero.
    pub open spec fn spec_is_zero(&self) -> bool {
        forall|i: int| 0 <= i < 32 ==> self.be@[i] == 0
    }

    /// The integer zero.
    pub fn zero() -> (r: U256)
        ensures
            r.spec_is_zero(),
            r.be@ == Seq::new(32, |i: int| 0u8),
    {
        U256 { be: [0; 32] }
    }

    /// Tells whether the integer is zero.
    pub fn is_zero(&self) -> (r: bool)
        ensures
            r == self.spec_is_zero(),
            r == (self.be@ == Seq::new(32, |i: int| 0u8)),
    {
        let mut i: usize = 0;
        while i < 32
            invariant
                i <= 32,
                forall|j: int| 0 <= j < i ==> self.be@[j] == 0,
            decreases 32 - i,
        {
            if self.be[i] != 0 {
                assert(self.be@[i as int] != Seq::new(32, |i: int| 0u8)[i as int]);
                return false;
            }
            i += 1;
        }
        assert(self.be@ =~= Seq::new(32, |i: int| 0u8));
        true
    }
}

/// Two zero integers are the same value.
pub proof fn law_zero_is_unique(a: U256, b: U256)
    requires
        a.spec_is_zero(),
        b.spec_is_zero(),
    ensures
        a == b,
{
    assert(a.be =~= b.be);
}

/// Zero is the integer whose 32 bytes are all zero, and no other.
pub proof fn law_zero_bytes(a: U256)
    ensures
        a.spec_is_zero() <==> a.be@ == Seq::new(32, |i: int| 0u8),
{
    if a.spec_is_zero() {
        assert(a.be@ =~= Seq::new(32, |i: int| 0u8));
    } else if a.be@ == Seq::new(32, |i: int| 0u8) {
        let i = choose|i: int| 0 <= i < 32 && a.be@[i] != 0;
        assert(a.be@[i] == Seq::new(32, |i: int| 0u8)[i]);
    }
}

/// The Keccak-256 digest of a byte string.
pub uninterp spec fn keccak256_digest(data: Seq<u8>) -> B256;

/// Calls `alloy_primitives::keccak256`. The result is the digest of the bytes, a function of them
/// alone.
#[verifier::external_body]
pub(crate) fn keccak256(data: &[u8]) -> (r: B256)
    ensures
        r == keccak256_digest(data@),
{
    alloy_primitives::keccak256(data).0
}

/// Reads `alloy_primitives::KECCAK256_EMPTY`, documented as the digest of the empty string.
#[verifier::external_body]
pub(crate) fn keccak256_empty() -> (r: B256)
    ensures
        r == keccak256_digest(Seq::<u8>::empty()),
{
    alloy_primitives::KECCAK256_EMPTY.0
}

/// The root hash of a trie that holds nothing.
pub open spec fn empty_root() -> B256 {
    [
        0x56u8, 0xe8u8, 0x1fu8, 0x17u8, 0x1bu8, 0xccu8, 0x55u8, 0xa6u8, 0xffu8, 0x83u8, 0x45u8,
        0xe6u8, 0x92u8, 0xc0u8, 0xf8u8, 0x6eu8, 0x5bu8, 0x48u8, 0xe0u8, 0x1bu8, 0x99u8, 0x6cu8,
        0xadu8, 0xc0u8, 0x01u8, 0x62u8, 0x2fu8, 0xb5u8, 0xe3u8, 0x63u8, 0xb4u8, 0x21u8,
    ]
}

/// Reads `alloy_trie::EMPTY_ROOT_HASH`, the constant spelled out by `empty_root`.
#[verifier::external_body]
pub(crate) fn empty_root_hash() -> (r: B256)
    ensures
        r == empty_root(),
{
    alloy_trie::EMPTY_ROOT_HASH.0
}

} // verus!
