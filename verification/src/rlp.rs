//! The RLP encoding of the values that the tries hold, and how a leaf is read back.

use vstd::prelude::*;

use crate::primitives::{B256, U256};

verus! {

/// An account as the state trie holds it.
#[derive(Clone, Copy, Debug, PartialEq, Eq)]
pub struct TrieAccount {
    pub nonce: u64,
    pub balance: U256,
    pub storage_root: B256,
    pub code_hash: B256,
}

/// The big-endian digits of a number in base 256, without leading zeros.
pub open spec fn be_digits(n: nat) -> Seq<u8>
    decreases n,
{
    if n == 0 {
        Seq::empty()
    } else {
        be_digits(n / 256).push((n % 256) as u8)
    }
}

/// A byte string without its leading zeros.
pub open spec fn significant(be: Seq<u8>) -> Seq<u8>
    decreases be.len(),
{
    if be.len() == 0 || be[0] != 0 {
        be
    } else {
        significant(be.drop_first())
    }
}

/// The RLP encoding of a byte string of at most 55 bytes.
pub open spec fn rlp_string(s: Seq<u8>) -> Seq<u8> {
    if s.len() == 1 && s[0] < 0x80 {
        s
    } else {
        seq![(0x80 + s.len()) as u8] + s
    }
}

/// The RLP encoding of a storage value.
pub open spec fn slot_rlp(value: U256) -> Seq<u8> {
    rlp_string(significant(value.be@))
}

/// The four fields of an account, each RLP encoded.
pub open spec fn account_payload(a: TrieAccount) -> Seq<u8> {
    rlp_string(be_digits(a.nonce as nat)) + slot_rlp(a.balance) + rlp_string(a.storage_root@)
        + rlp_string(a.code_hash@)
}

/// The RLP encoding of an account: a list of its four fields, whose payload takes between 68 and
/// 108 bytes.
pub open spec fn account_rlp(a: TrieAccount) -> Seq<u8> {
    seq![0xf8u8, account_payload(a).len() as u8] + account_payload(a)
}

proof fn lemma_significant(be: Seq<u8>)
    ensures
        significant(be).len() <= be.len(),
        significant(be) == be.skip(be.len() - significant(be).len()),
        forall|i: int| 0 <= i < be.len() - significant(be).len() ==> be[i] == 0,
    decreases be.len(),
{
    if be.len() == 0 || be[0] != 0 {
        assert(be.skip(0) =~= be);
    } else {
        let rest = be.drop_first();
        lemma_significant(rest);
        let k = rest.len() - significant(rest).len();
        assert(rest.skip(k) =~= be.skip(k + 1));
        assert forall|i: int| 0 <= i < be.len() - significant(be).len() implies be[i] == 0 by {
            if i > 0 {
                assert(rest[i - 1] == be[i]);
            }
        }
    }
}

proof fn lemma_significant_injective(a: U256, b: U256)
    requires
        significant(a.be@) == significant(b.be@),
    ensures
        a == b,
{
    lemma_significant(a.be@);
    lemma_significant(b.be@);
    let k = 32 - significant(a.be@).len();
    assert forall|i: int| 0 <= i < 32 implies a.be@[i] == b.be@[i] by {
        if i >= k {
            assert(a.be@[i] == a.be@.skip(k)[i - k]);
            assert(b.be@[i] == b.be@.skip(k)[i - k]);
        }
    }
    assert(a.be =~= b.be);
}

proof fn lemma_digits_injective(n: nat, m: nat)
    requires
        be_digits(n) == be_digits(m),
    ensures
        n == m,
    decreases n,
{
    if n > 0 && m > 0 {
        assert(be_digits(n).drop_last() =~= be_digits(n / 256));
        assert(be_digits(m).drop_last() =~= be_digits(m / 256));
        assert(be_digits(n).last() == (n % 256) as u8);
        assert(be_digits(m).last() == (m % 256) as u8);
        assert(n % 256 == m % 256);
        lemma_digits_injective(n / 256, m / 256);
    } else if n > 0 {
        assert(be_digits(n).len() > 0);
        assert(be_digits(m) =~= Seq::<u8>::empty());
    } else if m > 0 {
        assert(be_digits(m).len() > 0);
        assert(be_digits(n) =~= Seq::<u8>::empty());
    }
}

spec fn pow256(k: nat) -> nat
    decreases k,
{
    if k == 0 {
        1
    } else {
        256 * pow256((k - 1) as nat)
    }
}

proof fn lemma_digits_len(n: nat, k: nat)
    requires
        n < pow256(k),
    ensures
        be_digits(n).len() <= k,
    decreases k,
{
    if n > 0 {
        assert(k > 0);
        lemma_digits_len(n / 256, (k - 1) as nat);
    }
}

proof fn lemma_nonce_len(nonce: u64)
    ensures
        be_digits(nonce as nat).len() <= 8,
{
    reveal_with_fuel(pow256, 9);
    assert(pow256(8) == 0x1_0000_0000_0000_0000);
    lemma_digits_len(nonce as nat, 8);
}

/// An encoded string can be told from what follows it.
proof fn lemma_string_prefix(s: Seq<u8>, s_tail: Seq<u8>, t: Seq<u8>, t_tail: Seq<u8>)
    requires
        s.len() <= 55,
        t.len() <= 55,
        rlp_string(s) + s_tail == rlp_string(t) + t_tail,
    ensures
        s == t,
        s_tail == t_tail,
{
    let x = rlp_string(s) + s_tail;
    let y = rlp_string(t) + t_tail;
    assert(x[0] == y[0]);
    assert(rlp_string(s).len() == rlp_string(t).len()) by {
        assert(x[0] == rlp_string(s)[0]);
        assert(y[0] == rlp_string(t)[0]);
    }
    let k = rlp_string(s).len() as int;
    assert(x.take(k) =~= rlp_string(s));
    assert(y.take(k) =~= rlp_string(t));
    assert(x.skip(k) =~= s_tail);
    assert(y.skip(k) =~= t_tail);
    assert(s =~= rlp_string(s).skip(k - s.len()));
    assert(t =~= rlp_string(t).skip(k - t.len()));
}

proof fn lemma_concat_four(a: Seq<u8>, b: Seq<u8>, c: Seq<u8>, d: Seq<u8>)
    ensures
        a + b + c + d == a + (b + (c + d)),
{
    assert(a + b + c + d =~= a + (b + (c + d)));
}

/// Four encoded strings in a row can be told apart.
proof fn lemma_four_strings(
    s1: Seq<u8>,
    s2: Seq<u8>,
    s3: Seq<u8>,
    s4: Seq<u8>,
    t1: Seq<u8>,
    t2: Seq<u8>,
    t3: Seq<u8>,
    t4: Seq<u8>,
)
    requires
        s1.len() <= 55,
        s2.len() <= 55,
        s3.len() <= 55,
        s4.len() <= 55,
        t1.len() <= 55,
        t2.len() <= 55,
        t3.len() <= 55,
        t4.len() <= 55,
        rlp_string(s1) + rlp_string(s2) + rlp_string(s3) + rlp_string(s4) == rlp_string(t1)
            + rlp_string(t2) + rlp_string(t3) + rlp_string(t4),
    ensures
        s1 == t1,
        s2 == t2,
        s3 == t3,
        s4 == t4,
{
    let a3 = rlp_string(s3) + rlp_string(s4);
    let b3 = rlp_string(t3) + rlp_string(t4);
    let a2 = rlp_string(s2) + a3;
    let b2 = rlp_string(t2) + b3;
    lemma_concat_four(rlp_string(s1), rlp_string(s2), rlp_string(s3), rlp_string(s4));
    lemma_concat_four(rlp_string(t1), rlp_string(t2), rlp_string(t3), rlp_string(t4));
    lemma_string_prefix(s1, a2, t1, b2);
    lemma_string_prefix(s2, a3, t2, b3);
    lemma_string_prefix(s3, rlp_string(s4), t3, rlp_string(t4));
    lemma_string_injective(s4, t4);
}

proof fn lemma_string_injective(s: Seq<u8>, t: Seq<u8>)
    requires
        s.len() <= 55,
        t.len() <= 55,
        rlp_string(s) == rlp_string(t),
    ensures
        s == t,
{
    let none = Seq::<u8>::empty();
    assert(rlp_string(s) + none =~= rlp_string(s));
    assert(rlp_string(t) + none =~= rlp_string(t));
    lemma_string_prefix(s, none, t, none);
}

/// Two storage values with the same encoding are equal.
pub proof fn law_slot_rlp_injective(a: U256, b: U256)
    requires
        slot_rlp(a) == slot_rlp(b),
    ensures
        a == b,
{
    lemma_significant(a.be@);
    lemma_significant(b.be@);
    lemma_string_injective(significant(a.be@), significant(b.be@));
    lemma_significant_injective(a, b);
}

/// Two accounts with the same encoding are equal.
pub proof fn law_account_rlp_injective(a: TrieAccount, b: TrieAccount)
    requires
        account_rlp(a) == account_rlp(b),
    ensures
        a == b,
{
    lemma_significant(a.balance.be@);
    lemma_significant(b.balance.be@);
    lemma_nonce_len(a.nonce);
    lemma_nonce_len(b.nonce);
    assert(account_rlp(a).skip(2) =~= account_payload(a));
    assert(account_rlp(b).skip(2) =~= account_payload(b));
    lemma_four_strings(
        be_digits(a.nonce as nat),
        significant(a.balance.be@),
        a.storage_root@,
        a.code_hash@,
        be_digits(b.nonce as nat),
        significant(b.balance.be@),
        b.storage_root@,
        b.code_hash@,
    );
    lemma_digits_injective(a.nonce as nat, b.nonce as nat);
    lemma_significant_injective(a.balance, b.balance);
    assert(a.storage_root =~= b.storage_root);
    assert(a.code_hash =~= b.code_hash);
}

/// `alloy_rlp::Error`, the reason for which a decoding failed.
#[verifier::external_type_specification]
#[verifier::external_body]
pub struct ExRlpError(alloy_rlp::Error);

/// Calls `alloy_rlp::encode` on a 256-bit integer: the result is its encoding as a byte string
/// without leading zeros.
#[verifier::external_body]
pub(crate) fn encode_slot(value: &U256) -> (r: Vec<u8>)
    ensures
        r@ == slot_rlp(*value),
{
    alloy_rlp::encode(alloy_primitives::U256::from_be_bytes(value.be))
}

/// Calls `alloy_rlp::decode_exact` for a 256-bit integer. Decoding accepts exactly the encodings:
/// leading zeros, a header longer than needed and bytes left over are each an error.
#[verifier::external_body]
pub(crate) fn decode_slot(rlp: &[u8]) -> (r: Result<U256, alloy_rlp::Error>)
    ensures
        match r {
            Ok(value) => rlp@ == slot_rlp(value),
            Err(_) => forall|value: U256| rlp@ != #[trigger] slot_rlp(value),
        },
{
    let value: alloy_primitives::U256 = alloy_rlp::decode_exact(rlp)?;
    Ok(U256 { be: value.to_be_bytes() })
}

/// Calls `alloy_rlp::encode` on an `alloy_trie::TrieAccount`: the result is the list of its four
/// fields.
#[verifier::external_body]
pub(crate) fn encode_account(account: &TrieAccount) -> (r: Vec<u8>)
    ensures
        r@ == account_rlp(*account),
{
    alloy_rlp::encode(alloy_trie::TrieAccount {
        nonce: account.nonce,
        balance: alloy_primitives::U256::from_be_bytes(account.balance.be),
        storage_root: alloy_primitives::B256::new(account.storage_root),
        code_hash: alloy_primitives::B256::new(account.code_hash),
    })
}

/// Calls `alloy_rlp::decode_exact` for an `alloy_trie::TrieAccount`. Decoding accepts exactly the
/// encodings: any other length, order or header is an error.
#[verifier::external_body]
pub(crate) fn decode_account(rlp: &[u8]) -> (r: Result<TrieAccount, alloy_rlp::Error>)
    ensures
        match r {
            Ok(account) => rlp@ == account_rlp(account),
            Err(_) => forall|account: TrieAccount| rlp@ != #[trigger] account_rlp(account),
        },
{
    let account: alloy_trie::TrieAccount = alloy_rlp::decode_exact(rlp)?;
    Ok(TrieAccount {
        nonce: account.nonce,
        balance: U256 { be: account.balance.to_be_bytes() },
        storage_root: account.storage_root.0,
        code_hash: account.code_hash.0,
    })
}

/// Reads a leaf of a storage trie. A key without a leaf reads as nothing; a leaf that is not the
/// encoding of a value is an error.
pub fn slot_from_leaf(leaf: Option<Vec<u8>>) -> (r: Result<Option<U256>, alloy_rlp::Error>)
    ensures
        match leaf {
            None => r == Ok::<Option<U256>, alloy_rlp::Error>(None),
            Some(rlp) => match r {
                Ok(value) => value matches Some(value) && rlp@ == slot_rlp(value),
                Err(_) => forall|value: U256| rlp@ != #[trigger] slot_rlp(value),
            },
        },
{
    match leaf {
        None => Ok(None),
        Some(rlp) => match decode_slot(rlp.as_slice()) {
            Ok(value) => Ok(Some(value)),
            Err(error) => Err(error),
        },
    }
}

/// Reads a leaf of the state trie. A key without a leaf reads as nothing; a leaf that is not the
/// encoding of an account is an error.
pub fn account_from_leaf(leaf: Option<Vec<u8>>) -> (r: Result<Option<TrieAccount>, alloy_rlp::Error>)
    ensures
        match leaf {
            None => r == Ok::<Option<TrieAccount>, alloy_rlp::Error>(None),
            Some(rlp) => match r {
                Ok(account) => account matches Some(account) && rlp@ == account_rlp(account),
                Err(_) => forall|account: TrieAccount| rlp@ != #[trigger] account_rlp(account),
            },
        },
{
    match leaf {
        None => Ok(None),
        Some(rlp) => match decode_account(rlp.as_slice()) {
            Ok(account) => Ok(Some(account)),
            Err(error) => Err(error),
        },
    }
}

} // verus!
