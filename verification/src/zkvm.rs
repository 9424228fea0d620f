//! The form in which an input is handed to the zkVM.

use vstd::prelude::*;

verus! {

/// The bytes of words, the least significant byte of each first.
pub open spec fn little_endian(words: Seq<u32>) -> Seq<u8> {
    Seq::new(4 * words.len(), |i: int| byte_of(words[i / 4], i % 4))
}

/// The bytes of words, the most significant byte of each first.
pub open spec fn big_endian(words: Seq<u32>) -> Seq<u8> {
    Seq::new(4 * words.len(), |i: int| byte_of(words[i / 4], 3 - i % 4))
}

/// A byte of a word, counted from the least significant one.
pub open spec fn byte_of(word: u32, position: int) -> u8 {
    if position == 0 {
        (word % 256) as u8
    } else if position == 1 {
        (word / 256 % 256) as u8
    } else if position == 2 {
        (word / 65536 % 256) as u8
    } else {
        (word / 16777216) as u8
    }
}

/// The bytes of words in the byte order of the machine.
pub open spec fn machine_order(words: Seq<u32>) -> Seq<u8> {
    match vstd::endian::endianness() {
        vstd::endian::Endian::Little => little_endian(words),
        vstd::endian::Endian::Big => big_endian(words),
    }
}

/// Calls `bytemuck::cast_slice` from words to bytes, and copies the result. The words are laid out
/// one after the other, with the byte order of the machine.
#[verifier::external_body]
fn word_bytes(words: &[u32]) -> (r: Vec<u8>)
    ensures
        r@ == machine_order(words@),
{
    bytemuck::cast_slice(words).to_vec()
}

/// Turns a serialized input into bytes suitable for the RISC Zero zkVM, which reads aligned words:
/// the words one after the other, in the byte order of the machine.
pub fn to_zkvm_input_bytes(words: &[u32]) -> (r: Vec<u8>)
    ensures
        r@ == machine_order(words@),
{
    word_bytes(words)
}

/// The bytes are those of the words: in either order, the four bytes at the place of a word make up
/// the word again, each byte with the weight of its position.
pub proof fn law_bytes_make_up_words(words: Seq<u32>, i: int)
    requires
        0 <= i < words.len(),
    ensures
        words[i] == little_endian(words)[4 * i] + 256 * little_endian(words)[4 * i + 1] + 65536
            * little_endian(words)[4 * i + 2] + 16777216 * little_endian(words)[4 * i + 3],
        words[i] == 16777216 * big_endian(words)[4 * i] + 65536 * big_endian(words)[4 * i + 1] + 256
            * big_endian(words)[4 * i + 2] + big_endian(words)[4 * i + 3],
        machine_order(words) == little_endian(words) || machine_order(words) == big_endian(words),
{
    let w = words[i];
    assert((4 * i) / 4 == i && (4 * i) % 4 == 0);
    assert((4 * i + 1) / 4 == i && (4 * i + 1) % 4 == 1);
    assert((4 * i + 2) / 4 == i && (4 * i + 2) % 4 == 2);
    assert((4 * i + 3) / 4 == i && (4 * i + 3) % 4 == 3);
    assert(w / 65536 == w / 256 / 256);
    assert(w / 16777216 == w / 65536 / 256);
}

proof fn lemma_bytes_of_word(a: u32, b: u32)
    requires
        forall|p: int| 0 <= p < 4 ==> byte_of(a, p) == byte_of(b, p),
    ensures
        a == b,
{
    assert(byte_of(a, 0) == byte_of(b, 0));
    assert(byte_of(a, 1) == byte_of(b, 1));
    assert(byte_of(a, 2) == byte_of(b, 2));
    assert(byte_of(a, 3) == byte_of(b, 3));
}

/// Nothing is lost: every word takes four bytes, and in either byte order different words give
/// different bytes.
pub proof fn law_bytes_determine_words(a: Seq<u32>, b: Seq<u32>)
    ensures
        little_endian(a).len() == 4 * a.len(),
        big_endian(a).len() == 4 * a.len(),
        little_endian(a) == little_endian(b) ==> a == b,
        big_endian(a) == big_endian(b) ==> a == b,
        machine_order(a) == machine_order(b) ==> a == b,
{
    if little_endian(a) == little_endian(b) {
        assert(little_endian(a).len() == little_endian(b).len());
        assert forall|i: int| 0 <= i < a.len() implies a[i] == b[i] by {
            assert forall|p: int| 0 <= p < 4 implies byte_of(a[i], p) == byte_of(b[i], p) by {
                assert(little_endian(a)[4 * i + p] == little_endian(b)[4 * i + p]);
                assert((4 * i + p) / 4 == i && (4 * i + p) % 4 == p);
            }
            lemma_bytes_of_word(a[i], b[i]);
        }
        assert(a =~= b);
    }
    if big_endian(a) == big_endian(b) {
        assert(big_endian(a).len() == big_endian(b).len());
        assert forall|i: int| 0 <= i < a.len() implies a[i] == b[i] by {
            assert forall|p: int| 0 <= p < 4 implies byte_of(a[i], p) == byte_of(b[i], p) by {
                let q = 3 - p;
                assert(big_endian(a)[4 * i + q] == big_endian(b)[4 * i + q]);
                assert((4 * i + q) / 4 == i && (4 * i + q) % 4 == q);
            }
            lemma_bytes_of_word(a[i], b[i]);
        }
        assert(a =~= b);
    }
}

} // verus!
