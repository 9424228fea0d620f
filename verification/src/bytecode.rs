//! The bytecodes of a witness.

use revm::bytecode::Bytecode;
use vstd::prelude::*;

use crate::primitives::B256;
use crate::state_root::{distinct_keys, has_key};
use crate::tables::{byte_strings, listed, BytesTable};

verus! {

/// `revm::bytecode::Bytecode`, a bytecode that is ready to be executed.
#[verifier::external_type_specification]
#[verifier::external_body]
pub struct ExBytecode(Bytecode);

/// The bytecode that raw bytes stand for.
pub uninterp spec fn bytecode_of(code: Seq<u8>) -> Bytecode;

/// The bytes can be read as a bytecode: where they begin like a delegation, they are one, with the
/// version 0 and an address.
pub open spec fn is_raw_bytecode(code: Seq<u8>) -> bool {
    code.len() >= 2 && code[0] == 0xef && code[1] == 0x01 ==> code.len() == 23 && code[2] == 0
}

/// Tells whether bytes can be read as a bytecode.
pub fn check_raw_bytecode(code: &[u8]) -> (r: bool)
    ensures
        r == is_raw_bytecode(code@),
        !r <==> code@.len() >= 2 && code@[0] == 0xef && code@[1] == 0x01 && (code@.len() != 23
            || code@[2] != 0),
{
    if code.len() >= 2 && code[0] == 0xef && code[1] == 0x01 {
        code.len() == 23 && code[2] == 0
    } else {
        true
    }
}

/// Calls `Bytecode::new_raw`, which panics on bytes that begin like a delegation and are none. The
/// result is a function of the bytes.
#[verifier::external_body]
fn raw_bytecode(code: Vec<u8>) -> (r: Bytecode)
    requires
        is_raw_bytecode(code@),
    ensures
        r == bytecode_of(code@),
{
    Bytecode::new_raw(code.into())
}

proof fn lemma_listed(items: Seq<(B256, Vec<u8>)>, word: B256)
    ensures
        listed(items).contains_key(word) <==> has_key(items, word),
        distinct_keys(items) ==> forall|i: int|
            0 <= i < items.len() && (#[trigger] items[i]).0 == word ==> listed(items)[word]
                == items[i].1@,
    decreases items.len(),
{
    if items.len() > 0 {
        let before = items.drop_last();
        lemma_listed(before, word);
        if has_key(before, word) {
            let i = choose|i: int| 0 <= i < before.len() && #[trigger] before[i].0 == word;
            assert(items[i].0 == word);
        }
        if has_key(items, word) && items.last().0 != word {
            let i = choose|i: int| 0 <= i < items.len() && #[trigger] items[i].0 == word;
            assert(before[i].0 == word);
        }
        if distinct_keys(items) {
            assert(distinct_keys(before));
            assert forall|i: int| 0 <= i < items.len() && (#[trigger] items[i]).0 == word implies
                listed(items)[word] == items[i].1@ by {
                if i < before.len() {
                    assert(before[i] == items[i]);
                    assert(items[i].0 != items[items.len() - 1].0);
                }
            }
        }
        if items.last().0 == word {
            assert(items[items.len() - 1].0 == word);
        }
    }
}

/// A list of bytecodes holds each byte string of a table once, under its word.
pub open spec fn lists_bytecodes(
    list: Seq<(B256, Bytecode)>,
    table: Map<B256, Seq<u8>>,
) -> bool {
    &&& distinct_keys(list)
    &&& forall|word: B256| #[trigger] has_key(list, word) <==> table.contains_key(word)
    &&& forall|i: int|
        0 <= i < list.len() ==> (#[trigger] list[i]).1 == bytecode_of(table[list[i].0])
}

/// Reads every byte string of a table as a bytecode.
pub fn bytecodes(table: BytesTable) -> (r: Vec<(B256, Bytecode)>)
    requires
        forall|word: B256| #[trigger]
            byte_strings(table).contains_key(word) ==> is_raw_bytecode(byte_strings(table)[word]),
    ensures
        lists_bytecodes(r@, byte_strings(table)),
{
    let ghost codes = byte_strings(table);
    let entries = table.into_entries();
    let mut list: Vec<(B256, Bytecode)> = Vec::new();
    let mut i: usize = 0;
    proof {
        assert forall|word: B256| codes.contains_key(word) <==> has_key(entries@, word) by {
            lemma_listed(entries@, word);
        }
        assert forall|j: int| 0 <= j < entries@.len() implies codes.contains_key(
            (#[trigger] entries@[j]).0,
        ) && codes[entries@[j].0] == entries@[j].1@ by {
            lemma_listed(entries@, entries@[j].0);
        }
    }
    while i < entries.len()
        invariant
            i <= entries.len(),
            list@.len() == i,
            forall|word: B256| #[trigger]
                codes.contains_key(word) ==> is_raw_bytecode(codes[word]),
            forall|j: int|
                0 <= j < entries@.len() ==> codes.contains_key((#[trigger] entries@[j]).0)
                    && codes[entries@[j].0] == entries@[j].1@,
            forall|j: int|
                0 <= j < i ==> (#[trigger] list@[j]).0 == entries@[j].0 && list@[j].1
                    == bytecode_of(entries@[j].1@),
        decreases entries.len() - i,
    {
        let code: Vec<u8> = entries[i].1.clone();
        assert(code@ =~= entries@[i as int].1@);
        list.push((entries[i].0, raw_bytecode(code)));
        i += 1;
    }
    proof {
        assert forall|a: int, b: int| 0 <= a < b < list@.len() implies list@[a].0 != list@[b].0 by {
            assert(entries@[a].0 != entries@[b].0);
        }
        assert forall|word: B256| #[trigger] has_key(list@, word) <==> codes.contains_key(word) by {
            if has_key(list@, word) {
                let j = choose|j: int| 0 <= j < list@.len() && #[trigger] list@[j].0 == word;
                assert(entries@[j].0 == word);
            }
            if has_key(entries@, word) {
                let j = choose|j: int| 0 <= j < entries@.len() && #[trigger] entries@[j].0 == word;
                assert(list@[j].0 == word);
            }
        }
    }
    list
}

} // verus!
