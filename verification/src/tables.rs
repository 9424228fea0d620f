//! Hash tables keyed by 32-byte words, on top of the maps of `alloy_primitives`.

use vstd::prelude::*;

use crate::primitives::B256;

verus! {

/// A set of 32-byte words, an `alloy_primitives::map::B256Set`.
#[verifier::external_body]
pub struct WordSet {
    inner: alloy_primitives::map::B256Set,
}

/// The words that a set holds.
pub uninterp spec fn members(set: WordSet) -> Set<B256>;

impl WordSet {
    /// `B256Set::default`: a set that holds nothing.
    #[verifier::external_body]
    pub(crate) fn new() -> (r: WordSet)
        ensures
            members(r) == Set::<B256>::empty(),
    {
        WordSet { inner: Default::default() }
    }

    /// `HashSet::contains`.
    #[verifier::external_body]
    pub(crate) fn contains(&self, word: &B256) -> (r: bool)
        ensures
            r == members(*self).contains(*word),
    {
        self.inner.contains(&alloy_primitives::B256::new(*word))
    }

    /// `HashSet::insert`: the word is a member afterwards, and no other membership changes.
    #[verifier::external_body]
    pub(crate) fn insert(&mut self, word: B256)
        ensures
            members(*final(self)) == members(*old(self)).insert(word),
    {
        self.inner.insert(alloy_primitives::B256::new(word));
    }

    /// `HashSet::remove`: the word is no member afterwards, and no other membership changes.
    #[verifier::external_body]
    pub(crate) fn remove(&mut self, word: &B256)
        ensures
            members(*final(self)) == members(*old(self)).remove(*word),
    {
        self.inner.remove(&alloy_primitives::B256::new(*word));
    }
}

/// A map from 32-byte words to positions in a list, an `alloy_primitives::map::B256Map`.
#[verifier::external_body]
pub struct WordIndex {
    inner: alloy_primitives::map::B256Map<usize>,
}

/// The position that an index holds under each word.
pub uninterp spec fn positions(index: WordIndex) -> Map<B256, usize>;

impl WordIndex {
    /// `B256Map::default`: an index that holds nothing.
    #[verifier::external_body]
    pub(crate) fn new() -> (r: WordIndex)
        ensures
            positions(r).dom() == Set::<B256>::empty(),
    {
        WordIndex { inner: Default::default() }
    }

    /// `HashMap::insert`: the word has the position afterwards, and no other word changes.
    #[verifier::external_body]
    pub(crate) fn insert(&mut self, word: B256, position: usize)
        ensures
            positions(*final(self)) == positions(*old(self)).insert(word, position),
    {
        self.inner.insert(alloy_primitives::B256::new(word), position);
    }

    /// `HashMap::get`: the position under the word, or nothing where it has none.
    #[verifier::external_body]
    pub(crate) fn get(&self, word: &B256) -> (r: Option<usize>)
        ensures
            match r {
                Some(position) => positions(*self).contains_key(*word) && positions(*self)[*word]
                    == position,
                None => !positions(*self).contains_key(*word),
            },
    {
        self.inner.get(&alloy_primitives::B256::new(*word)).copied()
    }
}

/// A map from 32-byte words to byte strings, an `alloy_primitives::map::B256Map`.
#[verifier::external_body]
pub struct BytesTable {
    inner: alloy_primitives::map::B256Map<Vec<u8>>,
}

/// The byte string that a table holds under each word.
pub uninterp spec fn byte_strings(table: BytesTable) -> Map<B256, Seq<u8>>;

/// The entries of a list of pairs, the last pair of a word counting.
pub open spec fn listed(items: Seq<(B256, Vec<u8>)>) -> Map<B256, Seq<u8>>
    decreases items.len(),
{
    if items.len() == 0 {
        Map::empty()
    } else {
        listed(items.drop_last()).insert(items.last().0, items.last().1@)
    }
}

impl BytesTable {
    /// `B256Map::default`: a table that holds nothing.
    #[verifier::external_body]
    pub(crate) fn new() -> (r: BytesTable)
        ensures
            byte_strings(r).dom() == Set::<B256>::empty(),
    {
        BytesTable { inner: Default::default() }
    }

    /// `HashMap::insert`: the word has the bytes afterwards, and no other word changes.
    #[verifier::external_body]
    pub(crate) fn insert(&mut self, word: B256, bytes: Vec<u8>)
        ensures
            byte_strings(*final(self)) == byte_strings(*old(self)).insert(word, bytes@),
    {
        self.inner.insert(alloy_primitives::B256::new(word), bytes);
    }

    /// `HashMap::into_iter`: every entry once, in an order of the map's own.
    #[verifier::external_body]
    fn into_items(self) -> (r: Vec<(B256, Vec<u8>)>)
        ensures
            listed(r@) == byte_strings(self),
            forall|i: int, j: int| 0 <= i < j < r@.len() ==> r@[i].0 != r@[j].0,
    {
        self.inner.into_iter().map(|(word, bytes)| (word.0, bytes)).collect()
    }

    /// The entries of the table, each word once, in no particular order.
    pub fn into_entries(self) -> (r: Vec<(B256, Vec<u8>)>)
        ensures
            listed(r@) == byte_strings(self),
            forall|i: int, j: int| 0 <= i < j < r@.len() ==> r@[i].0 != r@[j].0,
    {
        self.into_items()
    }
}

} // verus!
