//! The sparse view of the world state: which tries are at hand, and what a read of an account or
//! of a storage slot needs next.
//!
//! The tries themselves are kept by the caller. A function here takes what a trie answered and
//! says what to ask of it next.

use revm::bytecode::Bytecode;
use vstd::prelude::*;

use crate::bytecode::{
    bytecode_of, bytecodes, check_raw_bytecode, is_raw_bytecode, lists_bytecodes,
};
use crate::primitives::{
    empty_root, empty_root_hash, keccak256, keccak256_digest, law_zero_bytes, Address, B256, U256,
};
use crate::rlp::{
    account_from_leaf, account_rlp, law_account_rlp_injective, law_slot_rlp_injective,
    slot_from_leaf, slot_rlp, TrieAccount,
};
use crate::state_root::has_key;
use crate::tables::{byte_strings, members, BytesTable, WordSet};

verus! {

/// What the validation of a block needs from the state before it.
#[derive(Debug)]
pub struct ExecutionWitness {
    /// RLP encoded trie nodes.
    pub state: Vec<Vec<u8>>,
    /// Contract bytecodes.
    pub codes: Vec<Vec<u8>>,
    /// Preimages of the trie keys.
    pub keys: Vec<Vec<u8>>,
    /// RLP encoded ancestor headers.
    pub headers: Vec<Vec<u8>>,
}

impl ExecutionWitness {
    /// Every code of the witness can be read as a bytecode.
    pub open spec fn codes_are_raw(&self) -> bool {
        forall|i: int|
            0 <= i < self.codes@.len() ==> is_raw_bytecode((#[trigger] self.codes@[i])@)
    }

    /// Tells whether every code of the witness can be read as a bytecode.
    pub fn check_codes(&self) -> (r: bool)
        ensures
            r == self.codes_are_raw(),
    {
        let mut i: usize = 0;
        while i < self.codes.len()
            invariant
                i <= self.codes.len(),
                forall|j: int| 0 <= j < i ==> is_raw_bytecode((#[trigger] self.codes@[j])@),
            decreases self.codes.len() - i,
        {
            if !check_raw_bytecode(self.codes[i].as_slice()) {
                return false;
            }
            i += 1;
        }
        true
    }
}

/// The failure of a read from the state.
#[derive(Debug)]
pub enum ProviderError {
    /// A leaf does not hold the encoding of what it should.
    Rlp(alloy_rlp::Error),
}

/// The failure of a validation.
#[derive(Debug)]
pub enum StatelessValidationError {
    /// The witness does not hold the nodes of the state trie with this root.
    WitnessRevealFailed { pre_state_root: B256 },
}

/// An operation on a trie, for the keeper of the tries to perform.
pub enum TrieAction {
    /// Look up the leaf of an account in the state trie.
    ReadAccount { account: B256 },
    /// Build the storage trie with this root from the witness, and keep it under the account.
    OpenStorage { account: B256, root: B256 },
    /// Go on with the storage trie that is kept under the account, as it is.
    KeepStorage { account: B256 },
    /// Keep an empty storage trie under the account, in place of any other.
    ClearStorage { account: B256 },
    /// Insert a leaf into the storage trie of an account.
    InsertSlot { account: B256, key: B256, leaf: Vec<u8> },
    /// Remove a key from the storage trie of an account.
    RemoveSlot { account: B256, key: B256 },
    /// Compute the root hash of the storage trie of an account.
    HashStorage { account: B256 },
    /// Insert the leaf of an account into the state trie.
    InsertAccount { account: B256, leaf: Vec<u8> },
    /// Remove an account from the state trie, and drop its storage trie.
    RemoveAccount { account: B256 },
    /// Compute the root hash of the state trie.
    HashState,
    /// Nothing is left to do: this is the new state root.
    Finish { root: B256 },
}

/// What reading an account leads to.
pub enum AccountRead {
    /// There is no such account.
    Absent,
    /// The account exists, and its storage trie is at hand.
    Present { account: TrieAccount },
    /// The account exists, and its storage trie has still to be built from the witness.
    Load { hashed_address: B256, account: TrieAccount },
}

/// The byte strings of a list, each under its Keccak-256 digest.
pub open spec fn by_digest(blobs: Seq<Vec<u8>>) -> Map<B256, Seq<u8>>
    decreases blobs.len(),
{
    if blobs.len() == 0 {
        Map::empty()
    } else {
        by_digest(blobs.drop_last()).insert(keccak256_digest(blobs.last()@), blobs.last()@)
    }
}

/// Every entry of a digest table is stored under its own digest.
pub proof fn law_digest_table_sound(blobs: Seq<Vec<u8>>, digest: B256)
    requires
        by_digest(blobs).contains_key(digest),
    ensures
        keccak256_digest(by_digest(blobs)[digest]) == digest,
        exists|i: int| 0 <= i < blobs.len() && blobs[i]@ == by_digest(blobs)[digest],
    decreases blobs.len(),
{
    if blobs.len() > 0 {
        let last = blobs.last();
        if keccak256_digest(last@) == digest {
            assert(blobs[blobs.len() - 1]@ == by_digest(blobs)[digest]);
        } else {
            law_digest_table_sound(blobs.drop_last(), digest);
            let i = choose|i: int|
                0 <= i < blobs.len() - 1 && blobs.drop_last()[i]@ == by_digest(
                    blobs.drop_last(),
                )[digest];
            assert(blobs[i]@ == by_digest(blobs)[digest]);
        }
    }
}

/// Every listed byte string can be found under its digest.
pub proof fn law_digest_table_complete(blobs: Seq<Vec<u8>>, i: int)
    requires
        0 <= i < blobs.len(),
    ensures
        by_digest(blobs).contains_key(keccak256_digest(blobs[i]@)),
    decreases blobs.len(),
{
    if i < blobs.len() - 1 {
        law_digest_table_complete(blobs.drop_last(), i);
        assert(blobs.drop_last()[i] == blobs[i]);
    }
}

/// A list holds this byte string.
pub open spec fn holds(blobs: Seq<Vec<u8>>, blob: Seq<u8>) -> bool {
    exists|i: int| 0 <= i < blobs.len() && (#[trigger] blobs[i])@ == blob
}

/// No two different byte strings of a list have the same digest.
pub open spec fn no_collisions(blobs: Seq<Vec<u8>>) -> bool {
    forall|a: Seq<u8>, b: Seq<u8>|
        holds(blobs, a) && holds(blobs, b) && #[trigger] keccak256_digest(a)
            == #[trigger] keccak256_digest(b) ==> a == b
}

/// A digest table depends on which byte strings are listed, and not on their order or on how often
/// each of them is listed, as long as no two of them have the same digest.
pub proof fn law_digest_table_ignores_order(a: Seq<Vec<u8>>, b: Seq<Vec<u8>>)
    requires
        no_collisions(a),
        forall|blob: Seq<u8>| #[trigger] holds(a, blob) == holds(b, blob),
    ensures
        by_digest(a) == by_digest(b),
{
    assert forall|digest: B256| #[trigger] by_digest(a).contains_key(digest) implies by_digest(
        b,
    ).contains_key(digest) && by_digest(a)[digest] == by_digest(b)[digest] by {
        lemma_digest_entry(a, b, digest);
    }
    assert forall|digest: B256| #[trigger] by_digest(b).contains_key(digest) implies by_digest(
        a,
    ).contains_key(digest) by {
        law_digest_table_sound(b, digest);
        let blob = by_digest(b)[digest];
        assert(holds(b, blob));
        assert(holds(a, blob));
        let i = choose|i: int| 0 <= i < a.len() && (#[trigger] a[i])@ == blob;
        law_digest_table_complete(a, i);
    }
    assert(by_digest(a).dom() =~= by_digest(b).dom());
    assert(by_digest(a) =~= by_digest(b));
}

proof fn lemma_digest_entry(a: Seq<Vec<u8>>, b: Seq<Vec<u8>>, digest: B256)
    requires
        no_collisions(a),
        forall|blob: Seq<u8>| #[trigger] holds(a, blob) == holds(b, blob),
        by_digest(a).contains_key(digest),
    ensures
        by_digest(b).contains_key(digest),
        by_digest(b)[digest] == by_digest(a)[digest],
{
    law_digest_table_sound(a, digest);
    let blob = by_digest(a)[digest];
    assert(holds(a, blob));
    assert(holds(b, blob));
    let i = choose|i: int| 0 <= i < b.len() && (#[trigger] b[i])@ == blob;
    law_digest_table_complete(b, i);
    law_digest_table_sound(b, digest);
    let other = by_digest(b)[digest];
    assert(holds(b, other));
    assert(holds(a, other));
    assert(keccak256_digest(other) == keccak256_digest(blob));
}

/// Every listed bytecode is that of a code of the witness, under the digest of the code.
pub proof fn law_bytecodes_of_witness(codes: Seq<Vec<u8>>, list: Seq<(B256, Bytecode)>, i: int)
    requires
        lists_bytecodes(list, by_digest(codes)),
        0 <= i < list.len(),
    ensures
        exists|j: int|
            0 <= j < codes.len() && list[i].0 == keccak256_digest((#[trigger] codes[j])@)
                && list[i].1 == bytecode_of(codes[j]@),
{
    assert(has_key(list, list[i].0));
    law_digest_table_sound(codes, list[i].0);
    let j = choose|j: int| 0 <= j < codes.len() && codes[j]@ == by_digest(codes)[list[i].0];
    assert(list[i].0 == keccak256_digest(codes[j]@) && list[i].1 == bytecode_of(codes[j]@));
}

/// Every code of the witness has its bytecode listed, once, under its digest.
pub proof fn law_every_bytecode_is_listed(
    codes: Seq<Vec<u8>>,
    list: Seq<(B256, Bytecode)>,
    j: int,
)
    requires
        lists_bytecodes(list, by_digest(codes)),
        0 <= j < codes.len(),
    ensures
        exists|i: int| 0 <= i < list.len() && (#[trigger] list[i]).0 == keccak256_digest(codes[j]@),
        forall|a: int, b: int| 0 <= a < b < list.len() ==> list[a].0 != list[b].0,
{
    law_digest_table_complete(codes, j);
    assert(has_key(list, keccak256_digest(codes[j]@)));
}

/// Hashes each byte string of a list once, and keeps it under its digest.
fn digest_table(blobs: &Vec<Vec<u8>>) -> (r: BytesTable)
    ensures
        byte_strings(r) == by_digest(blobs@),
{
    let mut table = BytesTable::new();
    let mut i: usize = 0;
    assert(byte_strings(table) =~= by_digest(blobs@.take(0)));
    while i < blobs.len()
        invariant
            i <= blobs.len(),
            byte_strings(table) == by_digest(blobs@.take(i as int)),
        decreases blobs.len() - i,
    {
        let blob: Vec<u8> = blobs[i].clone();
        let digest: B256 = keccak256(blob.as_slice());
        table.insert(digest, blob);
        proof {
            assert(blob@ =~= blobs@[i as int]@);
            assert(blobs@.take(i + 1).drop_last() =~= blobs@.take(i as int));
            assert(blobs@.take(i + 1).last() == blobs@[i as int]);
        }
        i += 1;
    }
    assert(blobs@.take(blobs.len() as int) =~= blobs@);
    table
}

/// A sparse version of the Ethereum world state: the accounts whose storage trie is at hand.
pub struct SparseState {
    storages: WordSet,
}

impl SparseState {
    /// The hashed addresses of the accounts whose storage trie is at hand.
    pub closed spec fn open(&self) -> Set<B256> {
        members(self.storages)
    }

    /// Starts from a witness: no storage trie is at hand yet. The table holds the trie nodes, each
    /// under its Keccak-256 digest.
    pub fn new(witness: &ExecutionWitness) -> (r: (SparseState, BytesTable))
        ensures
            r.0.open() == Set::<B256>::empty(),
            byte_strings(r.1) == by_digest(witness.state@),
            forall|i: int|
                0 <= i < witness.state@.len() ==> byte_strings(r.1).contains_key(
                    keccak256_digest((#[trigger] witness.state@[i])@),
                ),
            forall|digest: B256| #[trigger]
                byte_strings(r.1).contains_key(digest) ==> keccak256_digest(
                    byte_strings(r.1)[digest],
                ) == digest && exists|i: int|
                    0 <= i < witness.state@.len() && (#[trigger] witness.state@[i])@
                        == byte_strings(r.1)[digest],
    {
        let nodes = digest_table(&witness.state);
        proof {
            assert forall|i: int| 0 <= i < witness.state@.len() implies by_digest(
                witness.state@,
            ).contains_key(keccak256_digest((#[trigger] witness.state@[i])@)) by {
                law_digest_table_complete(witness.state@, i);
            }
            assert forall|digest: B256| #[trigger]
                by_digest(witness.state@).contains_key(digest) implies keccak256_digest(
                by_digest(witness.state@)[digest],
            ) == digest && exists|i: int|
                0 <= i < witness.state@.len() && (#[trigger] witness.state@[i])@ == by_digest(
                    witness.state@,
                )[digest] by {
                law_digest_table_sound(witness.state@, digest);
            }
        }
        (SparseState { storages: WordSet::new() }, nodes)
    }

    /// Judges the attempt to build the state trie from the witness.
    pub fn revealed<T, E>(trie: Result<T, E>, pre_state_root: B256) -> (r: Result<
        T,
        StatelessValidationError,
    >)
        ensures
            r == (match trie {
                Ok(trie) => Ok::<T, StatelessValidationError>(trie),
                Err(_) => Err::<T, StatelessValidationError>(
                    StatelessValidationError::WitnessRevealFailed { pre_state_root },
                ),
            }),
    {
        match trie {
            Ok(trie) => Ok(trie),
            Err(_) => Err(StatelessValidationError::WitnessRevealFailed { pre_state_root }),
        }
    }

    /// Reads the bytecodes of a witness, each under its Keccak-256 digest.
    pub fn bytecodes(witness: &ExecutionWitness) -> (r: Vec<(B256, Bytecode)>)
        requires
            witness.codes_are_raw(),
        ensures
            lists_bytecodes(r@, by_digest(witness.codes@)),
            forall|i: int|
                0 <= i < r@.len() ==> exists|j: int|
                    0 <= j < witness.codes@.len() && (#[trigger] r@[i]).0 == keccak256_digest(
                        (#[trigger] witness.codes@[j])@,
                    ) && r@[i].1 == bytecode_of(witness.codes@[j]@),
            forall|j: int|
                0 <= j < witness.codes@.len() ==> exists|i: int|
                    0 <= i < r@.len() && (#[trigger] r@[i]).0 == keccak256_digest(
                        (#[trigger] witness.codes@[j])@,
                    ),
    {
        let codes = digest_table(&witness.codes);
        proof {
            assert forall|digest: B256| #[trigger]
                byte_strings(codes).contains_key(digest) implies is_raw_bytecode(
                byte_strings(codes)[digest],
            ) by {
                law_digest_table_sound(witness.codes@, digest);
            }
        }
        let list = bytecodes(codes);
        proof {
            assert forall|i: int| 0 <= i < list@.len() implies exists|j: int|
                0 <= j < witness.codes@.len() && (#[trigger] list@[i]).0 == keccak256_digest(
                    (#[trigger] witness.codes@[j])@,
                ) && list@[i].1 == bytecode_of(witness.codes@[j]@) by {
                law_bytecodes_of_witness(witness.codes@, list@, i);
            }
            assert forall|j: int| 0 <= j < witness.codes@.len() implies exists|i: int|
                0 <= i < list@.len() && (#[trigger] list@[i]).0 == keccak256_digest(
                    (#[trigger] witness.codes@[j])@,
                ) by {
                law_every_bytecode_is_listed(witness.codes@, list@, j);
            }
        }
        list
    }

    /// The key of an account in the state trie.
    pub fn account_key(address: &Address) -> (r: B256)
        ensures
            r == keccak256_digest(address@),
    {
        keccak256(address.as_slice())
    }

    /// Reads an account from the leaf that the state trie holds under its key. Where the storage
    /// trie of the account is not at hand, the caller has to build it next.
    pub fn account(&self, address: &Address, leaf: Option<Vec<u8>>) -> (r: Result<
        AccountRead,
        ProviderError,
    >)
        ensures
            match r {
                Ok(read) => reads_account(self.open(), *address, leaf_bytes(leaf), read),
                Err(_) => !is_account_leaf(leaf_bytes(leaf)),
            },
            match r {
                Ok(AccountRead::Absent) => leaf is None,
                Ok(AccountRead::Present { account }) => {
                    &&& leaf matches Some(rlp)
                    &&& rlp@ == account_rlp(account)
                    &&& self.open().contains(keccak256_digest(address@))
                },
                Ok(AccountRead::Load { hashed_address, account }) => {
                    &&& leaf matches Some(rlp)
                    &&& rlp@ == account_rlp(account)
                    &&& hashed_address == keccak256_digest(address@)
                    &&& !self.open().contains(hashed_address)
                },
                Err(_) => {
                    &&& leaf matches Some(rlp)
                    &&& forall|account: TrieAccount| rlp@ != #[trigger] account_rlp(account)
                },
            },
    {
        let hashed_address: B256 = Self::account_key(address);
        match account_from_leaf(leaf) {
            Err(error) => Err(ProviderError::Rlp(error)),
            Ok(None) => Ok(AccountRead::Absent),
            Ok(Some(account)) => {
                if self.storages.contains(&hashed_address) {
                    Ok(AccountRead::Present { account })
                } else {
                    Ok(AccountRead::Load { hashed_address, account })
                }
            },
        }
    }

    /// Tells whether the storage trie of an account is at hand.
    pub fn is_open(&self, hashed_address: &B256) -> (r: bool)
        ensures
            r == self.open().contains(*hashed_address),
    {
        self.storages.contains(hashed_address)
    }

    /// Records that the storage trie of an account has been built.
    pub fn storage_loaded(&mut self, hashed_address: B256)
        ensures
            final(self).open() == old(self).open().insert(hashed_address),
    {
        self.storages.insert(hashed_address);
    }

    /// Where a storage slot lives: the account whose storage trie to ask, and the key to ask for.
    /// There is an answer only once the account has been read.
    pub fn storage(&self, address: &Address, slot: &U256) -> (r: Option<(B256, B256)>)
        ensures
            r == if self.open().contains(keccak256_digest(address@)) {
                Some((keccak256_digest(address@), keccak256_digest(slot.be@)))
            } else {
                None
            },
    {
        let hashed_address: B256 = Self::account_key(address);
        if self.storages.contains(&hashed_address) {
            Some((hashed_address, keccak256(slot.be.as_slice())))
        } else {
            None
        }
    }

    /// Reads a storage slot from the leaf under its key. A slot without a leaf is zero.
    pub fn slot_value(leaf: Option<Vec<u8>>) -> (r: Result<U256, ProviderError>)
        ensures
            match r {
                Ok(value) => {
                    &&& reads_slot(leaf_bytes(leaf), value)
                    &&& match leaf {
                        Some(rlp) => rlp@ == slot_rlp(value),
                        None => value.be@ == Seq::new(32, |i: int| 0u8),
                    }
                },
                Err(_) => leaf matches Some(rlp) && forall|value: U256|
                    rlp@ != #[trigger] slot_rlp(value),
            },
    {
        match slot_from_leaf(leaf) {
            Err(error) => Err(ProviderError::Rlp(error)),
            Ok(None) => Ok(U256::zero()),
            Ok(Some(value)) => Ok(value),
        }
    }

    /// Removes an account from the state.
    pub fn remove_account(&mut self, hashed_address: &B256) -> (r: TrieAction)
        ensures
            final(self).open() == old(self).open().remove(*hashed_address),
            r == (TrieAction::RemoveAccount { account: *hashed_address }),
    {
        self.storages.remove(hashed_address);
        TrieAction::RemoveAccount { account: *hashed_address }
    }

    /// Clears the storage of an account.
    pub fn clear_storage(&mut self, hashed_address: B256) -> (r: TrieAction)
        ensures
            final(self).open() == old(self).open().insert(hashed_address),
            r == (TrieAction::ClearStorage { account: hashed_address }),
    {
        self.storages.insert(hashed_address);
        TrieAction::ClearStorage { account: hashed_address }
    }

    /// Obtains the storage trie of an account, to be changed. One that is at hand is kept, with the
    /// changes made to it. Else it has to be built, with the root that the leaf of the account in
    /// the state trie gives: an account without a leaf has an empty storage trie. Once it has been
    /// built, `storage_loaded` records it; until then nothing is.
    pub fn storage_trie_mut(&self, hashed_address: B256, leaf: Option<Vec<u8>>) -> (r: Result<
        TrieAction,
        alloy_rlp::Error,
    >)
        ensures
            match r {
                Ok(action) => obtains_storage(
                    self.open(),
                    hashed_address,
                    leaf_bytes(leaf),
                    action,
                ),
                Err(_) => !self.open().contains(hashed_address) && !is_account_leaf(
                    leaf_bytes(leaf),
                ),
            },
            match r {
                Ok(TrieAction::KeepStorage { account }) => {
                    &&& account == hashed_address
                    &&& self.open().contains(hashed_address)
                },
                Ok(TrieAction::OpenStorage { account, root }) => {
                    &&& account == hashed_address
                    &&& !self.open().contains(hashed_address)
                    &&& match leaf {
                        Some(rlp) => exists|read: TrieAccount|
                            rlp@ == #[trigger] account_rlp(read) && read.storage_root == root,
                        None => root == empty_root(),
                    }
                },
                Ok(_) => false,
                Err(_) => {
                    &&& !self.open().contains(hashed_address)
                    &&& leaf matches Some(rlp)
                    &&& forall|read: TrieAccount| rlp@ != #[trigger] account_rlp(read)
                },
            },
    {
        if self.storages.contains(&hashed_address) {
            return Ok(TrieAction::KeepStorage { account: hashed_address });
        }
        match account_from_leaf(leaf) {
            Err(error) => Err(error),
            Ok(None) => Ok(
                TrieAction::OpenStorage { account: hashed_address, root: empty_root_hash() },
            ),
            Ok(Some(account)) => Ok(
                TrieAction::OpenStorage { account: hashed_address, root: account.storage_root },
            ),
        }
    }
}

/// How the storage trie of an account is obtained, given the storage tries at hand and the leaf of
/// the account: the one at hand is kept, another one is built.
pub open spec fn obtains_storage(
    open: Set<B256>,
    hashed_address: B256,
    leaf: Option<Seq<u8>>,
    action: TrieAction,
) -> bool {
    if open.contains(hashed_address) {
        action == (TrieAction::KeepStorage { account: hashed_address })
    } else {
        &&& action matches TrieAction::OpenStorage { account, root }
        &&& account == hashed_address
        &&& is_storage_root(leaf, root)
    }
}

/// What reading an account from its leaf leads to, given the storage tries at hand.
pub open spec fn reads_account(
    open: Set<B256>,
    address: Address,
    leaf: Option<Seq<u8>>,
    read: AccountRead,
) -> bool {
    match leaf {
        None => read is Absent,
        Some(rlp) => exists|account: TrieAccount|
            {
                &&& rlp == #[trigger] account_rlp(account)
                &&& read == if open.contains(keccak256_digest(address@)) {
                    AccountRead::Present { account }
                } else {
                    AccountRead::Load { hashed_address: keccak256_digest(address@), account }
                }
            },
    }
}

/// An account that is read encodes back to the leaf it was read from, and so has the four fields that
/// the leaf encodes; it is absent exactly where there is no leaf. Its storage trie has to be loaded
/// exactly where it is not at hand.
pub proof fn law_account_reads_as_encoded(
    open: Set<B256>,
    address: Address,
    leaf: Option<Seq<u8>>,
    read: AccountRead,
    encoded: TrieAccount,
)
    requires
        reads_account(open, address, leaf, read),
    ensures
        match read {
            AccountRead::Absent => leaf is None,
            AccountRead::Present { account } => {
                &&& leaf == Some(account_rlp(account))
                &&& open.contains(keccak256_digest(address@))
                &&& leaf == Some(account_rlp(encoded)) ==> {
                    &&& account.nonce == encoded.nonce
                    &&& account.balance == encoded.balance
                    &&& account.storage_root == encoded.storage_root
                    &&& account.code_hash == encoded.code_hash
                }
            },
            AccountRead::Load { hashed_address, account } => {
                &&& leaf == Some(account_rlp(account))
                &&& hashed_address == keccak256_digest(address@)
                &&& !open.contains(hashed_address)
                &&& leaf == Some(account_rlp(encoded)) ==> {
                    &&& account.nonce == encoded.nonce
                    &&& account.balance == encoded.balance
                    &&& account.storage_root == encoded.storage_root
                    &&& account.code_hash == encoded.code_hash
                }
            },
        },
{
    let account = match read {
        AccountRead::Present { account } => account,
        AccountRead::Load { account, .. } => account,
        AccountRead::Absent => encoded,
    };
    if leaf == Some(account_rlp(encoded)) && !(read is Absent) {
        law_account_rlp_injective(account, encoded);
    }
}

/// A slot that is read encodes back to the leaf it was read from; without a leaf all its bytes are
/// zero.
pub proof fn law_slot_reads_as_encoded(leaf: Option<Seq<u8>>, value: U256, encoded: U256)
    requires
        reads_slot(leaf, value),
    ensures
        match leaf {
            Some(rlp) => rlp == slot_rlp(value) && (rlp == slot_rlp(encoded) ==> value == encoded),
            None => value.be@ == Seq::new(32, |i: int| 0u8),
        },
{
    law_zero_bytes(value);
    if leaf == Some(slot_rlp(encoded)) {
        law_slot_rlp_injective(value, encoded);
    }
}

/// The storage trie of an account that is at hand is never built again; another one is built with
/// the storage root of the account that its leaf encodes, or as an empty trie without a leaf.
pub proof fn law_storage_is_obtained_once(
    open: Set<B256>,
    hashed_address: B256,
    leaf: Option<Seq<u8>>,
    action: TrieAction,
    encoded: TrieAccount,
)
    requires
        obtains_storage(open, hashed_address, leaf, action),
    ensures
        open.contains(hashed_address) ==> action == (TrieAction::KeepStorage {
            account: hashed_address,
        }),
        !open.contains(hashed_address) && leaf == Some(account_rlp(encoded)) ==> action == (
        TrieAction::OpenStorage { account: hashed_address, root: encoded.storage_root }),
        !open.contains(hashed_address) && leaf is None ==> action == (TrieAction::OpenStorage {
            account: hashed_address,
            root: empty_root(),
        }),
{
    if !open.contains(hashed_address) && leaf == Some(account_rlp(encoded)) {
        if let TrieAction::OpenStorage { root, .. } = action {
            let read = choose|read: TrieAccount|
                leaf == Some(#[trigger] account_rlp(read)) && read.storage_root == root;
            law_account_rlp_injective(read, encoded);
        }
    }
}

/// Once an account has been read, and its storage trie has been built where that was asked for,
/// its storage slots can be read.
pub proof fn law_storage_after_account(
    open: Set<B256>,
    address: Address,
    leaf: Option<Seq<u8>>,
    read: AccountRead,
)
    requires
        reads_account(open, address, leaf, read),
        !(read is Absent),
    ensures
        match read {
            AccountRead::Load { hashed_address, .. } => open.insert(hashed_address),
            _ => open,
        }.contains(keccak256_digest(address@)),
{
}

/// What a leaf holds, for a key that has one.
pub open spec fn leaf_bytes(leaf: Option<Vec<u8>>) -> Option<Seq<u8>> {
    match leaf {
        Some(rlp) => Some(rlp@),
        None => None,
    }
}

/// The value of a storage slot with this leaf: zero where there is none, else the encoded value.
pub open spec fn reads_slot(leaf: Option<Seq<u8>>, value: U256) -> bool {
    match leaf {
        None => value.spec_is_zero(),
        Some(rlp) => rlp == slot_rlp(value),
    }
}

/// There is no leaf, or it encodes an account.
pub open spec fn is_account_leaf(leaf: Option<Seq<u8>>) -> bool {
    match leaf {
        None => true,
        Some(rlp) => exists|account: TrieAccount| rlp == #[trigger] account_rlp(account),
    }
}

/// The storage root that a leaf of the state trie stands for: that of the account it encodes, and
/// the root of the empty trie where there is no leaf.
pub open spec fn is_storage_root(leaf: Option<Seq<u8>>, root: B256) -> bool {
    match leaf {
        None => root == empty_root(),
        Some(rlp) => exists|account: TrieAccount|
            rlp == #[trigger] account_rlp(account) && account.storage_root == root,
    }
}

} // verus!
