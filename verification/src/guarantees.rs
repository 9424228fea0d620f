//! What the changes of a block come to: the tries after a computation of the state root, account by
//! account and slot by slot, for a keeper that performs the operations and answers truly.

use vstd::prelude::*;

use crate::ordering::{law_whole_run, whole_run};
use crate::primitives::{empty_root, keccak256_digest, law_zero_bytes, B256};
use crate::replay::{
    acts, base_storage, changed, law_storage_root_unique, lookup, new_state, new_storage, reports,
    Tries, World,
};
use crate::rlp::{account_rlp, law_account_rlp_injective, slot_rlp, TrieAccount};
use crate::sparse_state::{is_storage_root, TrieAction};
use crate::state_root::{
    has_key, lemma_value_of, program, trie_account, value_of, Account, HashedPostState, TrieReply,
};

verus! {

proof fn lemma_no_value<V>(entries: Seq<(B256, V)>, key: B256)
    requires
        forall|i: int| 0 <= i < entries.len() ==> (#[trigger] entries[i]).0 != key,
    ensures
        value_of(entries, key) is None,
{
    if has_key(entries, key) {
        let i = choose|i: int| 0 <= i < entries.len() && #[trigger] entries[i].0 == key;
    }
}

/// The state root is the hash of the state trie as the computation leaves it: it is the last root
/// hash that was computed, and the answer with which the computation ends. The storage tries on
/// record are then those at hand.
pub proof fn law_root_is_hash_of_state(
    tries: Tries,
    world: World,
    post: HashedPostState,
    replies: Seq<TrieReply>,
    actions: Seq<TrieAction>,
    records: Seq<Set<B256>>,
    last: TrieReply,
)
    requires
        post.wf(),
        whole_run(tries, world, program(post, world.storages.dom()), replies, actions, records),
        reports(last, acts(tries, world, actions)),
    ensures
        acts(tries, world, actions).root == (tries.hash)(acts(tries, world, actions).state),
        last matches TrieReply::Root(root) ==> root == (tries.hash)(
            acts(tries, world, actions).state,
        ),
        records.last() == acts(tries, world, actions).storages.dom(),
{
    law_whole_run(tries, world, post, replies, actions, records, last);
}

/// The leaf of an account that exists after the block encodes its nonce, its balance, the hash of its
/// storage trie as the computation leaves it, and its code hash, which is the digest of the empty
/// string for an account without a code; it encodes no other account.
pub proof fn law_changed_account(
    tries: Tries,
    world: World,
    post: HashedPostState,
    replies: Seq<TrieReply>,
    actions: Seq<TrieAction>,
    records: Seq<Set<B256>>,
    i: int,
    info: Account,
    read: TrieAccount,
)
    requires
        post.wf(),
        whole_run(tries, world, program(post, world.storages.dom()), replies, actions, records),
        0 <= i < post.accounts@.len(),
        post.accounts@[i].1 == Some(info),
    ensures
        ({
            let account = post.accounts@[i].0;
            let after = acts(tries, world, actions);
            &&& after.state.contains_key(account)
            &&& after.storages.contains_key(account)
            &&& after.state[account] == account_rlp(read) <==> {
                &&& read.nonce == info.nonce
                &&& read.balance == info.balance
                &&& read.storage_root == (tries.hash)(after.storages[account])
                &&& read.code_hash == match info.bytecode_hash {
                    Some(hash) => hash,
                    None => keccak256_digest(Seq::empty()),
                }
            }
        }),
{
    law_whole_run(tries, world, post, replies, actions, records, TrieReply::Done);
    lemma_value_of(post.accounts@, i);
    let account = post.accounts@[i].0;
    let written = trie_account(info, (tries.hash)(new_storage(tries, world, post, account)));
    assert(new_state(tries, world, post)[account] == account_rlp(written));
    if account_rlp(read) == account_rlp(written) {
        law_account_rlp_injective(read, written);
    }
}

/// An account that no longer exists has neither a leaf nor a storage trie.
pub proof fn law_deleted_account(
    tries: Tries,
    world: World,
    post: HashedPostState,
    replies: Seq<TrieReply>,
    actions: Seq<TrieAction>,
    records: Seq<Set<B256>>,
    i: int,
)
    requires
        post.wf(),
        whole_run(tries, world, program(post, world.storages.dom()), replies, actions, records),
        0 <= i < post.accounts@.len(),
        post.accounts@[i].1 is None,
    ensures
        ({
            let account = post.accounts@[i].0;
            let after = acts(tries, world, actions);
            !after.state.contains_key(account) && !after.storages.contains_key(account)
        }),
{
    law_whole_run(tries, world, post, replies, actions, records, TrieReply::Done);
    lemma_value_of(post.accounts@, i);
}

/// An account that is not listed keeps its leaf and its storage trie, whatever storage changes are
/// listed for it.
pub proof fn law_unlisted_account(
    tries: Tries,
    world: World,
    post: HashedPostState,
    replies: Seq<TrieReply>,
    actions: Seq<TrieAction>,
    records: Seq<Set<B256>>,
    account: B256,
)
    requires
        post.wf(),
        whole_run(tries, world, program(post, world.storages.dom()), replies, actions, records),
        forall|i: int| 0 <= i < post.accounts@.len() ==> (#[trigger] post.accounts@[i]).0 != account,
    ensures
        ({
            let after = acts(tries, world, actions);
            &&& after.state.contains_key(account) == world.state.contains_key(account)
            &&& world.state.contains_key(account) ==> after.state[account] == world.state[account]
            &&& after.storages.contains_key(account) == world.storages.contains_key(account)
            &&& world.storages.contains_key(account) ==> after.storages[account]
                == world.storages[account]
        }),
{
    law_whole_run(tries, world, post, replies, actions, records, TrieReply::Done);
    lemma_no_value(post.accounts@, account);
}

/// A slot that is listed for an account that exists after the block has the encoding of its value as
/// its leaf, and no leaf where all bytes of the value are zero.
pub proof fn law_written_slot(
    tries: Tries,
    world: World,
    post: HashedPostState,
    replies: Seq<TrieReply>,
    actions: Seq<TrieAction>,
    records: Seq<Set<B256>>,
    i: int,
    j: int,
    k: int,
)
    requires
        post.wf(),
        whole_run(tries, world, program(post, world.storages.dom()), replies, actions, records),
        0 <= i < post.accounts@.len(),
        post.accounts@[i].1 is Some,
        0 <= j < post.storages@.len(),
        post.storages@[j].0 == post.accounts@[i].0,
        0 <= k < post.storages@[j].1.storage@.len(),
    ensures
        ({
            let account = post.accounts@[i].0;
            let (key, value) = post.storages@[j].1.storage@[k];
            let leaves = acts(tries, world, actions).storages[account];
            if value.be@ == Seq::new(32, |b: int| 0u8) {
                !leaves.contains_key(key)
            } else {
                leaves.contains_key(key) && leaves[key] == slot_rlp(value)
            }
        }),
{
    law_whole_run(tries, world, post, replies, actions, records, TrieReply::Done);
    lemma_value_of(post.accounts@, i);
    lemma_value_of(post.storages@, j);
    let slots = post.storages@[j].1.storage@;
    lemma_value_of(slots, k);
    law_zero_bytes(slots[k].1);
    assert(post.slots(post.accounts@[i].0) == slots);
}

/// A slot that is not listed has no leaf where the storage was deleted. Else it has the leaf that it
/// had: in the storage trie at hand, or, where none was, in the one with the storage root of the
/// account, which for a new account is that of the empty trie.
pub proof fn law_unlisted_slot(
    tries: Tries,
    world: World,
    post: HashedPostState,
    replies: Seq<TrieReply>,
    actions: Seq<TrieAction>,
    records: Seq<Set<B256>>,
    i: int,
    j: int,
    key: B256,
    encoded: TrieAccount,
)
    requires
        post.wf(),
        whole_run(tries, world, program(post, world.storages.dom()), replies, actions, records),
        0 <= i < post.accounts@.len(),
        post.accounts@[i].1 is Some,
        0 <= j < post.storages@.len(),
        post.storages@[j].0 == post.accounts@[i].0,
        forall|k: int|
            0 <= k < post.storages@[j].1.storage@.len() ==> (
            #[trigger] post.storages@[j].1.storage@[k]).0 != key,
    ensures
        ({
            let account = post.accounts@[i].0;
            let leaves = acts(tries, world, actions).storages[account];
            if post.storages@[j].1.wiped {
                !leaves.contains_key(key)
            } else if world.storages.contains_key(account) {
                &&& leaves.contains_key(key) == world.storages[account].contains_key(key)
                &&& leaves.contains_key(key) ==> leaves[key] == world.storages[account][key]
            } else if world.state.contains_key(account) {
                world.state[account] == account_rlp(encoded) ==> {
                    let base = (tries.contents)(encoded.storage_root);
                    &&& leaves.contains_key(key) == base.contains_key(key)
                    &&& leaves.contains_key(key) ==> leaves[key] == base[key]
                }
            } else {
                let base = (tries.contents)(empty_root());
                &&& leaves.contains_key(key) == base.contains_key(key)
                &&& leaves.contains_key(key) ==> leaves[key] == base[key]
            }
        }),
{
    law_whole_run(tries, world, post, replies, actions, records, TrieReply::Done);
    lemma_value_of(post.accounts@, i);
    lemma_value_of(post.storages@, j);
    let account = post.accounts@[i].0;
    lemma_no_value(post.storages@[j].1.storage@, key);
    if world.state.contains_key(account) && world.state[account] == account_rlp(encoded) {
        assert(is_storage_root(lookup(world.state, account), encoded.storage_root));
        law_storage_root_unique(lookup(world.state, account), encoded.storage_root);
    }
    if !world.state.contains_key(account) {
        assert(is_storage_root(lookup(world.state, account), empty_root()));
        law_storage_root_unique(lookup(world.state, account), empty_root());
    }
}

/// An account that exists after the block and has no storage changes keeps every slot: those of the
/// storage trie at hand, or, where none was, those of the one with the storage root of the account,
/// which for a new account is that of the empty trie.
pub proof fn law_account_without_storage_changes(
    tries: Tries,
    world: World,
    post: HashedPostState,
    replies: Seq<TrieReply>,
    actions: Seq<TrieAction>,
    records: Seq<Set<B256>>,
    i: int,
    encoded: TrieAccount,
)
    requires
        post.wf(),
        whole_run(tries, world, program(post, world.storages.dom()), replies, actions, records),
        0 <= i < post.accounts@.len(),
        post.accounts@[i].1 is Some,
        forall|j: int|
            0 <= j < post.storages@.len() ==> (#[trigger] post.storages@[j]).0
                != post.accounts@[i].0,
    ensures
        ({
            let account = post.accounts@[i].0;
            let leaves = acts(tries, world, actions).storages[account];
            if world.storages.contains_key(account) {
                leaves == world.storages[account]
            } else if world.state.contains_key(account) {
                world.state[account] == account_rlp(encoded) ==> leaves == (tries.contents)(
                    encoded.storage_root,
                )
            } else {
                leaves == (tries.contents)(empty_root())
            }
        }),
{
    law_whole_run(tries, world, post, replies, actions, records, TrieReply::Done);
    lemma_value_of(post.accounts@, i);
    let account = post.accounts@[i].0;
    lemma_no_value(post.storages@, account);
    let base = base_storage(tries, world, account, false);
    assert(changed(base, Seq::empty()) =~= base);
    if world.state.contains_key(account) && world.state[account] == account_rlp(encoded) {
        assert(is_storage_root(lookup(world.state, account), encoded.storage_root));
        law_storage_root_unique(lookup(world.state, account), encoded.storage_root);
    }
    if !world.state.contains_key(account) {
        assert(is_storage_root(lookup(world.state, account), empty_root()));
        law_storage_root_unique(lookup(world.state, account), empty_root());
    }
}

} // verus!
