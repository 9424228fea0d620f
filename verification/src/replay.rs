//! What the computation of a state root does to the tries, with a trie taken as the map of its
//! leaves.

use vstd::prelude::*;

use crate::primitives::{keccak256_digest, law_zero_is_unique, B256, U256};
use crate::rlp::{
    account_rlp, law_account_rlp_injective, law_slot_rlp_injective, slot_rlp, TrieAccount,
};
use crate::sparse_state::{is_storage_root, leaf_bytes, reads_slot, TrieAction};
use crate::state_root::{
    account_steps, base_steps, distinct_keys, has_key, insert_steps, lemma_value_of, opens,
    performs, program, removal_steps, remove_steps, storage_steps, trie_account, update_steps,
    value_of, Account, HashedPostState, TrieReply, TrieStep,
};

verus! {

/// The leaves of a trie.
pub type Leaves = Map<B256, Seq<u8>>;

/// A trie implementation, as far as the computation depends on it.
pub struct Tries {
    /// The leaves of the trie that the witness holds under a root hash.
    pub contents: spec_fn(B256) -> Leaves,
    /// The root hash of a trie.
    pub hash: spec_fn(Leaves) -> B256,
}

/// The tries, and what the last operations answered.
pub struct World {
    /// The state trie.
    pub state: Leaves,
    /// The storage tries that are at hand.
    pub storages: Map<B256, Leaves>,
    /// The leaf that was looked up last.
    pub leaf: Option<Seq<u8>>,
    /// The root hash that was computed last.
    pub root: B256,
}

/// The leaf under a key, or nothing.
pub open spec fn lookup(leaves: Leaves, key: B256) -> Option<Seq<u8>> {
    if leaves.contains_key(key) {
        Some(leaves[key])
    } else {
        None
    }
}

/// The storage root that a leaf of the state trie stands for.
pub open spec fn storage_root(leaf: Option<Seq<u8>>) -> B256 {
    choose|root: B256| is_storage_root(leaf, root)
}

/// A leaf stands for at most one storage root.
pub proof fn law_storage_root_unique(leaf: Option<Seq<u8>>, root: B256)
    requires
        is_storage_root(leaf, root),
    ensures
        storage_root(leaf) == root,
{
    let other = storage_root(leaf);
    assert(is_storage_root(leaf, other));
    if let Some(rlp) = leaf {
        let a = choose|a: TrieAccount| rlp == #[trigger] account_rlp(a) && a.storage_root == root;
        let b = choose|b: TrieAccount| rlp == #[trigger] account_rlp(b) && b.storage_root == other;
        law_account_rlp_injective(a, b);
    }
}

/// A world in which the storage trie of an account has new leaves. Where no such trie is at hand
/// there is nothing to change.
pub open spec fn with_change(world: World, account: B256, leaves: Leaves) -> World {
    if world.storages.contains_key(account) {
        World { storages: world.storages.insert(account, leaves), ..world }
    } else {
        world
    }
}

/// The effect of one step.
pub open spec fn perform(tries: Tries, world: World, step: TrieStep) -> World {
    match step {
        TrieStep::ReadAccount { account } => World { leaf: lookup(world.state, account), ..world },
        TrieStep::OpenStorage { account } => if world.storages.contains_key(account) {
            world
        } else {
            World {
                storages: world.storages.insert(
                    account,
                    (tries.contents)(storage_root(world.leaf)),
                ),
                ..world
            }
        },
        TrieStep::ClearStorage { account } => World {
            storages: world.storages.insert(account, Map::empty()),
            ..world
        },
        TrieStep::InsertSlot { account, key, value } => with_change(
            world,
            account,
            world.storages[account].insert(key, slot_rlp(value)),
        ),
        TrieStep::RemoveSlot { account, key } => with_change(
            world,
            account,
            world.storages[account].remove(key),
        ),
        TrieStep::HashStorage { account } => World {
            root: (tries.hash)(world.storages[account]),
            ..world
        },
        TrieStep::InsertAccount { account, info } => World {
            state: world.state.insert(account, account_rlp(trie_account(info, world.root))),
            ..world
        },
        TrieStep::RemoveAccount { account } => World {
            state: world.state.remove(account),
            storages: world.storages.remove(account),
            ..world
        },
        TrieStep::HashState => World { root: (tries.hash)(world.state), ..world },
    }
}

/// The effect of the operation that the keeper of the tries is asked for.
pub open spec fn act(tries: Tries, world: World, action: TrieAction) -> World {
    match action {
        TrieAction::ReadAccount { account } => World { leaf: lookup(world.state, account), ..world },
        TrieAction::OpenStorage { account, root } => World {
            storages: world.storages.insert(account, (tries.contents)(root)),
            ..world
        },
        TrieAction::KeepStorage { .. } => world,
        TrieAction::ClearStorage { account } => World {
            storages: world.storages.insert(account, Map::empty()),
            ..world
        },
        TrieAction::InsertSlot { account, key, leaf } => with_change(
            world,
            account,
            world.storages[account].insert(key, leaf@),
        ),
        TrieAction::RemoveSlot { account, key } => with_change(
            world,
            account,
            world.storages[account].remove(key),
        ),
        TrieAction::HashStorage { account } => World {
            root: (tries.hash)(world.storages[account]),
            ..world
        },
        TrieAction::InsertAccount { account, leaf } => World {
            state: world.state.insert(account, leaf@),
            ..world
        },
        TrieAction::RemoveAccount { account } => World {
            state: world.state.remove(account),
            storages: world.storages.remove(account),
            ..world
        },
        TrieAction::HashState => World { root: (tries.hash)(world.state), ..world },
        TrieAction::Finish { .. } => world,
    }
}

/// The answer reports what the last operations found.
pub open spec fn reports(reply: TrieReply, world: World) -> bool {
    match reply {
        TrieReply::Done => true,
        TrieReply::Leaf(leaf) => leaf_bytes(leaf) == world.leaf,
        TrieReply::Root(root) => root == world.root,
    }
}

/// The operation that is handed out for a step has the effect of the step, whenever the record of
/// the storage tries at hand and the answer before it were true.
pub proof fn law_action_performs_step(
    tries: Tries,
    world: World,
    step: TrieStep,
    reply: TrieReply,
    action: TrieAction,
)
    requires
        reports(reply, world),
        performs(world.storages.dom(), step, reply, action),
    ensures
        act(tries, world, action) == perform(tries, world, step),
{
    if let TrieStep::OpenStorage { .. } = step {
        if let TrieAction::OpenStorage { root, .. } = action {
            law_storage_root_unique(world.leaf, root);
        }
    }
}

/// The effect of a series of steps.
pub open spec fn run(tries: Tries, world: World, steps: Seq<TrieStep>) -> World
    decreases steps.len(),
{
    if steps.len() == 0 {
        world
    } else {
        perform(tries, run(tries, world, steps.drop_last()), steps.last())
    }
}

pub(crate) proof fn lemma_opens_concat(open: Set<B256>, a: Seq<TrieStep>, b: Seq<TrieStep>)
    ensures
        opens(open, a + b) == opens(opens(open, a), b),
    decreases b.len(),
{
    if b.len() == 0 {
        assert(a + b =~= a);
    } else {
        lemma_opens_concat(open, a, b.drop_last());
        assert((a + b).drop_last() =~= a + b.drop_last());
        assert((a + b).last() == b.last());
    }
}

/// The storage tries that a run leaves at hand are those that its steps say.
pub(crate) proof fn lemma_run_opens(tries: Tries, world: World, steps: Seq<TrieStep>)
    ensures
        run(tries, world, steps).storages.dom() == opens(world.storages.dom(), steps),
    decreases steps.len(),
{
    if steps.len() > 0 {
        lemma_run_opens(tries, world, steps.drop_last());
        assert(run(tries, world, steps).storages.dom() =~= opens(world.storages.dom(), steps));
    }
}

proof fn lemma_run_concat(tries: Tries, world: World, a: Seq<TrieStep>, b: Seq<TrieStep>)
    ensures
        run(tries, world, a + b) == run(tries, run(tries, world, a), b),
    decreases b.len(),
{
    if b.len() == 0 {
        assert(a + b =~= a);
    } else {
        lemma_run_concat(tries, world, a, b.drop_last());
        assert((a + b).drop_last() =~= a + b.drop_last());
        assert((a + b).last() == b.last());
    }
}

/// A trie after its slots were changed: a zero deletes, any other value is stored.
pub open spec fn changed(base: Leaves, slots: Seq<(B256, U256)>) -> Leaves {
    Map::new(
        |key: B256|
            match value_of(slots, key) {
                Some(value) => !value.spec_is_zero(),
                None => base.contains_key(key),
            },
        |key: B256|
            match value_of(slots, key) {
                Some(value) => slot_rlp(value),
                None => base[key],
            },
    )
}

/// The storage trie of an account before its slots are changed: empty where it was deleted,
/// else the one at hand, else the one with the root that its leaf gives.
pub open spec fn base_storage(tries: Tries, world: World, account: B256, wiped: bool) -> Leaves {
    if wiped {
        Map::empty()
    } else if world.storages.contains_key(account) {
        world.storages[account]
    } else {
        (tries.contents)(storage_root(lookup(world.state, account)))
    }
}

/// The storage trie of an account after the block.
pub open spec fn new_storage(
    tries: Tries,
    world: World,
    post: HashedPostState,
    account: B256,
) -> Leaves {
    changed(base_storage(tries, world, account, post.wiped(account)), post.slots(account))
}

/// The leaf of an account that exists after the block.
pub open spec fn new_leaf(
    tries: Tries,
    world: World,
    post: HashedPostState,
    account: B256,
    info: Account,
) -> Seq<u8> {
    account_rlp(trie_account(info, (tries.hash)(new_storage(tries, world, post, account))))
}

/// The state trie after the block.
pub open spec fn new_state(tries: Tries, world: World, post: HashedPostState) -> Leaves {
    Map::new(
        |account: B256|
            match value_of(post.accounts@, account) {
                Some(change) => change is Some,
                None => world.state.contains_key(account),
            },
        |account: B256|
            match value_of(post.accounts@, account) {
                Some(Some(info)) => new_leaf(tries, world, post, account, info),
                _ => world.state[account],
            },
    )
}

/// The storage tries at hand after the block.
pub open spec fn new_storages(tries: Tries, world: World, post: HashedPostState) -> Map<
    B256,
    Leaves,
> {
    Map::new(
        |account: B256|
            match value_of(post.accounts@, account) {
                Some(change) => change is Some,
                None => world.storages.contains_key(account),
            },
        |account: B256|
            match value_of(post.accounts@, account) {
                Some(Some(info)) => new_storage(tries, world, post, account),
                _ => world.storages[account],
            },
    )
}

proof fn lemma_last_entry<V>(entries: Seq<(B256, V)>, key: B256)
    requires
        distinct_keys(entries),
        entries.len() > 0,
    ensures
        distinct_keys(entries.drop_last()),
        value_of(entries, key) == if key == entries.last().0 {
            Some(entries.last().1)
        } else {
            value_of(entries.drop_last(), key)
        },
        key == entries.last().0 ==> value_of(entries.drop_last(), key) is None,
{
    let before = entries.drop_last();
    let n = entries.len() - 1;
    assert(distinct_keys(before));
    if key == entries.last().0 {
        lemma_value_of(entries, n);
        if has_key(before, key) {
            let i = choose|i: int| 0 <= i < before.len() && #[trigger] before[i].0 == key;
            assert(entries[i].0 != entries[n].0);
        }
    } else {
        if has_key(entries, key) {
            let i = choose|i: int| 0 <= i < entries.len() && #[trigger] entries[i].0 == key;
            assert(before[i] == entries[i]);
            lemma_value_of(entries, i);
            lemma_value_of(before, i);
        } else if has_key(before, key) {
            let i = choose|i: int| 0 <= i < before.len() && #[trigger] before[i].0 == key;
            assert(entries[i].0 == key);
        }
    }
}

/// A trie after the values other than zero were stored.
spec fn stored(base: Leaves, slots: Seq<(B256, U256)>) -> Leaves {
    Map::new(
        |key: B256|
            match value_of(slots, key) {
                Some(value) => !value.spec_is_zero() || base.contains_key(key),
                None => base.contains_key(key),
            },
        |key: B256|
            match value_of(slots, key) {
                Some(value) => if value.spec_is_zero() {
                    base[key]
                } else {
                    slot_rlp(value)
                },
                None => base[key],
            },
    )
}

/// A trie after the zeros were deleted.
spec fn deleted(base: Leaves, slots: Seq<(B256, U256)>) -> Leaves {
    Map::new(
        |key: B256|
            match value_of(slots, key) {
                Some(value) => !value.spec_is_zero() && base.contains_key(key),
                None => base.contains_key(key),
            },
        |key: B256| base[key],
    )
}

/// A world in which a storage trie was replaced.
spec fn with_storage(world: World, account: B256, leaves: Leaves) -> World {
    World { storages: world.storages.insert(account, leaves), ..world }
}

proof fn lemma_run_inserts(
    tries: Tries,
    world: World,
    account: B256,
    slots: Seq<(B256, U256)>,
)
    requires
        distinct_keys(slots),
        world.storages.contains_key(account),
    ensures
        run(tries, world, insert_steps(account, slots)) == with_storage(
            world,
            account,
            stored(world.storages[account], slots),
        ),
    decreases slots.len(),
{
    let base = world.storages[account];
    if slots.len() == 0 {
        assert(stored(base, slots) =~= base);
        assert(world.storages.insert(account, base) =~= world.storages);
    } else {
        let before = slots.drop_last();
        let (key, value) = slots.last();
        assert forall|k: B256| true implies #[trigger] value_of(slots, k) == if k == key {
            Some(value)
        } else {
            value_of(before, k)
        } && (k == key ==> value_of(before, k) is None) by {
            lemma_last_entry(slots, k);
        }
        lemma_last_entry(slots, key);
        lemma_run_inserts(tries, world, account, before);
        let leaves = stored(base, before);
        if value.spec_is_zero() {
            assert(stored(base, slots) =~= leaves);
        } else {
            let steps = insert_steps(account, slots);
            assert(steps.drop_last() =~= insert_steps(account, before));
            assert(stored(base, slots) =~= leaves.insert(key, slot_rlp(value)));
            assert(world.storages.insert(account, leaves).insert(
                account,
                stored(base, slots),
            ) =~= world.storages.insert(account, stored(base, slots)));
        }
    }
}

proof fn lemma_run_removes(
    tries: Tries,
    world: World,
    account: B256,
    slots: Seq<(B256, U256)>,
)
    requires
        distinct_keys(slots),
        world.storages.contains_key(account),
    ensures
        run(tries, world, remove_steps(account, slots)) == with_storage(
            world,
            account,
            deleted(world.storages[account], slots),
        ),
    decreases slots.len(),
{
    let base = world.storages[account];
    if slots.len() == 0 {
        assert(deleted(base, slots) =~= base);
        assert(world.storages.insert(account, base) =~= world.storages);
    } else {
        let before = slots.drop_last();
        let (key, value) = slots.last();
        assert forall|k: B256| true implies #[trigger] value_of(slots, k) == if k == key {
            Some(value)
        } else {
            value_of(before, k)
        } && (k == key ==> value_of(before, k) is None) by {
            lemma_last_entry(slots, k);
        }
        lemma_last_entry(slots, key);
        lemma_run_removes(tries, world, account, before);
        let leaves = deleted(base, before);
        if !value.spec_is_zero() {
            assert(deleted(base, slots) =~= leaves);
        } else {
            let steps = remove_steps(account, slots);
            assert(steps.drop_last() =~= remove_steps(account, before));
            assert(deleted(base, slots) =~= leaves.remove(key));
            assert(world.storages.insert(account, leaves).insert(
                account,
                deleted(base, slots),
            ) =~= world.storages.insert(account, deleted(base, slots)));
        }
    }
}

proof fn lemma_run_one(tries: Tries, world: World, step: TrieStep)
    ensures
        run(tries, world, seq![step]) == perform(tries, world, step),
{
    let steps = seq![step];
    assert(steps.drop_last() =~= Seq::empty());
    assert(run(tries, world, steps.drop_last()) == world);
}

proof fn lemma_run_two(tries: Tries, world: World, a: TrieStep, b: TrieStep)
    ensures
        run(tries, world, seq![a, b]) == perform(tries, perform(tries, world, a), b),
{
    lemma_run_one(tries, world, a);
    assert(seq![a, b].drop_last() =~= seq![a]);
}

proof fn lemma_run_base(tries: Tries, world: World, account: B256, wiped: bool)
    ensures
        ({
            let open = world.storages.contains_key(account);
            let after = run(tries, world, base_steps(account, wiped, open));
            &&& after.state == world.state
            &&& after.storages == world.storages.insert(
                account,
                base_storage(tries, world, account, wiped),
            )
        }),
{
    let open = world.storages.contains_key(account);
    let base = base_storage(tries, world, account, wiped);
    if wiped {
        lemma_run_one(tries, world, TrieStep::ClearStorage { account });
    } else if open {
        assert(world.storages.insert(account, base) =~= world.storages);
    } else {
        lemma_run_two(
            tries,
            world,
            TrieStep::ReadAccount { account },
            TrieStep::OpenStorage { account },
        );
    }
}

proof fn lemma_run_storage(
    tries: Tries,
    world: World,
    account: B256,
    wiped: bool,
    slots: Seq<(B256, U256)>,
)
    requires
        distinct_keys(slots),
    ensures
        ({
            let open = world.storages.contains_key(account);
            let after = run(tries, world, storage_steps(account, wiped, slots, open));
            &&& after.state == world.state
            &&& after.storages == world.storages.insert(
                account,
                changed(base_storage(tries, world, account, wiped), slots),
            )
        }),
{
    let open = world.storages.contains_key(account);
    let base = base_storage(tries, world, account, wiped);
    let base_part = base_steps(account, wiped, open);
    let inserts = insert_steps(account, slots);
    let removes = remove_steps(account, slots);
    lemma_run_base(tries, world, account, wiped);
    let w1 = run(tries, world, base_part);
    lemma_run_inserts(tries, w1, account, slots);
    let w2 = run(tries, w1, inserts);
    lemma_run_removes(tries, w2, account, slots);
    let w3 = run(tries, w2, removes);
    lemma_run_concat(tries, world, base_part, inserts);
    lemma_run_concat(tries, world, base_part + inserts, removes);
    assert(deleted(stored(base, slots), slots) =~= changed(base, slots));
    assert(w3.storages =~= world.storages.insert(account, changed(base, slots)));
}

proof fn lemma_run_account(
    tries: Tries,
    world: World,
    post: HashedPostState,
    open: Set<B256>,
    account: B256,
    info: Account,
)
    requires
        distinct_keys(post.slots(account)),
        open.contains(account) == world.storages.contains_key(account),
    ensures
        ({
            let after = run(tries, world, account_steps(post, open, account, info));
            &&& after.state == world.state.insert(
                account,
                new_leaf(tries, world, post, account, info),
            )
            &&& after.storages == world.storages.insert(
                account,
                new_storage(tries, world, post, account),
            )
        }),
{
    let wiped = post.wiped(account);
    let slots = post.slots(account);
    let hash = TrieStep::HashStorage { account };
    let insert = TrieStep::InsertAccount { account, info };
    let steps = storage_steps(account, wiped, slots, open.contains(account));
    lemma_run_storage(tries, world, account, wiped, slots);
    lemma_run_concat(tries, world, steps, seq![hash, insert]);
    lemma_run_two(tries, run(tries, world, steps), hash, insert);
}

/// The state trie once the first `n` changed accounts have been updated.
spec fn state_upto(tries: Tries, world: World, post: HashedPostState, n: int) -> Leaves {
    let done = post.accounts@.take(n);
    Map::new(
        |account: B256|
            value_of(done, account) matches Some(Some(_)) || world.state.contains_key(account),
        |account: B256|
            match value_of(done, account) {
                Some(Some(info)) => new_leaf(tries, world, post, account, info),
                _ => world.state[account],
            },
    )
}

/// The storage tries at hand once the first `n` changed accounts have been updated.
spec fn storages_upto(tries: Tries, world: World, post: HashedPostState, n: int) -> Map<
    B256,
    Leaves,
> {
    let done = post.accounts@.take(n);
    Map::new(
        |account: B256|
            value_of(done, account) matches Some(Some(_)) || world.storages.contains_key(account),
        |account: B256|
            match value_of(done, account) {
                Some(Some(info)) => new_storage(tries, world, post, account),
                _ => world.storages[account],
            },
    )
}

proof fn lemma_slots_distinct(post: HashedPostState, account: B256)
    requires
        post.wf(),
    ensures
        distinct_keys(post.slots(account)),
{
    if has_key(post.storages@, account) {
        let i = choose|i: int| 0 <= i < post.storages@.len() && #[trigger] post.storages@[i].0
            == account;
        lemma_value_of(post.storages@, i);
    }
}

proof fn lemma_run_updates(tries: Tries, world: World, post: HashedPostState, n: nat)
    requires
        post.wf(),
        n <= post.accounts@.len(),
    ensures
        ({
            let after = run(tries, world, update_steps(post, world.storages.dom(), n));
            &&& after.state == state_upto(tries, world, post, n as int)
            &&& after.storages == storages_upto(tries, world, post, n as int)
        }),
    decreases n,
{
    let open = world.storages.dom();
    let done = post.accounts@.take(n as int);
    if n == 0 {
        assert(state_upto(tries, world, post, 0) =~= world.state);
        assert(storages_upto(tries, world, post, 0) =~= world.storages);
    } else {
        let m = (n - 1) as nat;
        lemma_run_updates(tries, world, post, m);
        let mid = run(tries, world, update_steps(post, open, m));
        let (account, change) = post.accounts@[n - 1];
        assert(done.drop_last() =~= post.accounts@.take(n - 1));
        assert(done.last() == post.accounts@[n - 1]);
        assert forall|k: B256| true implies #[trigger] value_of(done, k) == if k == account {
            Some(change)
        } else {
            value_of(post.accounts@.take(n - 1), k)
        } && (k == account ==> value_of(post.accounts@.take(n - 1), k) is None) by {
            lemma_last_entry(done, k);
        }
        match change {
            None => {
                assert(value_of(done, account) == Some(change));
                assert(state_upto(tries, world, post, n as int) =~= mid.state);
                assert(storages_upto(tries, world, post, n as int) =~= mid.storages);
            },
            Some(info) => {
                assert(value_of(done, account) == Some(change));
                lemma_slots_distinct(post, account);
                lemma_run_account(tries, mid, post, open, account, info);
                lemma_run_concat(
                    tries,
                    world,
                    update_steps(post, open, m),
                    account_steps(post, open, account, info),
                );
                assert(lookup(mid.state, account) == lookup(world.state, account));
                assert(new_storage(tries, mid, post, account) == new_storage(
                    tries,
                    world,
                    post,
                    account,
                ));
                assert(state_upto(tries, world, post, n as int) =~= mid.state.insert(
                    account,
                    new_leaf(tries, world, post, account, info),
                ));
                assert(storages_upto(tries, world, post, n as int) =~= mid.storages.insert(
                    account,
                    new_storage(tries, world, post, account),
                ));
            },
        }
    }
}

proof fn lemma_run_removals(tries: Tries, world: World, post: HashedPostState, n: nat)
    requires
        post.wf(),
        n <= post.accounts@.len(),
    ensures
        ({
            let after = run(tries, world, removal_steps(post, n));
            let done = post.accounts@.take(n as int);
            &&& after.state == Map::new(
                |account: B256|
                    world.state.contains_key(account) && value_of(done, account) != Some(
                        None::<Account>,
                    ),
                |account: B256| world.state[account],
            )
            &&& after.storages == Map::new(
                |account: B256|
                    world.storages.contains_key(account) && value_of(done, account) != Some(
                        None::<Account>,
                    ),
                |account: B256| world.storages[account],
            )
        }),
    decreases n,
{
    let done = post.accounts@.take(n as int);
    let after = run(tries, world, removal_steps(post, n));
    if n > 0 {
        let m = (n - 1) as nat;
        lemma_run_removals(tries, world, post, m);
        let (account, change) = post.accounts@[n - 1];
        assert(done.drop_last() =~= post.accounts@.take(n - 1));
        assert(done.last() == post.accounts@[n - 1]);
        assert forall|k: B256| true implies #[trigger] value_of(done, k) == if k == account {
            Some(change)
        } else {
            value_of(post.accounts@.take(n - 1), k)
        } && (k == account ==> value_of(post.accounts@.take(n - 1), k) is None) by {
            lemma_last_entry(done, k);
        }
        if change is None {
            assert(removal_steps(post, n).drop_last() =~= removal_steps(post, m));
        }
        assert(value_of(done, account) == Some(change));
    }
    assert(after.state =~= Map::new(
        |account: B256|
            world.state.contains_key(account) && value_of(done, account) != Some(None::<Account>),
        |account: B256| world.state[account],
    ));
    assert(after.storages =~= Map::new(
        |account: B256|
            world.storages.contains_key(account) && value_of(done, account) != Some(
                None::<Account>,
            ),
        |account: B256| world.storages[account],
    ));
}

/// The steps turn the tries before the block into those after it: an account that the block
/// deleted is gone, an account that it changed is stored with the root of its changed storage,
/// every other one is as it was. The root hash that comes out is that of the new state trie.
pub proof fn law_state_root(tries: Tries, world: World, post: HashedPostState)
    requires
        post.wf(),
    ensures
        ({
            let after = run(tries, world, program(post, world.storages.dom()));
            &&& after.state == new_state(tries, world, post)
            &&& after.storages == new_storages(tries, world, post)
            &&& after.root == (tries.hash)(new_state(tries, world, post))
        }),
{
    let open = world.storages.dom();
    let n = post.accounts@.len();
    let updates = update_steps(post, open, n);
    let removals = removal_steps(post, n);
    let last = seq![TrieStep::HashState];
    assert(post.accounts@.take(n as int) =~= post.accounts@);
    lemma_run_updates(tries, world, post, n);
    let mid = run(tries, world, updates);
    lemma_run_removals(tries, mid, post, n);
    lemma_run_concat(tries, world, updates, removals);
    lemma_run_concat(tries, world, updates + removals, last);
    lemma_run_one(tries, run(tries, world, updates + removals), TrieStep::HashState);
    let after = run(tries, world, program(post, open));
    assert(after.state =~= new_state(tries, world, post));
    assert(after.storages =~= new_storages(tries, world, post));
}

/// The effect of a series of operations.
pub open spec fn acts(tries: Tries, world: World, actions: Seq<TrieAction>) -> World
    decreases actions.len(),
{
    if actions.len() == 0 {
        world
    } else {
        act(tries, acts(tries, world, actions.drop_last()), actions.last())
    }
}

/// The operations are those that the steps stand for, each given the storage tries at hand and a
/// true answer to the one before.
pub open spec fn faithful(
    tries: Tries,
    world: World,
    steps: Seq<TrieStep>,
    replies: Seq<TrieReply>,
    actions: Seq<TrieAction>,
) -> bool {
    &&& replies.len() == steps.len()
    &&& actions.len() == steps.len()
    &&& forall|p: int|
        0 <= p < steps.len() ==> {
            &&& #[trigger] performs(
                opens(world.storages.dom(), steps.take(p)),
                steps[p],
                replies[p],
                actions[p],
            )
            &&& reports(replies[p], acts(tries, world, actions.take(p)))
        }
}

proof fn lemma_acts_run(
    tries: Tries,
    world: World,
    steps: Seq<TrieStep>,
    replies: Seq<TrieReply>,
    actions: Seq<TrieAction>,
)
    requires
        faithful(tries, world, steps, replies, actions),
    ensures
        acts(tries, world, actions) == run(tries, world, steps),
    decreases steps.len(),
{
    if steps.len() > 0 {
        let n = steps.len() - 1;
        let open = world.storages.dom();
        let (s, r, a) = (steps.drop_last(), replies.drop_last(), actions.drop_last());
        assert forall|p: int| 0 <= p < n implies {
            &&& #[trigger] performs(opens(open, s.take(p)), s[p], r[p], a[p])
            &&& reports(r[p], acts(tries, world, a.take(p)))
        } by {
            assert(performs(opens(open, steps.take(p)), steps[p], replies[p], actions[p]));
            assert(s.take(p) =~= steps.take(p));
            assert(a.take(p) =~= actions.take(p));
        }
        lemma_acts_run(tries, world, s, r, a);
        assert(performs(opens(open, steps.take(n)), steps[n], replies[n], actions[n]));
        assert(steps.take(n) =~= s);
        lemma_run_opens(tries, world, s);
        assert(actions.take(n) =~= a);
        law_action_performs_step(tries, acts(tries, world, a), steps[n], replies[n], actions[n]);
    }
}

/// A keeper that performs every operation that is handed out, and answers each truly, ends with
/// the tries after the block; the last root hash it computed is the new state root.
pub proof fn law_keeper_reaches_new_state(
    tries: Tries,
    world: World,
    post: HashedPostState,
    replies: Seq<TrieReply>,
    actions: Seq<TrieAction>,
)
    requires
        post.wf(),
        faithful(tries, world, program(post, world.storages.dom()), replies, actions),
    ensures
        ({
            let after = acts(tries, world, actions);
            &&& after.state == new_state(tries, world, post)
            &&& after.storages == new_storages(tries, world, post)
            &&& after.root == (tries.hash)(new_state(tries, world, post))
        }),
{
    lemma_acts_run(tries, world, program(post, world.storages.dom()), replies, actions);
    law_state_root(tries, world, post);
}

/// Two lists of changes say the same, in whatever order.
pub open spec fn same_changes(a: HashedPostState, b: HashedPostState) -> bool {
    &&& forall|account: B256| value_of(a.accounts@, account) == value_of(b.accounts@, account)
    &&& forall|account: B256| #[trigger] a.wiped(account) == b.wiped(account)
    &&& forall|account: B256, key: B256|
        value_of(a.slots(account), key) == value_of(b.slots(account), key)
}

/// The outcome does not depend on the order in which changes are listed.
pub proof fn law_order_is_irrelevant(
    tries: Tries,
    world: World,
    a: HashedPostState,
    b: HashedPostState,
)
    requires
        a.wf(),
        b.wf(),
        same_changes(a, b),
    ensures
        ({
            let after_a = run(tries, world, program(a, world.storages.dom()));
            let after_b = run(tries, world, program(b, world.storages.dom()));
            &&& after_a.state == after_b.state
            &&& after_a.storages == after_b.storages
            &&& after_a.root == after_b.root
        }),
{
    law_state_root(tries, world, a);
    law_state_root(tries, world, b);
    assert forall|account: B256| #[trigger]
        new_storage(tries, world, a, account) == new_storage(tries, world, b, account) by {
        assert(a.wiped(account) == b.wiped(account));
        assert(new_storage(tries, world, a, account) =~= new_storage(tries, world, b, account));
    }
    assert(new_state(tries, world, a) =~= new_state(tries, world, b));
    assert(new_storages(tries, world, a) =~= new_storages(tries, world, b));
}

/// A slot reads as what the block wrote: once the computation is over, the leaf of a changed slot
/// stands for the new value and for no other.
pub proof fn law_slot_reads_as_written(
    tries: Tries,
    world: World,
    post: HashedPostState,
    account: B256,
    info: Account,
    key: B256,
    written: U256,
    read: U256,
)
    requires
        post.wf(),
        value_of(post.accounts@, account) == Some(Some(info)),
        value_of(post.slots(account), key) == Some(written),
    ensures
        ({
            let after = run(tries, world, program(post, world.storages.dom()));
            reads_slot(lookup(after.storages[account], key), read) <==> read == written
        }),
{
    law_state_root(tries, world, post);
    if written.spec_is_zero() && read.spec_is_zero() {
        law_zero_is_unique(written, read);
    }
    if slot_rlp(read) == slot_rlp(written) {
        law_slot_rlp_injective(read, written);
    }
}

/// An account reads as what the block made of it: once the computation is over, the leaf of a
/// changed account stands for its new fields, with the root of its storage trie, and for no others.
pub proof fn law_account_reads_as_written(
    tries: Tries,
    world: World,
    post: HashedPostState,
    account: B256,
    info: Account,
    read: TrieAccount,
)
    requires
        post.wf(),
        value_of(post.accounts@, account) == Some(Some(info)),
    ensures
        ({
            let after = run(tries, world, program(post, world.storages.dom()));
            &&& after.state.contains_key(account)
            &&& after.state[account] == account_rlp(read) <==> {
                &&& read.nonce == info.nonce
                &&& read.balance == info.balance
                &&& read.storage_root == (tries.hash)(after.storages[account])
                &&& read.code_hash == match info.bytecode_hash {
                    Some(hash) => hash,
                    None => keccak256_digest(Seq::empty()),
                }
            }
            &&& lookup(after.state, account) == Some(account_rlp(read)) <==> read == trie_account(
                info,
                (tries.hash)(after.storages[account]),
            )
        }),
{
    law_state_root(tries, world, post);
    let written = trie_account(info, (tries.hash)(new_storage(tries, world, post, account)));
    if account_rlp(read) == account_rlp(written) {
        law_account_rlp_injective(read, written);
    }
}

/// An account that the block deleted is gone, with its storage; an account that it did not change
/// is as it was.
pub proof fn law_deleted_and_untouched_accounts(
    tries: Tries,
    world: World,
    post: HashedPostState,
    account: B256,
)
    requires
        post.wf(),
    ensures
        ({
            let after = run(tries, world, program(post, world.storages.dom()));
            match value_of(post.accounts@, account) {
                Some(None) => !after.state.contains_key(account) && !after.storages.contains_key(
                    account,
                ),
                Some(Some(_)) => after.state.contains_key(account) && after.storages.contains_key(
                    account,
                ),
                None => {
                    &&& lookup(after.state, account) == lookup(world.state, account)
                    &&& after.storages.contains_key(account) == world.storages.contains_key(account)
                    &&& world.storages.contains_key(account) ==> after.storages[account]
                        == world.storages[account]
                },
            }
        }),
{
    law_state_root(tries, world, post);
}

/// A slot that the block did not change, of an account whose storage it did not delete, keeps its
/// leaf; in a deleted storage only what was written after the deletion is left.
pub proof fn law_untouched_slots(
    tries: Tries,
    world: World,
    post: HashedPostState,
    account: B256,
    info: Account,
    key: B256,
)
    requires
        post.wf(),
        value_of(post.accounts@, account) == Some(Some(info)),
        value_of(post.slots(account), key) is None,
    ensures
        ({
            let after = run(tries, world, program(post, world.storages.dom()));
            lookup(after.storages[account], key) == lookup(
                base_storage(tries, world, account, post.wiped(account)),
                key,
            )
        }),
        post.wiped(account) ==> lookup(
            run(tries, world, program(post, world.storages.dom())).storages[account],
            key,
        ) is None,
{
    law_state_root(tries, world, post);
}

/// Without changes the state root stays what it was, where the trie that was built for the root has
/// that root. Which storage tries are at hand makes no difference.
pub proof fn law_no_changes_keep_root(
    tries: Tries,
    world: World,
    post: HashedPostState,
    root: B256,
)
    requires
        post.wf(),
        post.accounts@.len() == 0,
        world.state == (tries.contents)(root),
        (tries.hash)((tries.contents)(root)) == root,
    ensures
        ({
            let after = run(tries, world, program(post, world.storages.dom()));
            &&& after.root == root
            &&& after.state == world.state
            &&& after.storages == world.storages
        }),
{
    law_state_root(tries, world, post);
    assert(new_state(tries, world, post) =~= world.state);
    assert(new_storages(tries, world, post) =~= world.storages);
}

/// A change of nonce, balance or code alone keeps the storage root, where the storage trie at hand,
/// or the one that is built, has the root that the account gives. The account then reads as its new
/// fields with the old root.
pub proof fn law_storage_root_is_kept(
    tries: Tries,
    world: World,
    post: HashedPostState,
    account: B256,
    info: Account,
    root: B256,
    read: TrieAccount,
)
    requires
        post.wf(),
        value_of(post.accounts@, account) == Some(Some(info)),
        !has_key(post.storages@, account),
        is_storage_root(lookup(world.state, account), root),
        world.storages.contains_key(account) ==> (tries.hash)(world.storages[account]) == root,
        !world.storages.contains_key(account) ==> (tries.hash)((tries.contents)(root)) == root,
    ensures
        ({
            let after = run(tries, world, program(post, world.storages.dom()));
            &&& (tries.hash)(after.storages[account]) == root
            &&& lookup(after.state, account) == Some(account_rlp(read)) <==> read == trie_account(
                info,
                root,
            )
        }),
{
    law_state_root(tries, world, post);
    law_account_reads_as_written(tries, world, post, account, info, read);
    law_storage_root_unique(lookup(world.state, account), root);
    let base = base_storage(tries, world, account, false);
    assert(changed(base, Seq::empty()) =~= base);
    assert(post.slots(account) =~= Seq::empty());
}

} // verus!
