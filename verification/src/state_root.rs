//! The new state root of a block: which trie operations turn the state before the block into the
//! state after it, and in what order.

use vstd::prelude::*;

use crate::primitives::{empty_root, keccak256_digest, keccak256_empty, B256, U256};
use crate::rlp::{account_rlp, encode_account, encode_slot, slot_rlp, TrieAccount};
use crate::sparse_state::{
    is_account_leaf, leaf_bytes, obtains_storage, SparseState, TrieAction,
};
use crate::tables::{positions, WordIndex};

verus! {

/// An account after the execution of a block.
#[derive(Clone, Copy, Debug, PartialEq, Eq)]
pub struct Account {
    pub nonce: u64,
    pub balance: U256,
    /// The digest of the bytecode, for an account that has one.
    pub bytecode_hash: Option<B256>,
}

/// The state trie entry of an account: without a bytecode, its code hash is that of the empty
/// string.
pub open spec fn trie_account(info: Account, storage_root: B256) -> TrieAccount {
    TrieAccount {
        nonce: info.nonce,
        balance: info.balance,
        storage_root,
        code_hash: match info.bytecode_hash {
            Some(hash) => hash,
            None => keccak256_digest(Seq::empty()),
        },
    }
}

impl Account {
    /// The state trie entry of the account.
    pub fn with_storage_root(&self, storage_root: B256) -> (r: TrieAccount)
        ensures
            r == trie_account(*self, storage_root),
            r.nonce == self.nonce,
            r.balance == self.balance,
            r.storage_root == storage_root,
            match self.bytecode_hash {
                Some(hash) => r.code_hash == hash,
                None => r.code_hash == keccak256_digest(Seq::empty()),
            },
    {
        TrieAccount {
            nonce: self.nonce,
            balance: self.balance,
            storage_root,
            code_hash: match self.bytecode_hash {
                Some(hash) => hash,
                None => keccak256_empty(),
            },
        }
    }
}

/// The changes to the storage of an account.
#[derive(Debug)]
pub struct HashedStorage {
    /// The whole storage was deleted before the changes.
    pub wiped: bool,
    /// The changed slots by hashed key; a zero value deletes the slot.
    pub storage: Vec<(B256, U256)>,
}

/// The changes of a block, by hashed address.
#[derive(Debug)]
pub struct HashedPostState {
    /// The changed accounts; one that no longer exists has no value.
    pub accounts: Vec<(B256, Option<Account>)>,
    /// The changed storages.
    pub storages: Vec<(B256, HashedStorage)>,
}

/// No two entries of a list have the same key.
pub open spec fn distinct_keys<V>(entries: Seq<(B256, V)>) -> bool {
    forall|i: int, j: int| 0 <= i < j < entries.len() ==> entries[i].0 != entries[j].0
}

/// A list has an entry with this key.
pub open spec fn has_key<V>(entries: Seq<(B256, V)>, key: B256) -> bool {
    exists|i: int| 0 <= i < entries.len() && #[trigger] entries[i].0 == key
}

/// The value of the entry with this key, or nothing.
pub open spec fn value_of<V>(entries: Seq<(B256, V)>, key: B256) -> Option<V> {
    if has_key(entries, key) {
        Some(entries[choose|i: int| 0 <= i < entries.len() && #[trigger] entries[i].0 == key].1)
    } else {
        None
    }
}

impl HashedPostState {
    /// Every account, every storage and every slot is listed at most once.
    pub open spec fn wf(&self) -> bool {
        &&& distinct_keys(self.accounts@)
        &&& distinct_keys(self.storages@)
        &&& forall|i: int|
            0 <= i < self.storages@.len() ==> distinct_keys(
                (#[trigger] self.storages@[i]).1.storage@,
            )
    }

    /// The storage of this account was deleted.
    pub open spec fn wiped(&self, account: B256) -> bool {
        match value_of(self.storages@, account) {
            Some(change) => change.wiped,
            None => false,
        }
    }

    /// The changed slots of an account.
    pub open spec fn slots(&self, account: B256) -> Seq<(B256, U256)> {
        match value_of(self.storages@, account) {
            Some(change) => change.storage@,
            None => Seq::empty(),
        }
    }
}

/// One operation of the computation of a state root.
#[derive(Clone, Copy, Debug, PartialEq, Eq)]
pub enum TrieStep {
    /// Look up an account in the state trie.
    ReadAccount { account: B256 },
    /// Obtain the storage trie of the account that was looked up.
    OpenStorage { account: B256 },
    /// Start over with an empty storage trie.
    ClearStorage { account: B256 },
    /// Store a value.
    InsertSlot { account: B256, key: B256, value: U256 },
    /// Delete a value.
    RemoveSlot { account: B256, key: B256 },
    /// Compute a storage root.
    HashStorage { account: B256 },
    /// Store an account, with the storage root that was computed last.
    InsertAccount { account: B256, info: Account },
    /// Delete an account.
    RemoveAccount { account: B256 },
    /// Compute the state root.
    HashState,
}

/// How the storage trie of an account is obtained: an empty one where the storage was deleted,
/// else the one at hand, else one from the witness.
pub open spec fn base_steps(account: B256, wiped: bool, open: bool) -> Seq<TrieStep> {
    if wiped {
        seq![TrieStep::ClearStorage { account }]
    } else if open {
        Seq::empty()
    } else {
        seq![TrieStep::ReadAccount { account }, TrieStep::OpenStorage { account }]
    }
}

/// The slots that get a value.
pub open spec fn insert_steps(account: B256, slots: Seq<(B256, U256)>) -> Seq<TrieStep>
    decreases slots.len(),
{
    if slots.len() == 0 {
        Seq::empty()
    } else {
        let before = insert_steps(account, slots.drop_last());
        let (key, value) = slots.last();
        if value.spec_is_zero() {
            before
        } else {
            before.push(TrieStep::InsertSlot { account, key, value })
        }
    }
}

/// The slots that lose their value.
pub open spec fn remove_steps(account: B256, slots: Seq<(B256, U256)>) -> Seq<TrieStep>
    decreases slots.len(),
{
    if slots.len() == 0 {
        Seq::empty()
    } else {
        let before = remove_steps(account, slots.drop_last());
        let (key, value) = slots.last();
        if value.spec_is_zero() {
            before.push(TrieStep::RemoveSlot { account, key })
        } else {
            before
        }
    }
}

/// The changes to the storage trie of an account: every insertion, then every removal.
pub open spec fn storage_steps(
    account: B256,
    wiped: bool,
    slots: Seq<(B256, U256)>,
    open: bool,
) -> Seq<TrieStep> {
    base_steps(account, wiped, open) + insert_steps(account, slots) + remove_steps(account, slots)
}

/// The whole update of an account that exists after the block.
pub open spec fn account_steps(
    post: HashedPostState,
    open: Set<B256>,
    account: B256,
    info: Account,
) -> Seq<TrieStep> {
    storage_steps(account, post.wiped(account), post.slots(account), open.contains(account)) + seq![
        TrieStep::HashStorage { account },
        TrieStep::InsertAccount { account, info },
    ]
}

/// The updates of the first `n` changed accounts.
pub open spec fn update_steps(post: HashedPostState, open: Set<B256>, n: nat) -> Seq<TrieStep>
    decreases n,
{
    if n == 0 {
        Seq::empty()
    } else {
        let before = update_steps(post, open, (n - 1) as nat);
        match post.accounts@[n - 1].1 {
            Some(info) => before + account_steps(post, open, post.accounts@[n - 1].0, info),
            None => before,
        }
    }
}

/// The removals among the first `n` changed accounts.
pub open spec fn removal_steps(post: HashedPostState, n: nat) -> Seq<TrieStep>
    decreases n,
{
    if n == 0 {
        Seq::empty()
    } else {
        let before = removal_steps(post, (n - 1) as nat);
        match post.accounts@[n - 1].1 {
            Some(_) => before,
            None => before.push(TrieStep::RemoveAccount { account: post.accounts@[n - 1].0 }),
        }
    }
}

/// The computation of a state root: every account that exists after the block is updated, then
/// every account that does not is removed, then the state trie is hashed.
pub open spec fn program(post: HashedPostState, open: Set<B256>) -> Seq<TrieStep> {
    update_steps(post, open, post.accounts@.len()) + removal_steps(post, post.accounts@.len())
        + seq![TrieStep::HashState]
}

pub(crate) proof fn lemma_value_of<V>(entries: Seq<(B256, V)>, i: int)
    requires
        distinct_keys(entries),
        0 <= i < entries.len(),
    ensures
        value_of(entries, entries[i].0) == Some(entries[i].1),
{
    let key = entries[i].0;
    assert(has_key(entries, key));
    let j = choose|j: int| 0 <= j < entries.len() && #[trigger] entries[j].0 == key;
    if j < i {
        assert(entries[j].0 != entries[i].0);
    } else if i < j {
        assert(entries[i].0 != entries[j].0);
    }
}

/// Finds every storage change by its account.
fn index_storages(storages: &Vec<(B256, HashedStorage)>) -> (r: WordIndex)
    requires
        distinct_keys(storages@),
    ensures
        forall|account: B256| #[trigger]
            positions(r).contains_key(account) <==> has_key(storages@, account),
        forall|account: B256| #[trigger]
            positions(r).contains_key(account) ==> positions(r)[account] < storages@.len()
                && storages@[positions(r)[account] as int].0 == account,
{
    let mut index = WordIndex::new();
    let mut i: usize = 0;
    while i < storages.len()
        invariant
            i <= storages.len(),
            forall|account: B256| #[trigger]
                positions(index).contains_key(account) <==> has_key(
                    storages@.take(i as int),
                    account,
                ),
            forall|account: B256| #[trigger]
                positions(index).contains_key(account) ==> positions(index)[account] < i
                    && storages@[positions(index)[account] as int].0 == account,
        decreases storages.len() - i,
    {
        let key: B256 = storages[i].0;
        let ghost before = storages@.take(i as int);
        let ghost after = storages@.take(i + 1);
        index.insert(key, i);
        proof {
            assert forall|account: B256| has_key(after, account) <==> has_key(before, account)
                || account == key by {
                if has_key(before, account) {
                    let j = choose|j: int|
                        0 <= j < before.len() && #[trigger] before[j].0 == account;
                    assert(after[j].0 == account);
                }
                if account == key {
                    assert(after[i as int].0 == account);
                }
                if has_key(after, account) && account != key {
                    let j = choose|j: int| 0 <= j < after.len() && #[trigger] after[j].0 == account;
                    assert(before[j].0 == account);
                }
            }
        }
        i += 1;
    }
    assert(storages@.take(storages.len() as int) =~= storages@);
    index
}

/// Appends the operations on the storage trie of an account.
fn push_storage_steps(
    steps: &mut Vec<TrieStep>,
    account: B256,
    wiped: bool,
    slots: &[(B256, U256)],
    open: bool,
)
    ensures
        final(steps)@ == old(steps)@ + storage_steps(account, wiped, slots@, open),
{
    let ghost start = steps@;
    if wiped {
        steps.push(TrieStep::ClearStorage { account });
    } else if !open {
        steps.push(TrieStep::ReadAccount { account });
        steps.push(TrieStep::OpenStorage { account });
    }
    let ghost base = start + base_steps(account, wiped, open);
    assert(steps@ =~= base);
    let mut i: usize = 0;
    assert(slots@.take(0) =~= Seq::empty());
    while i < slots.len()
        invariant
            i <= slots.len(),
            steps@ =~= base + insert_steps(account, slots@.take(i as int)),
        decreases slots.len() - i,
    {
        let (key, value): (B256, U256) = slots[i];
        proof {
            assert(slots@.take(i + 1).drop_last() =~= slots@.take(i as int));
            assert(slots@.take(i + 1).last() == slots@[i as int]);
        }
        if !value.is_zero() {
            steps.push(TrieStep::InsertSlot { account, key, value });
        }
        i += 1;
    }
    assert(slots@.take(slots.len() as int) =~= slots@);
    let ghost inserted = base + insert_steps(account, slots@);
    let mut j: usize = 0;
    while j < slots.len()
        invariant
            j <= slots.len(),
            steps@ =~= inserted + remove_steps(account, slots@.take(j as int)),
        decreases slots.len() - j,
    {
        let (key, value): (B256, U256) = slots[j];
        proof {
            assert(slots@.take(j + 1).drop_last() =~= slots@.take(j as int));
            assert(slots@.take(j + 1).last() == slots@[j as int]);
        }
        if value.is_zero() {
            steps.push(TrieStep::RemoveSlot { account, key });
        }
        j += 1;
    }
    assert(slots@.take(slots.len() as int) =~= slots@);
    assert(steps@ =~= start + storage_steps(account, wiped, slots@, open));
}

impl SparseState {
    /// Plans the computation of the new state root from the changes of a block.
    pub fn calculate_state_root(&self, state: &HashedPostState) -> (r: StateRootRun)
        requires
            state.wf(),
        ensures
            r.steps() == program(*state, self.open()),
            r.position() == 0,
    {
        let index = index_storages(&state.storages);
        let mut steps: Vec<TrieStep> = Vec::new();
        let mut removed: Vec<B256> = Vec::new();
        let ghost open = self.open();
        let mut i: usize = 0;
        while i < state.accounts.len()
            invariant
                i <= state.accounts.len(),
                state.wf(),
                open == self.open(),
                forall|account: B256| #[trigger]
                    positions(index).contains_key(account) <==> has_key(state.storages@, account),
                forall|account: B256| #[trigger]
                    positions(index).contains_key(account) ==> positions(index)[account]
                        < state.storages@.len() && state.storages@[positions(
                        index,
                    )[account] as int].0 == account,
                steps@ == update_steps(*state, open, i as nat),
                removed@.map_values(|account: B256| TrieStep::RemoveAccount { account })
                    =~= removal_steps(*state, i as nat),
            decreases state.accounts.len() - i,
        {
            let (account, change): (B256, Option<Account>) = state.accounts[i];
            match change {
                // an account that no longer exists is removed once the others are updated
                None => {
                    removed.push(account);
                },
                Some(info) => {
                    let open: bool = self.is_open(&account);
                    match index.get(&account) {
                        None => {
                            push_storage_steps(&mut steps, account, false, &[], open);
                            assert(state.slots(account) =~= Seq::empty());
                        },
                        Some(position) => {
                            proof {
                                lemma_value_of(state.storages@, position as int);
                            }
                            let storage: &HashedStorage = &state.storages[position].1;
                            push_storage_steps(
                                &mut steps,
                                account,
                                storage.wiped,
                                storage.storage.as_slice(),
                                open,
                            );
                        },
                    }
                    steps.push(TrieStep::HashStorage { account });
                    steps.push(TrieStep::InsertAccount { account, info });
                    assert(steps@ =~= update_steps(*state, self.open(), i as nat) + account_steps(
                        *state,
                        self.open(),
                        account,
                        info,
                    ));
                },
            }
            i += 1;
        }
        let ghost updates = steps@;
        let mut j: usize = 0;
        while j < removed.len()
            invariant
                j <= removed.len(),
                steps@ =~= updates + removed@.take(j as int).map_values(
                    |account: B256| TrieStep::RemoveAccount { account },
                ),
            decreases removed.len() - j,
        {
            steps.push(TrieStep::RemoveAccount { account: removed[j] });
            j += 1;
        }
        steps.push(TrieStep::HashState);
        assert(removed@.take(removed.len() as int) =~= removed@);
        assert(steps@ =~= program(*state, self.open()));
        StateRootRun { steps, position: 0 }
    }
}

/// What the keeper of the tries answers to an operation.
pub enum TrieReply {
    /// The operation was performed.
    Done,
    /// The leaf that was looked up, or nothing where there is none.
    Leaf(Option<Vec<u8>>),
    /// The root hash that was computed.
    Root(B256),
}

/// The failure of a computation of a state root.
#[derive(Debug)]
pub enum StateRootError {
    /// The leaf of an account in the state trie is not the encoding of an account.
    Rlp(alloy_rlp::Error),
    /// The answer is of another sort than the operation that was handed out.
    UnexpectedReply,
}

/// The operation on the tries that a step stands for, given the storage tries at hand and the
/// answer to the operation before it.
pub open spec fn performs(
    open: Set<B256>,
    step: TrieStep,
    reply: TrieReply,
    action: TrieAction,
) -> bool {
    match step {
        TrieStep::ReadAccount { account } => action == (TrieAction::ReadAccount { account }),
        TrieStep::OpenStorage { account } => {
            &&& reply matches TrieReply::Leaf(leaf)
            &&& obtains_storage(open, account, leaf_bytes(leaf), action)
        },
        TrieStep::ClearStorage { account } => action == (TrieAction::ClearStorage { account }),
        TrieStep::InsertSlot { account, key, value } => {
            &&& action matches TrieAction::InsertSlot { account: owner, key: hashed_key, leaf }
            &&& owner == account
            &&& hashed_key == key
            &&& leaf@ == slot_rlp(value)
        },
        TrieStep::RemoveSlot { account, key } => action == (TrieAction::RemoveSlot {
            account,
            key,
        }),
        TrieStep::HashStorage { account } => action == (TrieAction::HashStorage { account }),
        TrieStep::InsertAccount { account, info } => {
            &&& reply matches TrieReply::Root(root)
            &&& action matches TrieAction::InsertAccount { account: inserted, leaf }
            &&& inserted == account
            &&& leaf@ == account_rlp(trie_account(info, root))
        },
        TrieStep::RemoveAccount { account } => action == (TrieAction::RemoveAccount { account }),
        TrieStep::HashState => action == TrieAction::HashState,
    }
}

/// The account whose storage trie the step before this one asked for, if it did.
pub open spec fn asked_before(steps: Seq<TrieStep>, p: int) -> Option<B256> {
    if 0 < p <= steps.len() {
        match steps[p - 1] {
            TrieStep::OpenStorage { account } => Some(account),
            _ => None,
        }
    } else {
        None
    }
}

/// A step cannot be taken: the answer before it is of the wrong sort, or is a leaf that does not
/// encode an account where the storage trie has to be built from it.
pub open spec fn refuses(
    open: Set<B256>,
    steps: Seq<TrieStep>,
    p: int,
    reply: TrieReply,
    error: StateRootError,
) -> bool {
    if asked_before(steps, p) is Some && !(reply is Done) {
        error is UnexpectedReply
    } else {
        match steps[p] {
            TrieStep::OpenStorage { account } => match reply {
                TrieReply::Leaf(leaf) => {
                    &&& error is Rlp
                    &&& !open.contains(account)
                    &&& !is_account_leaf(leaf_bytes(leaf))
                },
                _ => error is UnexpectedReply,
            },
            TrieStep::InsertAccount { .. } => !(reply is Root) && error is UnexpectedReply,
            _ => false,
        }
    }
}

/// The storage tries on record once the answer to the step before has been heard: a trie that was
/// asked for is at hand when the answer says so.
pub open spec fn heard(
    steps: Seq<TrieStep>,
    p: int,
    reply: TrieReply,
    open: Set<B256>,
) -> Set<B256> {
    match asked_before(steps, p) {
        Some(account) => if reply is Done {
            open.insert(account)
        } else {
            open
        },
        None => open,
    }
}

/// The storage tries on record once a step has been handed out.
pub open spec fn handed_out(step: TrieStep, open: Set<B256>) -> Set<B256> {
    match step {
        TrieStep::ClearStorage { account } => open.insert(account),
        TrieStep::RemoveAccount { account } => open.remove(account),
        _ => open,
    }
}

/// A step is taken: the operation that is handed out for it, given the answer to the one before, and
/// the storage tries on record before and after.
pub open spec fn takes_step(
    steps: Seq<TrieStep>,
    p: int,
    reply: TrieReply,
    before: Set<B256>,
    action: TrieAction,
    after: Set<B256>,
) -> bool {
    let open = heard(steps, p, reply, before);
    &&& asked_before(steps, p) is Some ==> reply is Done
    &&& performs(open, steps[p], reply, action)
    &&& after == handed_out(steps[p], open)
}

/// The accounts whose storage trie is at hand after a step has been performed.
pub open spec fn open_after(step: TrieStep, open: Set<B256>) -> Set<B256> {
    match step {
        TrieStep::OpenStorage { account } => open.insert(account),
        _ => handed_out(step, open),
    }
}

/// The accounts whose storage trie is at hand after a series of steps.
pub open spec fn opens(open: Set<B256>, steps: Seq<TrieStep>) -> Set<B256>
    decreases steps.len(),
{
    if steps.len() == 0 {
        open
    } else {
        open_after(steps.last(), opens(open, steps.drop_last()))
    }
}

/// A computation of a state root in progress.
pub struct StateRootRun {
    steps: Vec<TrieStep>,
    position: usize,
}

impl StateRootRun {
    /// The operations of the whole computation.
    pub closed spec fn steps(&self) -> Seq<TrieStep> {
        self.steps@
    }

    /// How many operations have been handed out.
    pub closed spec fn position(&self) -> int {
        self.position as int
    }

    /// Hands out the next operation, given the answer to the one before it. The first call takes
    /// `TrieReply::Done`, and so does the one after a storage trie was asked for: it records that
    /// the trie is at hand. Any other answer that the next operation does not need is ignored. Once
    /// every operation has been performed, the answer to the last one is the new state root.
    pub fn next(&mut self, state: &mut SparseState, reply: TrieReply) -> (r: Result<
        TrieAction,
        StateRootError,
    >)
        ensures
            final(self).steps() == old(self).steps(),
            old(self).position() < old(self).steps().len() ==> {
                let steps = old(self).steps();
                let p = old(self).position();
                let open = heard(steps, p, reply, old(state).open());
                match r {
                    Ok(action) => {
                        &&& final(self).position() == p + 1
                        &&& takes_step(
                            steps,
                            p,
                            reply,
                            old(state).open(),
                            action,
                            final(state).open(),
                        )
                    },
                    Err(error) => {
                        &&& final(self).position() == p
                        &&& final(state).open() == open
                        &&& refuses(open, steps, p, reply, error)
                    },
                }
            },
            old(self).position() < old(self).steps().len() ==> match (
                old(self).steps()[old(self).position()],
                r,
            ) {
                (TrieStep::ReadAccount { account }, Ok(action)) => action == (
                TrieAction::ReadAccount { account }),
                (TrieStep::OpenStorage { account }, Ok(action)) => {
                    ||| {
                        &&& action == (TrieAction::KeepStorage { account })
                        &&& old(state).open().contains(account)
                    }
                    ||| {
                        &&& !old(state).open().contains(account)
                        &&& action matches TrieAction::OpenStorage { account: opened, root }
                        &&& opened == account
                        &&& reply matches TrieReply::Leaf(leaf)
                        &&& match leaf {
                            Some(rlp) => exists|read: TrieAccount|
                                rlp@ == #[trigger] account_rlp(read) && read.storage_root == root,
                            None => root == empty_root(),
                        }
                    }
                },
                (TrieStep::ClearStorage { account }, Ok(action)) => {
                    &&& action == (TrieAction::ClearStorage { account })
                    &&& final(state).open().contains(account)
                },
                (TrieStep::InsertSlot { account, key, value }, Ok(action)) => {
                    &&& action matches TrieAction::InsertSlot { account: a, key: k, leaf }
                    &&& a == account && k == key && leaf@ == slot_rlp(value)
                },
                (TrieStep::RemoveSlot { account, key }, Ok(action)) => action == (
                TrieAction::RemoveSlot { account, key }),
                (TrieStep::HashStorage { account }, Ok(action)) => action == (
                TrieAction::HashStorage { account }),
                (TrieStep::InsertAccount { account, info }, Ok(action)) => {
                    &&& reply matches TrieReply::Root(root)
                    &&& action matches TrieAction::InsertAccount { account: a, leaf }
                    &&& a == account
                    &&& leaf@ == account_rlp(
                        (TrieAccount {
                            nonce: info.nonce,
                            balance: info.balance,
                            storage_root: root,
                            code_hash: match info.bytecode_hash {
                                Some(hash) => hash,
                                None => keccak256_digest(Seq::empty()),
                            },
                        }),
                    )
                },
                (TrieStep::RemoveAccount { account }, Ok(action)) => {
                    &&& action == (TrieAction::RemoveAccount { account })
                    &&& !final(state).open().contains(account)
                },
                (TrieStep::HashState, Ok(action)) => action == TrieAction::HashState,
                (_, Err(StateRootError::Rlp(_))) => {
                    &&& reply matches TrieReply::Leaf(Some(rlp))
                    &&& forall|read: TrieAccount| rlp@ != #[trigger] account_rlp(read)
                },
                (TrieStep::OpenStorage { .. }, Err(StateRootError::UnexpectedReply)) => {
                    ||| !(reply is Leaf)
                    ||| old(self).position() > 0 && old(self).steps()[old(self).position()
                        - 1] is OpenStorage
                },
                (TrieStep::InsertAccount { .. }, Err(StateRootError::UnexpectedReply)) => {
                    ||| !(reply is Root)
                    ||| old(self).position() > 0 && old(self).steps()[old(self).position()
                        - 1] is OpenStorage
                },
                (_, Err(StateRootError::UnexpectedReply)) => {
                    &&& old(self).position() > 0
                    &&& old(self).steps()[old(self).position() - 1] is OpenStorage
                    &&& !(reply is Done)
                },
            },
            old(self).position() >= old(self).steps().len() ==> {
                &&& final(self).position() == old(self).position()
                &&& final(state).open() == old(state).open()
                &&& match reply {
                    TrieReply::Root(root) => r == Ok::<TrieAction, StateRootError>(
                        TrieAction::Finish { root },
                    ),
                    _ => r == Err::<TrieAction, StateRootError>(StateRootError::UnexpectedReply),
                }
            },
    {
        if self.position >= self.steps.len() {
            return match reply {
                TrieReply::Root(root) => Ok(TrieAction::Finish { root }),
                _ => Err(StateRootError::UnexpectedReply),
            };
        }
        if self.position > 0 {
            if let TrieStep::OpenStorage { account } = self.steps[self.position - 1] {
                match reply {
                    TrieReply::Done => {
                        state.storage_loaded(account);
                    },
                    _ => {
                        return Err(StateRootError::UnexpectedReply);
                    },
                }
            }
        }
        let action = match self.steps[self.position] {
            TrieStep::ReadAccount { account } => TrieAction::ReadAccount { account },
            TrieStep::OpenStorage { account } => match reply {
                TrieReply::Leaf(leaf) => match state.storage_trie_mut(account, leaf) {
                    Ok(action) => action,
                    Err(error) => {
                        return Err(StateRootError::Rlp(error));
                    },
                },
                _ => {
                    return Err(StateRootError::UnexpectedReply);
                },
            },
            TrieStep::ClearStorage { account } => state.clear_storage(account),
            TrieStep::InsertSlot { account, key, value } => TrieAction::InsertSlot {
                account,
                key,
                leaf: encode_slot(&value),
            },
            TrieStep::RemoveSlot { account, key } => TrieAction::RemoveSlot { account, key },
            TrieStep::HashStorage { account } => TrieAction::HashStorage { account },
            TrieStep::InsertAccount { account, info } => match reply {
                TrieReply::Root(root) => TrieAction::InsertAccount {
                    account,
                    leaf: encode_account(&info.with_storage_root(root)),
                },
                _ => {
                    return Err(StateRootError::UnexpectedReply);
                },
            },
            TrieStep::RemoveAccount { account } => state.remove_account(&account),
            TrieStep::HashState => TrieAction::HashState,
        };
        self.position += 1;
        Ok(action)
    }
}

} // verus!
