//! In which order the steps of a state root computation come, and why each of them can be taken.

use vstd::prelude::*;

use crate::primitives::{B256, U256};
use crate::replay::{
    acts, faithful, law_keeper_reaches_new_state, law_state_root, lemma_opens_concat,
    lemma_run_opens, new_state, new_storages, reports, Tries, World,
};
use crate::sparse_state::{is_account_leaf, leaf_bytes, TrieAction};
use crate::state_root::{
    account_steps, base_steps, handed_out, heard, insert_steps, open_after, opens, performs,
    program, refuses, removal_steps, remove_steps, takes_step, update_steps, Account,
    HashedPostState, StateRootError, TrieReply, TrieStep,
};

verus! {

/// The step before gives what this one needs: a storage trie is built right after its account was
/// looked up, and an account is stored right after its storage root was computed.
pub open spec fn supplied_at(steps: Seq<TrieStep>, p: int) -> bool {
    match steps[p] {
        TrieStep::OpenStorage { account } => p > 0 && steps[p - 1] == (TrieStep::ReadAccount {
            account,
        }),
        TrieStep::InsertAccount { account, .. } => p > 0 && steps[p - 1] == (
        TrieStep::HashStorage { account }),
        _ => true,
    }
}

/// Every step gets what it needs from the one before it.
pub open spec fn supplied(steps: Seq<TrieStep>) -> bool {
    forall|p: int| 0 <= p < steps.len() ==> #[trigger] supplied_at(steps, p)
}

proof fn lemma_supplied_concat(a: Seq<TrieStep>, b: Seq<TrieStep>)
    requires
        supplied(a),
        supplied(b),
    ensures
        supplied(a + b),
{
    assert forall|p: int| 0 <= p < (a + b).len() implies #[trigger] supplied_at(a + b, p) by {
        if p < a.len() {
            assert(supplied_at(a, p));
            if p > 0 {
                assert((a + b)[p - 1] == a[p - 1]);
            }
        } else {
            assert(supplied_at(b, p - a.len()));
            if p > a.len() {
                assert((a + b)[p - 1] == b[p - a.len() - 1]);
            }
        }
    }
}

proof fn lemma_slot_steps(account: B256, slots: Seq<(B256, U256)>)
    ensures
        forall|p: int|
            0 <= p < insert_steps(account, slots).len() ==> {
                &&& #[trigger] insert_steps(account, slots)[p] matches TrieStep::InsertSlot {
                    account: owner,
                    ..
                }
                &&& owner == account
            },
        forall|p: int|
            0 <= p < remove_steps(account, slots).len() ==> {
                &&& #[trigger] remove_steps(account, slots)[p] matches TrieStep::RemoveSlot {
                    account: owner,
                    ..
                }
                &&& owner == account
            },
    decreases slots.len(),
{
    if slots.len() > 0 {
        lemma_slot_steps(account, slots.drop_last());
    }
}

proof fn lemma_supplied_account(
    post: HashedPostState,
    open: Set<B256>,
    account: B256,
    info: Account,
)
    ensures
        supplied(account_steps(post, open, account, info)),
{
    let wiped = post.wiped(account);
    let slots = post.slots(account);
    let base = base_steps(account, wiped, open.contains(account));
    let inserts = insert_steps(account, slots);
    let removes = remove_steps(account, slots);
    let tail = seq![TrieStep::HashStorage { account }, TrieStep::InsertAccount { account, info }];
    lemma_slot_steps(account, slots);
    assert(supplied(base));
    assert(supplied(inserts));
    assert(supplied(removes));
    assert(supplied(tail));
    lemma_supplied_concat(base, inserts);
    lemma_supplied_concat(base + inserts, removes);
    lemma_supplied_concat(base + inserts + removes, tail);
}

proof fn lemma_supplied_updates(post: HashedPostState, open: Set<B256>, n: nat)
    ensures
        supplied(update_steps(post, open, n)),
    decreases n,
{
    if n > 0 {
        let m = (n - 1) as nat;
        lemma_supplied_updates(post, open, m);
        if let Some(info) = post.accounts@[n - 1].1 {
            let account = post.accounts@[n - 1].0;
            lemma_supplied_account(post, open, account, info);
            lemma_supplied_concat(
                update_steps(post, open, m),
                account_steps(post, open, account, info),
            );
        }
    }
}

proof fn lemma_removal_steps(post: HashedPostState, n: nat)
    ensures
        forall|p: int|
            0 <= p < removal_steps(post, n).len() ==> (#[trigger] removal_steps(
                post,
                n,
            )[p]) is RemoveAccount,
    decreases n,
{
    if n > 0 {
        lemma_removal_steps(post, (n - 1) as nat);
    }
}

/// Every step of the computation gets the answer it needs from the step before it, and the last
/// step alone computes the state root.
pub proof fn law_steps_are_supplied(post: HashedPostState, open: Set<B256>)
    ensures
        supplied(program(post, open)),
        program(post, open).len() > 0,
        program(post, open).last() is HashState,
        forall|p: int|
            0 <= p < program(post, open).len() - 1 ==> !((#[trigger] program(
                post,
                open,
            )[p]) is HashState),
{
    let n = post.accounts@.len();
    let updates = update_steps(post, open, n);
    let removals = removal_steps(post, n);
    lemma_supplied_updates(post, open, n);
    lemma_removal_steps(post, n);
    lemma_update_owners(post, open, n);
    assert(supplied(removals));
    assert(supplied(seq![TrieStep::HashState]));
    lemma_supplied_concat(updates, removals);
    lemma_supplied_concat(updates + removals, seq![TrieStep::HashState]);
    assert forall|p: int| 0 <= p < program(post, open).len() - 1 implies !((#[trigger] program(
        post,
        open,
    )[p]) is HashState) by {
        if p < updates.len() {
            assert(program(post, open)[p] == updates[p]);
        } else {
            assert(program(post, open)[p] == removals[p - updates.len()]);
        }
    }
}

/// The answer is of the sort that a step asks for.
pub open spec fn answers(step: TrieStep, reply: TrieReply) -> bool {
    match step {
        TrieStep::ReadAccount { .. } => reply is Leaf,
        TrieStep::OpenStorage { .. } => reply is Done,
        TrieStep::HashStorage { .. } => reply is Root,
        TrieStep::HashState => reply is Root,
        _ => true,
    }
}

/// The computation never stops halfway: where each step is answered with what it asks for, and
/// the leaves of the state trie encode accounts, the next step can be taken.
pub proof fn law_next_step_possible(
    post: HashedPostState,
    open: Set<B256>,
    p: int,
    reply: TrieReply,
    now: Set<B256>,
    error: StateRootError,
)
    requires
        0 <= p < program(post, open).len(),
        p > 0 ==> answers(program(post, open)[p - 1], reply),
        reply matches TrieReply::Leaf(leaf) ==> is_account_leaf(leaf_bytes(leaf)),
    ensures
        !refuses(now, program(post, open), p, reply, error),
{
    law_steps_are_supplied(post, open);
    assert(supplied_at(program(post, open), p));
}

/// The account that an update step works on, or nothing for any other step.
pub open spec fn updated_account(step: TrieStep) -> Option<B256> {
    match step {
        TrieStep::ReadAccount { account } => Some(account),
        TrieStep::OpenStorage { account } => Some(account),
        TrieStep::ClearStorage { account } => Some(account),
        TrieStep::InsertSlot { account, .. } => Some(account),
        TrieStep::RemoveSlot { account, .. } => Some(account),
        TrieStep::HashStorage { account } => Some(account),
        TrieStep::InsertAccount { account, .. } => Some(account),
        TrieStep::RemoveAccount { .. } => None,
        TrieStep::HashState => None,
    }
}

proof fn lemma_account_owner(
    post: HashedPostState,
    open: Set<B256>,
    account: B256,
    info: Account,
)
    ensures
        forall|p: int|
            0 <= p < account_steps(post, open, account, info).len() ==> updated_account(
                #[trigger] account_steps(post, open, account, info)[p],
            ) == Some(account),
{
    lemma_slot_steps(account, post.slots(account));
    let steps = account_steps(post, open, account, info);
    let base = base_steps(account, post.wiped(account), open.contains(account));
    let inserts = insert_steps(account, post.slots(account));
    let removes = remove_steps(account, post.slots(account));
    assert forall|p: int| 0 <= p < steps.len() implies updated_account(#[trigger] steps[p]) == Some(
        account,
    ) by {
        if p < base.len() {
            assert(steps[p] == base[p]);
        } else if p < base.len() + inserts.len() {
            assert(steps[p] == inserts[p - base.len()]);
        } else if p < base.len() + inserts.len() + removes.len() {
            assert(steps[p] == removes[p - base.len() - inserts.len()]);
        }
    }
}

/// An update step works on one of the listed accounts.
spec fn owned(post: HashedPostState, n: nat, step: TrieStep) -> bool {
    exists|i: int|
        0 <= i < n && updated_account(step) == Some((#[trigger] post.accounts@[i]).0)
}

proof fn lemma_update_owners(post: HashedPostState, open: Set<B256>, n: nat)
    ensures
        forall|p: int|
            0 <= p < update_steps(post, open, n).len() ==> owned(
                post,
                n,
                #[trigger] update_steps(post, open, n)[p],
            ),
    decreases n,
{
    if n > 0 {
        let m = (n - 1) as nat;
        let before = update_steps(post, open, m);
        let steps = update_steps(post, open, n);
        lemma_update_owners(post, open, m);
        let account = post.accounts@[n - 1].0;
        if let Some(info) = post.accounts@[n - 1].1 {
            lemma_account_owner(post, open, account, info);
        }
        assert forall|p: int| 0 <= p < steps.len() implies owned(post, n, #[trigger] steps[p]) by {
            if p < before.len() {
                assert(steps[p] == before[p]);
                assert(owned(post, m, before[p]));
                let i = choose|i: int|
                    0 <= i < m && updated_account(before[p]) == Some(
                        (#[trigger] post.accounts@[i]).0,
                    );
                assert(0 <= i < n && updated_account(steps[p]) == Some(post.accounts@[i].0));
            } else {
                assert(updated_account(steps[p]) == Some(post.accounts@[n - 1].0));
            }
        }
    }
}

/// Once an account has been removed, only removals and the final hash follow.
pub proof fn law_account_removals_last(post: HashedPostState, open: Set<B256>, p: int, q: int)
    requires
        0 <= p < q < program(post, open).len(),
        program(post, open)[p] is RemoveAccount,
    ensures
        program(post, open)[q] is RemoveAccount || program(post, open)[q] is HashState,
{
    let n = post.accounts@.len();
    let updates = update_steps(post, open, n);
    let removals = removal_steps(post, n);
    lemma_removal_steps(post, n);
    lemma_update_owners(post, open, n);
    if p < updates.len() {
        assert(program(post, open)[p] == updates[p]);
        assert(owned(post, n, updates[p]));
    }
    if q < updates.len() + removals.len() {
        assert(program(post, open)[q] == removals[q - updates.len()]);
    }
}

proof fn lemma_account_slot_order(
    post: HashedPostState,
    open: Set<B256>,
    account: B256,
    info: Account,
    p: int,
    q: int,
)
    requires
        0 <= p < q < account_steps(post, open, account, info).len(),
        account_steps(post, open, account, info)[p] is RemoveSlot,
    ensures
        !(account_steps(post, open, account, info)[q] is InsertSlot),
{
    lemma_slot_steps(account, post.slots(account));
    let steps = account_steps(post, open, account, info);
    let base = base_steps(account, post.wiped(account), open.contains(account));
    let inserts = insert_steps(account, post.slots(account));
    let removes = remove_steps(account, post.slots(account));
    if p < base.len() {
        assert(steps[p] == base[p]);
    } else if p < base.len() + inserts.len() {
        assert(steps[p] == inserts[p - base.len()]);
    } else if q < base.len() + inserts.len() + removes.len() {
        assert(steps[q] == removes[q - base.len() - inserts.len()]);
    }
}

proof fn lemma_update_slot_order(
    post: HashedPostState,
    open: Set<B256>,
    n: nat,
    account: B256,
    p: int,
    q: int,
)
    requires
        post.wf(),
        n <= post.accounts@.len(),
        0 <= p < q < update_steps(post, open, n).len(),
        update_steps(post, open, n)[p] is RemoveSlot,
        updated_account(update_steps(post, open, n)[p]) == Some(account),
        updated_account(update_steps(post, open, n)[q]) == Some(account),
    ensures
        !(update_steps(post, open, n)[q] is InsertSlot),
    decreases n,
{
    if n > 0 {
        let m = (n - 1) as nat;
        let before = update_steps(post, open, m);
        let steps = update_steps(post, open, n);
        lemma_update_owners(post, open, m);
        let last = post.accounts@[n - 1].0;
        if let Some(info) = post.accounts@[n - 1].1 {
            let own = account_steps(post, open, last, info);
            lemma_account_owner(post, open, last, info);
            if q < before.len() {
                assert(steps[p] == before[p] && steps[q] == before[q]);
                lemma_update_slot_order(post, open, m, account, p, q);
            } else if p < before.len() {
                assert(steps[p] == before[p]);
                assert(owned(post, m, before[p]));
                assert(steps[q] == own[q - before.len()]);
            } else {
                assert(steps[p] == own[p - before.len()]);
                assert(steps[q] == own[q - before.len()]);
                lemma_account_slot_order(
                    post,
                    open,
                    last,
                    info,
                    p - before.len(),
                    q - before.len(),
                );
            }
        } else {
            lemma_update_slot_order(post, open, m, account, p, q);
        }
    }
}

/// Once a slot of an account has been removed, no slot of that account is inserted any more.
pub proof fn law_slot_removals_last(
    post: HashedPostState,
    open: Set<B256>,
    account: B256,
    p: int,
    q: int,
)
    requires
        post.wf(),
        0 <= p < q < program(post, open).len(),
        program(post, open)[p] matches TrieStep::RemoveSlot { account: owner, .. } && owner
            == account,
    ensures
        !(program(post, open)[q] matches TrieStep::InsertSlot { account: owner, .. } && owner
            == account),
{
    let n = post.accounts@.len();
    let updates = update_steps(post, open, n);
    let removals = removal_steps(post, n);
    lemma_removal_steps(post, n);
    if p < updates.len() {
        assert(program(post, open)[p] == updates[p]);
    } else if p < updates.len() + removals.len() {
        assert(program(post, open)[p] == removals[p - updates.len()]);
    }
    if q < updates.len() {
        assert(program(post, open)[q] == updates[q]);
        if updated_account(updates[q]) == Some(account) {
            lemma_update_slot_order(post, open, n, account, p, q);
        }
    } else if q < updates.len() + removals.len() {
        assert(program(post, open)[q] == removals[q - updates.len()]);
    }
}

proof fn lemma_opens_slots(open: Set<B256>, account: B256, slots: Seq<(B256, U256)>)
    ensures
        opens(open, insert_steps(account, slots)) == open,
        opens(open, remove_steps(account, slots)) == open,
    decreases slots.len(),
{
    if slots.len() > 0 {
        let before = slots.drop_last();
        lemma_opens_slots(open, account, before);
        if slots.last().1.spec_is_zero() {
            assert(remove_steps(account, slots).drop_last() =~= remove_steps(account, before));
        } else {
            assert(insert_steps(account, slots).drop_last() =~= insert_steps(account, before));
        }
    }
}

proof fn lemma_opens_two(open: Set<B256>, a: TrieStep, b: TrieStep)
    ensures
        opens(open, seq![a, b]) == open_after(b, open_after(a, open)),
        opens(open, seq![a]) == open_after(a, open),
{
    assert(seq![a].drop_last() =~= Seq::empty());
    assert(seq![a, b].drop_last() =~= seq![a]);
    assert(opens(open, Seq::<TrieStep>::empty()) == open);
    assert(opens(open, seq![a]) == open_after(a, open));
}

proof fn lemma_opens_base(account: B256, wiped: bool, open: bool, now: Set<B256>)
    requires
        open ==> now.contains(account),
    ensures
        opens(now, base_steps(account, wiped, open)) == now.insert(account),
{
    let read = TrieStep::ReadAccount { account };
    lemma_opens_two(now, TrieStep::ClearStorage { account }, read);
    lemma_opens_two(now, read, TrieStep::OpenStorage { account });
    assert(opens(now, base_steps(account, wiped, open)) =~= now.insert(account));
}

proof fn lemma_opens_account(
    post: HashedPostState,
    initial: Set<B256>,
    now: Set<B256>,
    account: B256,
    info: Account,
)
    requires
        initial.contains(account) ==> now.contains(account),
    ensures
        opens(now, account_steps(post, initial, account, info)) == now.insert(account),
{
    let wiped = post.wiped(account);
    let slots = post.slots(account);
    let base = base_steps(account, wiped, initial.contains(account));
    let inserts = insert_steps(account, slots);
    let removes = remove_steps(account, slots);
    let hash = TrieStep::HashStorage { account };
    let insert = TrieStep::InsertAccount { account, info };
    lemma_opens_base(account, wiped, initial.contains(account), now);
    lemma_opens_concat(now, base, inserts);
    lemma_opens_concat(now, base + inserts, removes);
    lemma_opens_slots(now.insert(account), account, slots);
    lemma_opens_concat(now, base + inserts + removes, seq![hash, insert]);
    lemma_opens_two(now.insert(account), hash, insert);
}

proof fn lemma_opens_updates(post: HashedPostState, open: Set<B256>, n: nat, account: B256)
    requires
        n <= post.accounts@.len(),
    ensures
        opens(open, update_steps(post, open, n)).contains(account) == (open.contains(account)
            || exists|i: int|
            0 <= i < n && (#[trigger] post.accounts@[i]).0 == account && post.accounts@[i].1
                is Some),
    decreases n,
{
    if n > 0 {
        let m = (n - 1) as nat;
        let last = post.accounts@[n - 1].0;
        let now = opens(open, update_steps(post, open, m));
        lemma_opens_updates(post, open, m, account);
        lemma_opens_updates(post, open, m, last);
        if let Some(info) = post.accounts@[n - 1].1 {
            lemma_opens_account(post, open, now, last, info);
            lemma_opens_concat(
                open,
                update_steps(post, open, m),
                account_steps(post, open, last, info),
            );
            if account == last {
                assert(post.accounts@[n - 1].0 == account && post.accounts@[n - 1].1 is Some);
            }
        }
        if exists|i: int|
            0 <= i < m && (#[trigger] post.accounts@[i]).0 == account && post.accounts@[i].1
                is Some {
            let i = choose|i: int|
                0 <= i < m && (#[trigger] post.accounts@[i]).0 == account && post.accounts@[i].1
                    is Some;
            assert(0 <= i < n && post.accounts@[i].0 == account && post.accounts@[i].1 is Some);
        }
    }
}

/// The account whose storage trie a step works on.
pub open spec fn works_on(step: TrieStep) -> Option<B256> {
    match step {
        TrieStep::InsertSlot { account, .. } => Some(account),
        TrieStep::RemoveSlot { account, .. } => Some(account),
        TrieStep::HashStorage { account } => Some(account),
        _ => None,
    }
}

/// A step works on no storage trie but one at hand.
pub open spec fn grounded_at(open: Set<B256>, steps: Seq<TrieStep>, p: int) -> bool {
    match works_on(steps[p]) {
        Some(account) => opens(open, steps.take(p)).contains(account),
        None => true,
    }
}

/// Every step works on no storage trie but one at hand.
pub open spec fn grounded(open: Set<B256>, steps: Seq<TrieStep>) -> bool {
    forall|p: int| 0 <= p < steps.len() ==> #[trigger] grounded_at(open, steps, p)
}

proof fn lemma_grounded_concat(open: Set<B256>, a: Seq<TrieStep>, b: Seq<TrieStep>)
    requires
        grounded(open, a),
        grounded(opens(open, a), b),
    ensures
        grounded(open, a + b),
{
    assert forall|p: int| 0 <= p < (a + b).len() implies #[trigger] grounded_at(
        open,
        a + b,
        p,
    ) by {
        if p < a.len() {
            assert(grounded_at(open, a, p));
            assert((a + b).take(p) =~= a.take(p));
        } else {
            let q = p - a.len();
            assert(grounded_at(opens(open, a), b, q));
            assert((a + b).take(p) =~= a + b.take(q));
            lemma_opens_concat(open, a, b.take(q));
        }
    }
}

proof fn lemma_grounded_slots(open: Set<B256>, account: B256, slots: Seq<(B256, U256)>)
    requires
        open.contains(account),
    ensures
        grounded(open, insert_steps(account, slots)),
        grounded(open, remove_steps(account, slots)),
    decreases slots.len(),
{
    if slots.len() > 0 {
        let before = slots.drop_last();
        let (key, value) = slots.last();
        lemma_grounded_slots(open, account, before);
        lemma_opens_slots(open, account, before);
        let (a, step) = if value.spec_is_zero() {
            (remove_steps(account, before), TrieStep::RemoveSlot { account, key })
        } else {
            (insert_steps(account, before), TrieStep::InsertSlot { account, key, value })
        };
        assert(grounded(open, seq![step])) by {
            assert(seq![step].take(0) =~= Seq::empty());
            assert(grounded_at(open, seq![step], 0));
        }
        lemma_grounded_concat(open, a, seq![step]);
        assert(a + seq![step] =~= a.push(step));
    }
}

proof fn lemma_grounded_account(
    post: HashedPostState,
    initial: Set<B256>,
    now: Set<B256>,
    account: B256,
    info: Account,
)
    requires
        initial.contains(account) ==> now.contains(account),
    ensures
        grounded(now, account_steps(post, initial, account, info)),
{
    let wiped = post.wiped(account);
    let slots = post.slots(account);
    let base = base_steps(account, wiped, initial.contains(account));
    let inserts = insert_steps(account, slots);
    let removes = remove_steps(account, slots);
    let hash = TrieStep::HashStorage { account };
    let insert = TrieStep::InsertAccount { account, info };
    let after = now.insert(account);
    lemma_opens_base(account, wiped, initial.contains(account), now);
    assert(grounded(now, base));
    lemma_grounded_slots(after, account, slots);
    lemma_opens_slots(after, account, slots);
    lemma_opens_concat(now, base, inserts);
    lemma_opens_concat(now, base + inserts, removes);
    lemma_grounded_concat(now, base, inserts);
    lemma_grounded_concat(now, base + inserts, removes);
    assert(grounded(after, seq![hash, insert])) by {
        assert(seq![hash, insert].take(0) =~= Seq::empty());
        assert(grounded_at(after, seq![hash, insert], 0));
    }
    lemma_grounded_concat(now, base + inserts + removes, seq![hash, insert]);
}

proof fn lemma_grounded_updates(post: HashedPostState, open: Set<B256>, n: nat)
    requires
        n <= post.accounts@.len(),
    ensures
        grounded(open, update_steps(post, open, n)),
    decreases n,
{
    if n > 0 {
        let m = (n - 1) as nat;
        let account = post.accounts@[n - 1].0;
        lemma_grounded_updates(post, open, m);
        if let Some(info) = post.accounts@[n - 1].1 {
            let now = opens(open, update_steps(post, open, m));
            lemma_opens_updates(post, open, m, account);
            lemma_grounded_account(post, open, now, account, info);
            lemma_grounded_concat(
                open,
                update_steps(post, open, m),
                account_steps(post, open, account, info),
            );
        }
    }
}

/// No step changes or hashes a storage trie that is not at hand.
pub proof fn law_steps_are_grounded(post: HashedPostState, open: Set<B256>)
    ensures
        grounded(open, program(post, open)),
{
    let n = post.accounts@.len();
    let updates = update_steps(post, open, n);
    let removals = removal_steps(post, n);
    lemma_grounded_updates(post, open, n);
    lemma_removal_steps(post, n);
    assert(grounded(opens(open, updates), removals));
    lemma_grounded_concat(open, updates, removals);
    assert(grounded(opens(open, updates + removals), seq![TrieStep::HashState]));
    lemma_grounded_concat(open, updates + removals, seq![TrieStep::HashState]);
}

/// The storage tries on record before the step at a position is handed out, where every trie that
/// was asked for before has been built.
pub open spec fn on_record(open: Set<B256>, steps: Seq<TrieStep>, p: nat) -> Set<B256>
    decreases p,
{
    if p == 0 {
        open
    } else {
        let before = on_record(open, steps, (p - 1) as nat);
        handed_out(steps[p - 1], heard(steps, p - 1, TrieReply::Done, before))
    }
}

/// The record is true: once the answer to the step before has been heard, the accounts on record
/// are those whose storage trie is at hand.
pub proof fn law_record_is_true(open: Set<B256>, steps: Seq<TrieStep>, p: nat)
    requires
        p <= steps.len(),
    ensures
        heard(steps, p as int, TrieReply::Done, on_record(open, steps, p)) == opens(
            open,
            steps.take(p as int),
        ),
    decreases p,
{
    if p == 0 {
        assert(steps.take(0) =~= Seq::empty());
    } else {
        law_record_is_true(open, steps, (p - 1) as nat);
        assert(steps.take(p as int).drop_last() =~= steps.take(p - 1));
        assert(steps.take(p as int).last() == steps[p - 1]);
    }
}

/// The accounts that are recorded as having their storage trie at hand are exactly those that
/// have one once the computation is over.
pub proof fn law_open_storages_tracked(tries: Tries, world: World, post: HashedPostState)
    requires
        post.wf(),
    ensures
        ({
            let open = world.storages.dom();
            let steps = program(post, open);
            on_record(open, steps, steps.len()) == new_storages(tries, world, post).dom()
        }),
{
    let open = world.storages.dom();
    let steps = program(post, open);
    law_steps_are_supplied(post, open);
    law_record_is_true(open, steps, steps.len());
    assert(steps.take(steps.len() as int) =~= steps);
    lemma_run_opens(tries, world, steps);
    law_state_root(tries, world, post);
}

/// A whole computation by calls of `StateRootRun::next`: the answer that each call was given, the
/// operation that it handed out, and the storage tries on record before each call and after the
/// last. Every answer reports truly what the operations so far found.
pub open spec fn whole_run(
    tries: Tries,
    world: World,
    steps: Seq<TrieStep>,
    replies: Seq<TrieReply>,
    actions: Seq<TrieAction>,
    records: Seq<Set<B256>>,
) -> bool {
    &&& replies.len() == steps.len()
    &&& actions.len() == steps.len()
    &&& records.len() == steps.len() + 1
    &&& records[0] == world.storages.dom()
    &&& forall|p: int|
        0 <= p < steps.len() ==> #[trigger] takes_step(
            steps,
            p,
            replies[p],
            records[p],
            actions[p],
            records[p + 1],
        )
    &&& forall|p: int|
        0 <= p < steps.len() ==> #[trigger] reports(
            replies[p],
            acts(tries, world, actions.take(p)),
        )
}

proof fn lemma_records(
    tries: Tries,
    world: World,
    steps: Seq<TrieStep>,
    replies: Seq<TrieReply>,
    actions: Seq<TrieAction>,
    records: Seq<Set<B256>>,
    p: nat,
)
    requires
        whole_run(tries, world, steps, replies, actions, records),
        p <= steps.len(),
    ensures
        records[p as int] == on_record(world.storages.dom(), steps, p),
        p < steps.len() ==> heard(steps, p as int, replies[p as int], records[p as int]) == opens(
            world.storages.dom(),
            steps.take(p as int),
        ),
    decreases p,
{
    let open = world.storages.dom();
    if p > 0 {
        let q = p - 1;
        lemma_records(tries, world, steps, replies, actions, records, q as nat);
        assert(takes_step(steps, q, replies[q], records[q], actions[q], records[q + 1]));
    }
    if p < steps.len() {
        law_record_is_true(open, steps, p);
        assert(takes_step(
            steps,
            p as int,
            replies[p as int],
            records[p as int],
            actions[p as int],
            records[p as int + 1],
        ));
    }
}

/// A computation that `StateRootRun::next` drives to its end, with a keeper of the tries that
/// performs what it is asked for and answers truly, turns the tries before the block into those
/// after it. The record of storage tries at hand is then true, and the answer to the last operation
/// is the root hash of the new state.
pub proof fn law_whole_run(
    tries: Tries,
    world: World,
    post: HashedPostState,
    replies: Seq<TrieReply>,
    actions: Seq<TrieAction>,
    records: Seq<Set<B256>>,
    last: TrieReply,
)
    requires
        post.wf(),
        whole_run(
            tries,
            world,
            program(post, world.storages.dom()),
            replies,
            actions,
            records,
        ),
        reports(last, acts(tries, world, actions)),
    ensures
        ({
            let after = acts(tries, world, actions);
            &&& after.state == new_state(tries, world, post)
            &&& after.storages == new_storages(tries, world, post)
            &&& after.root == (tries.hash)(new_state(tries, world, post))
            &&& records.last() == after.storages.dom()
        }),
        last matches TrieReply::Root(root) ==> root == (tries.hash)(
            new_state(tries, world, post),
        ),
{
    let open = world.storages.dom();
    let steps = program(post, open);
    assert forall|p: int| 0 <= p < steps.len() implies {
        &&& #[trigger] performs(opens(open, steps.take(p)), steps[p], replies[p], actions[p])
        &&& reports(replies[p], acts(tries, world, actions.take(p)))
    } by {
        lemma_records(tries, world, steps, replies, actions, records, p as nat);
        assert(takes_step(steps, p, replies[p], records[p], actions[p], records[p + 1]));
        assert(reports(replies[p], acts(tries, world, actions.take(p))));
    }
    assert(faithful(tries, world, steps, replies, actions));
    law_keeper_reaches_new_state(tries, world, post, replies, actions);
    lemma_records(tries, world, steps, replies, actions, records, steps.len());
    law_open_storages_tracked(tries, world, post);
}

} // verus!
