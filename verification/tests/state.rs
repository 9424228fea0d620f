use std::collections::{BTreeMap, BTreeSet};

use alloy_trie::{HashBuilder, Nibbles};
use zeth::primitives::U256;
use zeth::rlp::{account_from_leaf, slot_from_leaf, TrieAccount};
use zeth::sparse_state::{
    AccountRead, ProviderError, SparseState, StatelessValidationError, TrieAction,
};
use zeth::state_root::{
    Account, HashedPostState, HashedStorage, StateRootError, TrieReply,
};
use zeth::ExecutionWitness;

type Word = [u8; 32];
type Leaves = BTreeMap<Word, Vec<u8>>;

const EMPTY_ROOT: Word = [
    0x56, 0xe8, 0x1f, 0x17, 0x1b, 0xcc, 0x55, 0xa6, 0xff, 0x83, 0x45, 0xe6, 0x92, 0xc0, 0xf8,
    0x6e, 0x5b, 0x48, 0xe0, 0x1b, 0x99, 0x6c, 0xad, 0xc0, 0x01, 0x62, 0x2f, 0xb5, 0xe3, 0x63,
    0xb4, 0x21,
];
const EMPTY_CODE: Word = [
    0xc5, 0xd2, 0x46, 0x01, 0x86, 0xf7, 0x23, 0x3c, 0x92, 0x7e, 0x7d, 0xb2, 0xdc, 0xc7, 0x03,
    0xc0, 0xe5, 0x00, 0xb6, 0x53, 0xca, 0x82, 0x27, 0x3b, 0x7b, 0xfa, 0xd8, 0x04, 0x5d, 0x85,
    0xa4, 0x70,
];

fn word(n: u8) -> Word {
    [n; 32]
}

fn number(n: u64) -> U256 {
    U256 { be: alloy_primitives::U256::from(n).to_be_bytes() }
}

fn root(leaves: &Leaves) -> Word {
    let mut builder = HashBuilder::default();
    for (key, leaf) in leaves {
        builder.add_leaf(Nibbles::unpack(key), leaf);
    }
    builder.root().0
}

fn leaf(n: u64) -> Vec<u8> {
    alloy_rlp::encode(alloy_primitives::U256::from(n))
}

fn account_leaf(nonce: u64, balance: u64, storage_root: Word, code_hash: Word) -> Vec<u8> {
    alloy_rlp::encode(alloy_trie::TrieAccount {
        nonce,
        balance: alloy_primitives::U256::from(balance),
        storage_root: storage_root.into(),
        code_hash: code_hash.into(),
    })
}

fn info(nonce: u64, balance: u64) -> Account {
    Account { nonce, balance: number(balance), bytecode_hash: None }
}

/// Keeps the tries as sorted maps, and performs what it is asked for.
#[derive(Default)]
struct Keeper {
    state: Leaves,
    storages: BTreeMap<Word, Leaves>,
    witness: BTreeMap<Word, Leaves>,
    opened: BTreeSet<Word>,
    order: Vec<&'static str>,
}

impl Keeper {
    fn add_account(&mut self, account: Word, nonce: u64, storage: &[(u8, u64)]) {
        let leaves: Leaves = storage.iter().map(|(k, v)| (word(*k), leaf(*v))).collect();
        let storage_root = root(&leaves);
        self.witness.insert(storage_root, leaves);
        self.state.insert(account, account_leaf(nonce, 0, storage_root, EMPTY_CODE));
    }

    fn calculate(&mut self, state: &mut SparseState, post: &HashedPostState) -> Word {
        let mut run = state.calculate_state_root(post);
        let mut reply = TrieReply::Done;
        loop {
            reply = match run.next(state, reply).unwrap() {
                TrieAction::ReadAccount { account } => {
                    self.order.push("read");
                    TrieReply::Leaf(self.state.get(&account).cloned())
                }
                TrieAction::OpenStorage { account, root } => {
                    self.order.push("open");
                    assert!(self.opened.insert(account));
                    self.storages.insert(account, self.witness[&root].clone());
                    TrieReply::Done
                }
                TrieAction::KeepStorage { .. } => {
                    self.order.push("keep");
                    TrieReply::Done
                }
                TrieAction::ClearStorage { account } => {
                    self.order.push("clear");
                    self.storages.insert(account, Leaves::new());
                    TrieReply::Done
                }
                TrieAction::InsertSlot { account, key, leaf } => {
                    self.order.push("insert slot");
                    self.storages.get_mut(&account).unwrap().insert(key, leaf);
                    TrieReply::Done
                }
                TrieAction::RemoveSlot { account, key } => {
                    self.order.push("remove slot");
                    self.storages.get_mut(&account).unwrap().remove(&key);
                    TrieReply::Done
                }
                TrieAction::HashStorage { account } => {
                    self.order.push("hash storage");
                    TrieReply::Root(root(&self.storages[&account]))
                }
                TrieAction::InsertAccount { account, leaf } => {
                    self.order.push("insert account");
                    self.state.insert(account, leaf);
                    TrieReply::Done
                }
                TrieAction::RemoveAccount { account } => {
                    self.order.push("remove account");
                    self.state.remove(&account);
                    self.storages.remove(&account);
                    TrieReply::Done
                }
                TrieAction::HashState => {
                    self.order.push("hash state");
                    TrieReply::Root(root(&self.state))
                }
                TrieAction::Finish { root } => return root,
            };
        }
    }
}

fn empty_witness() -> ExecutionWitness {
    ExecutionWitness { state: vec![], codes: vec![], keys: vec![], headers: vec![] }
}

fn new_state() -> SparseState {
    SparseState::new(&empty_witness()).0
}

#[test]
fn empty_root_is_the_digest_of_the_empty_string() {
    assert_eq!(root(&Leaves::new()), EMPTY_ROOT);
    assert_eq!(alloy_primitives::keccak256([0x80]).0, EMPTY_ROOT);
    assert_eq!(alloy_primitives::keccak256([]).0, EMPTY_CODE);
}

#[test]
fn no_changes_keep_the_state_root() {
    let mut keeper = Keeper::default();
    keeper.add_account(word(1), 5, &[]);
    let before = root(&keeper.state);
    let post = HashedPostState { accounts: vec![], storages: vec![] };
    assert_eq!(keeper.calculate(&mut new_state(), &post), before);
    assert_eq!(keeper.order, vec!["hash state"]);
}

#[test]
fn empty_state_has_the_empty_root() {
    let post = HashedPostState { accounts: vec![], storages: vec![] };
    assert_eq!(Keeper::default().calculate(&mut new_state(), &post), EMPTY_ROOT);
}

#[test]
fn new_account_is_stored_with_defaults() {
    let mut keeper = Keeper::default();
    keeper.witness.insert(EMPTY_ROOT, Leaves::new());
    let mut state = new_state();
    let post =
        HashedPostState { accounts: vec![(word(7), Some(info(0, 0)))], storages: vec![] };
    let result = keeper.calculate(&mut state, &post);
    let mut expected = vec![0xf8, 0x44, 0x80, 0x80, 0xa0];
    expected.extend_from_slice(&EMPTY_ROOT);
    expected.push(0xa0);
    expected.extend_from_slice(&EMPTY_CODE);
    assert_eq!(keeper.state[&word(7)], expected);
    assert_eq!(result, root(&keeper.state));
    assert_eq!(
        keeper.order,
        vec!["read", "open", "hash storage", "insert account", "hash state"]
    );
    assert!(state.is_open(&word(7)));
}

#[test]
fn storage_changes_reach_the_account() {
    let mut keeper = Keeper::default();
    keeper.add_account(word(1), 1, &[(1, 10), (2, 20), (3, 30)]);
    let mut state = new_state();
    let post = HashedPostState {
        accounts: vec![(
            word(1),
            Some(Account { nonce: 2, balance: number(1000), bytecode_hash: Some(word(9)) }),
        )],
        storages: vec![(
            word(1),
            HashedStorage {
                wiped: false,
                storage: vec![
                    (word(1), number(0)),
                    (word(2), number(128)),
                    (word(4), number(1)),
                    (word(5), number(0)),
                ],
            },
        )],
    };
    let result = keeper.calculate(&mut state, &post);
    let storage: Leaves =
        [(word(2), vec![0x81, 0x80]), (word(3), vec![30]), (word(4), vec![1])].into();
    assert_eq!(keeper.storages[&word(1)], storage);
    assert_eq!(keeper.state[&word(1)], account_leaf(2, 1000, root(&storage), word(9)));
    assert_eq!(result, root(&keeper.state));
    // removals come after the insertions
    assert_eq!(
        keeper.order,
        vec![
            "read",
            "open",
            "insert slot",
            "insert slot",
            "remove slot",
            "remove slot",
            "hash storage",
            "insert account",
            "hash state"
        ]
    );
}

#[test]
fn wiped_storage_starts_empty() {
    let mut keeper = Keeper::default();
    keeper.add_account(word(1), 1, &[(1, 10), (2, 20)]);
    let mut state = new_state();
    let post = HashedPostState {
        accounts: vec![(word(1), Some(info(1, 1)))],
        storages: vec![(
            word(1),
            HashedStorage { wiped: true, storage: vec![(word(2), number(5))] },
        )],
    };
    keeper.calculate(&mut state, &post);
    assert_eq!(keeper.storages[&word(1)], Leaves::from([(word(2), vec![5])]));
    assert_eq!(keeper.order[0], "clear");
    assert!(state.is_open(&word(1)));
}

#[test]
fn removed_accounts_go_last_and_lose_their_storage() {
    let mut keeper = Keeper::default();
    keeper.add_account(word(1), 1, &[(1, 10)]);
    keeper.add_account(word(2), 2, &[]);
    keeper.add_account(word(3), 3, &[]);
    let mut state = new_state();
    state.storage_loaded(word(1));
    keeper.opened.insert(word(1));
    keeper.storages.insert(word(1), Leaves::from([(word(1), leaf(10))]));
    let post = HashedPostState {
        accounts: vec![(word(1), None), (word(2), Some(info(9, 9))), (word(8), None)],
        storages: vec![(
            word(1),
            HashedStorage { wiped: false, storage: vec![(word(1), number(77))] },
        )],
    };
    let result = keeper.calculate(&mut state, &post);
    assert!(!keeper.state.contains_key(&word(1)));
    assert!(!keeper.storages.contains_key(&word(1)));
    assert!(!state.is_open(&word(1)));
    assert!(state.is_open(&word(2)));
    assert_eq!(keeper.state[&word(2)], account_leaf(9, 9, EMPTY_ROOT, EMPTY_CODE));
    assert_eq!(keeper.state[&word(3)], account_leaf(3, 0, EMPTY_ROOT, EMPTY_CODE));
    assert_eq!(result, root(&keeper.state));
    assert_eq!(
        keeper.order,
        vec![
            "read",
            "open",
            "hash storage",
            "insert account",
            "remove account",
            "remove account",
            "hash state"
        ]
    );
}

#[test]
fn storage_at_hand_is_not_opened_again() {
    let mut keeper = Keeper::default();
    keeper.add_account(word(1), 1, &[(1, 10)]);
    let mut state = new_state();
    state.storage_loaded(word(1));
    keeper.storages.insert(word(1), Leaves::from([(word(6), leaf(6))]));
    let post =
        HashedPostState { accounts: vec![(word(1), Some(info(2, 0)))], storages: vec![] };
    keeper.calculate(&mut state, &post);
    assert_eq!(keeper.order, vec!["hash storage", "insert account", "hash state"]);
    let storage_root = root(&Leaves::from([(word(6), leaf(6))]));
    assert_eq!(keeper.state[&word(1)], account_leaf(2, 0, storage_root, EMPTY_CODE));
}

#[test]
fn listing_order_does_not_matter() {
    let run = |reversed: bool| {
        let mut keeper = Keeper::default();
        keeper.add_account(word(1), 1, &[(1, 10), (2, 20)]);
        keeper.add_account(word(2), 2, &[(3, 30)]);
        let mut accounts =
            vec![(word(1), Some(info(4, 4))), (word(2), None), (word(3), Some(info(5, 5)))];
        let mut first = vec![(word(1), number(0)), (word(2), number(7)), (word(9), number(9))];
        let mut storages = vec![
            (word(3), HashedStorage { wiped: true, storage: vec![(word(3), number(1))] }),
            (word(5), HashedStorage { wiped: true, storage: vec![(word(3), number(1))] }),
        ];
        if reversed {
            accounts.reverse();
            first.reverse();
        }
        storages.push((word(1), HashedStorage { wiped: false, storage: first }));
        if reversed {
            storages.reverse();
        }
        keeper.calculate(&mut new_state(), &HashedPostState { accounts, storages })
    };
    assert_eq!(run(false), run(true));
}

#[test]
fn what_was_written_reads_back() {
    let address = [0x22u8; 20];
    let account = SparseState::account_key(&address);
    let mut keeper = Keeper::default();
    keeper.add_account(account, 1, &[(1, 10), (2, 20)]);
    keeper.add_account(word(9), 9, &[]);
    let untouched = keeper.state[&word(9)].clone();
    let mut state = new_state();
    let post = HashedPostState {
        accounts: vec![(account, Some(info(6, 1 << 40)))],
        storages: vec![(
            account,
            HashedStorage {
                wiped: false,
                storage: vec![(word(1), number(0)), (word(3), number(1 << 50))],
            },
        )],
    };
    keeper.calculate(&mut state, &post);
    let storage = &keeper.storages[&account];
    let read = |key: u8| SparseState::slot_value(storage.get(&word(key)).cloned()).unwrap();
    assert_eq!((read(1), read(2), read(3)), (number(0), number(20), number(1 << 50)));
    match state.account(&address, keeper.state.get(&account).cloned()).unwrap() {
        AccountRead::Present { account } => {
            assert_eq!((account.nonce, account.balance), (6, number(1 << 40)));
            assert_eq!((account.storage_root, account.code_hash), (root(storage), EMPTY_CODE));
        }
        _ => panic!("the storage is at hand"),
    }
    assert_eq!(keeper.state[&word(9)], untouched);
}

#[test]
fn answers_of_the_wrong_sort_are_refused() {
    let mut state = new_state();
    let post =
        HashedPostState { accounts: vec![(word(1), Some(info(1, 1)))], storages: vec![] };
    let mut run = state.calculate_state_root(&post);
    assert!(matches!(
        run.next(&mut state, TrieReply::Done),
        Ok(TrieAction::ReadAccount { account }) if account == word(1)
    ));
    assert!(matches!(
        run.next(&mut state, TrieReply::Done),
        Err(StateRootError::UnexpectedReply)
    ));
    assert!(matches!(
        run.next(&mut state, TrieReply::Leaf(Some(vec![0xc0]))),
        Err(StateRootError::Rlp(_))
    ));
    assert!(!state.is_open(&word(1)));
    // a refused answer can be corrected
    assert!(matches!(
        run.next(&mut state, TrieReply::Leaf(None)),
        Ok(TrieAction::OpenStorage { root: EMPTY_ROOT, .. })
    ));
    assert!(!state.is_open(&word(1)));
    // a storage trie is on record once it was built
    assert!(matches!(
        run.next(&mut state, TrieReply::Leaf(None)),
        Err(StateRootError::UnexpectedReply)
    ));
    assert!(!state.is_open(&word(1)));
    assert!(matches!(
        run.next(&mut state, TrieReply::Done),
        Ok(TrieAction::HashStorage { .. })
    ));
    assert!(state.is_open(&word(1)));
    assert!(matches!(
        run.next(&mut state, TrieReply::Leaf(None)),
        Err(StateRootError::UnexpectedReply)
    ));
    assert!(matches!(
        run.next(&mut state, TrieReply::Root(EMPTY_ROOT)),
        Ok(TrieAction::InsertAccount { .. })
    ));
    assert!(matches!(run.next(&mut state, TrieReply::Done), Ok(TrieAction::HashState)));
    assert!(matches!(
        run.next(&mut state, TrieReply::Done),
        Err(StateRootError::UnexpectedReply)
    ));
    assert!(matches!(
        run.next(&mut state, TrieReply::Root(word(3))),
        Ok(TrieAction::Finish { root }) if root == word(3)
    ));
}

#[test]
fn witness_tables_are_keyed_by_digest() {
    let witness = ExecutionWitness {
        state: vec![vec![1, 2], vec![3], vec![1, 2]],
        codes: vec![vec![0x60]],
        keys: vec![vec![9]],
        headers: vec![],
    };
    let (state, nodes) = SparseState::new(&witness);
    let nodes: BTreeMap<_, _> = nodes.into_entries().into_iter().collect();
    assert_eq!(nodes.len(), 2);
    assert_eq!(nodes[&alloy_primitives::keccak256([1, 2]).0], vec![1, 2]);
    assert_eq!(nodes[&alloy_primitives::keccak256([3]).0], vec![3]);
    let mut reordered = empty_witness();
    reordered.state = vec![vec![3], vec![1, 2]];
    let same: BTreeMap<_, _> = SparseState::new(&reordered).1.into_entries().into_iter().collect();
    assert_eq!(nodes, same);
    assert!(!state.is_open(&word(1)));
}

fn delegation(version: u8, len: usize) -> Vec<u8> {
    let mut code = vec![0x11; len];
    code[..3].copy_from_slice(&[0xef, 0x01, version]);
    code
}

#[test]
fn bytecodes_are_keyed_by_digest() {
    let mut witness = empty_witness();
    let codes = [vec![0x60, 0x01, 0x5b], vec![], vec![0xef], delegation(0, 23)];
    witness.codes = codes.to_vec();
    witness.codes.push(codes[0].clone());
    assert!(witness.check_codes());
    let read: BTreeMap<_, _> = SparseState::bytecodes(&witness).into_iter().collect();
    assert_eq!(read.len(), 4);
    for code in &codes {
        let bytecode = &read[&alloy_primitives::keccak256(code).0];
        assert_eq!(bytecode.original_bytes().to_vec(), *code);
        assert_eq!(*bytecode, revm::bytecode::Bytecode::new_raw(code.clone().into()));
    }
    assert!(read[&alloy_primitives::keccak256(&codes[3]).0].is_eip7702());
}

#[test]
fn malformed_delegations_are_told_apart() {
    for code in [delegation(0, 22), delegation(0, 24), delegation(1, 23), vec![0xef, 0x01]] {
        let mut witness = empty_witness();
        witness.codes = vec![vec![0x00], code.clone()];
        assert!(!witness.check_codes());
        assert!(revm::bytecode::Bytecode::new_raw_checked(code.into()).is_err());
    }
}

#[test]
fn a_witness_without_the_root_is_refused() {
    let failed: Result<u8, _> = SparseState::revealed(Err::<u8, ()>(()), word(4));
    assert!(matches!(
        failed,
        Err(StatelessValidationError::WitnessRevealFailed { pre_state_root }) if pre_state_root == word(4)
    ));
    assert!(matches!(SparseState::revealed(Ok::<u8, ()>(6), word(4)), Ok(6)));
}

#[test]
fn reading_accounts_and_slots() {
    let address = [0x11u8; 20];
    let key = alloy_primitives::keccak256(address).0;
    let mut state = new_state();
    assert_eq!(SparseState::account_key(&address), key);
    assert!(matches!(state.account(&address, None), Ok(AccountRead::Absent)));
    assert!(matches!(
        state.account(&address, Some(vec![0x01])),
        Err(ProviderError::Rlp(_))
    ));
    assert!(state.storage(&address, &number(1)).is_none());
    let rlp = account_leaf(300, 70_000, word(5), word(6));
    match state.account(&address, Some(rlp.clone())).unwrap() {
        AccountRead::Load { hashed_address, account } => {
            assert_eq!(hashed_address, key);
            assert_eq!(account.nonce, 300);
            assert_eq!(account.balance, number(70_000));
            assert_eq!(account.storage_root, word(5));
            assert_eq!(account.code_hash, word(6));
            state.storage_loaded(hashed_address);
        }
        _ => panic!("the storage has to be loaded"),
    }
    assert!(matches!(state.account(&address, Some(rlp)), Ok(AccountRead::Present { .. })));
    let mut slot = [0u8; 32];
    slot[31] = 1;
    assert_eq!(
        state.storage(&address, &number(1)),
        Some((key, alloy_primitives::keccak256(slot).0))
    );
    assert_eq!(SparseState::slot_value(None).unwrap(), U256::zero());
    assert_eq!(SparseState::slot_value(Some(vec![0x82, 0x01, 0x00])).unwrap(), number(256));
    assert!(matches!(
        SparseState::slot_value(Some(vec![0x81, 0x01])),
        Err(ProviderError::Rlp(_))
    ));
    assert!(matches!(state.remove_account(&key), TrieAction::RemoveAccount { account } if account == key));
    assert!(state.storage(&address, &number(1)).is_none());
    assert!(matches!(state.clear_storage(key), TrieAction::ClearStorage { account } if account == key));
    assert!(state.is_open(&key));
}

#[test]
fn storage_trie_follows_the_leaf() {
    let mut state = new_state();
    let leaf = || Some(account_leaf(1, 1, word(8), word(9)));
    assert!(matches!(
        state.storage_trie_mut(word(1), leaf()),
        Ok(TrieAction::OpenStorage { account, root }) if account == word(1) && root == word(8)
    ));
    assert!(matches!(
        state.storage_trie_mut(word(2), None),
        Ok(TrieAction::OpenStorage { root: EMPTY_ROOT, .. })
    ));
    assert!(state.storage_trie_mut(word(3), Some(vec![])).is_err());
    assert!(!state.is_open(&word(1)) && !state.is_open(&word(2)) && !state.is_open(&word(3)));
    // a storage trie at hand is kept, whatever the leaf
    state.storage_loaded(word(1));
    for leaf in [leaf(), None, Some(vec![])] {
        assert!(matches!(
            state.storage_trie_mut(word(1), leaf),
            Ok(TrieAction::KeepStorage { account }) if account == word(1)
        ));
    }
    assert!(state.is_open(&word(1)));
}

#[test]
fn a_trie_that_came_to_hand_after_planning_is_kept() {
    let mut keeper = Keeper::default();
    keeper.add_account(word(1), 1, &[(1, 10)]);
    let mut state = new_state();
    let post =
        HashedPostState { accounts: vec![(word(1), Some(info(2, 0)))], storages: vec![] };
    let mut run = state.calculate_state_root(&post);
    state.storage_loaded(word(1));
    assert!(run.next(&mut state, TrieReply::Done).is_ok());
    assert!(matches!(
        run.next(&mut state, TrieReply::Leaf(keeper.state.get(&word(1)).cloned())),
        Ok(TrieAction::KeepStorage { .. })
    ));
}

#[test]
fn a_change_of_balance_keeps_the_storage_root() {
    let mut keeper = Keeper::default();
    keeper.add_account(word(1), 1, &[(1, 10), (2, 20)]);
    let before = account_from_leaf(keeper.state.get(&word(1)).cloned()).unwrap().unwrap();
    let post =
        HashedPostState { accounts: vec![(word(1), Some(info(1, 500)))], storages: vec![] };
    keeper.calculate(&mut new_state(), &post);
    let after = account_from_leaf(keeper.state.get(&word(1)).cloned()).unwrap().unwrap();
    assert_eq!(after.storage_root, before.storage_root);
    assert_eq!(after.balance, number(500));
}

#[test]
fn only_canonical_slots_are_read() {
    let read = |bytes: &[u8]| slot_from_leaf(Some(bytes.to_vec()));
    assert_eq!(read(&[0x80]).unwrap(), Some(number(0)));
    assert_eq!(read(&[0x7f]).unwrap(), Some(number(127)));
    assert_eq!(read(&[0x81, 0x80]).unwrap(), Some(number(128)));
    let mut largest = vec![0xa0];
    largest.extend_from_slice(&[0xff; 32]);
    assert_eq!(read(&largest).unwrap(), Some(U256 { be: [0xff; 32] }));
    assert!(slot_from_leaf(None).unwrap().is_none());
    for bytes in [
        vec![],
        vec![0x00],
        vec![0x81, 0x7f],
        vec![0x82, 0x00, 0x80],
        vec![0xb8, 0x01, 0x80],
        vec![0x01, 0x02],
        vec![0xc0],
        [vec![0xa1], vec![0x01; 33]].concat(),
    ] {
        assert!(read(&bytes).is_err(), "{bytes:?}");
    }
}

#[test]
fn only_canonical_accounts_are_read() {
    let read = |bytes: Vec<u8>| account_from_leaf(Some(bytes));
    let rlp = account_leaf(1, 2, word(3), word(4));
    let account: TrieAccount = read(rlp.clone()).unwrap().unwrap();
    assert_eq!((account.nonce, account.balance), (1, number(2)));
    assert_eq!((account.storage_root, account.code_hash), (word(3), word(4)));
    assert!(account_from_leaf(None).unwrap().is_none());
    let mut longer = rlp.clone();
    longer.push(0);
    assert!(read(longer).is_err());
    assert!(read(rlp[..rlp.len() - 1].to_vec()).is_err());
    let mut padded = rlp;
    padded[2] = 0;
    assert!(read(padded).is_err());
    let wide = account_leaf(u64::MAX, u64::MAX, word(3), word(4));
    assert_eq!(read(wide).unwrap().unwrap().nonce, u64::MAX);
}
