use alloy_consensus::private::alloy_eips;
use zeth::cache::{save_name, CacheAction, CacheEvent, CacheFormat, CacheLookup};
use zeth::chain::{select_chain, supported, ChainError, NamedChain};
use zeth::fetch::{
    BlockId, BlockNumberOrTag, CreateAction, CreateEvent, FetchAction, FetchEvent, InputCreation,
    InputFetch,
};
use zeth::input::{create_input, Block, InputV1};
use zeth::processor::{Guests, ProveError, ProverOutcome};
use zeth::signers::{add_signer, recover_signer, RecoverError, SignerError, TransactionSigned};
use zeth::{
    recover_signers, to_zkvm_input_bytes, validate_block, BlockProcessor, ExecutionWitness,
    UncompressedPublicKey,
};

const TX: [u8; 110] = [
    0xf8, 0x6c, 0x09, 0x85, 0x04, 0xa8, 0x17, 0xc8, 0x00, 0x82, 0x52, 0x08, 0x94, 0x35, 0x35,
    0x35, 0x35, 0x35, 0x35, 0x35, 0x35, 0x35, 0x35, 0x35, 0x35, 0x35, 0x35, 0x35, 0x35, 0x35,
    0x35, 0x35, 0x35, 0x88, 0x0d, 0xe0, 0xb6, 0xb3, 0xa7, 0x64, 0x00, 0x00, 0x80, 0x25, 0xa0,
    0x28, 0xef, 0x61, 0x34, 0x0b, 0xd9, 0x39, 0xbc, 0x21, 0x95, 0xfe, 0x53, 0x75, 0x67, 0x86,
    0x60, 0x03, 0xe1, 0xa1, 0x5d, 0x3c, 0x71, 0xff, 0x63, 0xe1, 0x59, 0x06, 0x20, 0xaa, 0x63,
    0x62, 0x76, 0xa0, 0x67, 0xcb, 0xe9, 0xd8, 0x99, 0x7f, 0x76, 0x1a, 0xec, 0xb7, 0x03, 0x30,
    0x4b, 0x38, 0x00, 0xcc, 0xf5, 0x55, 0xc9, 0xf3, 0xdc, 0x64, 0x21, 0x4b, 0x29, 0x7f, 0xb1,
    0x96, 0x6a, 0x3b, 0x6d, 0x83,
];
const SIGNER: [u8; 20] = [
    0x9d, 0x8a, 0x62, 0xf6, 0x56, 0xa8, 0xd1, 0x61, 0x5c, 0x12, 0x94, 0xfd, 0x71, 0xe9, 0xcf,
    0xb3, 0xe4, 0x85, 0x5a, 0x4f,
];

fn tx() -> TransactionSigned {
    TransactionSigned { rlp: TX.to_vec() }
}

/// The same transaction with a signature that no key can have made.
fn unsigned() -> TransactionSigned {
    let mut rlp = TX.to_vec();
    let r = rlp.len() - 65;
    rlp[r..r + 32].fill(0xff);
    TransactionSigned { rlp }
}

fn undecodable() -> TransactionSigned {
    TransactionSigned { rlp: TX[..100].to_vec() }
}

fn address_of(key: &UncompressedPublicKey) -> [u8; 20] {
    assert_eq!(key.0[0], 4);
    alloy_primitives::keccak256(&key.0[1..]).0[12..].try_into().unwrap()
}

fn witness() -> ExecutionWitness {
    ExecutionWitness {
        state: vec![vec![1]],
        codes: vec![vec![2]],
        keys: vec![vec![3]],
        headers: vec![vec![4]],
    }
}

fn block(transactions: Vec<TransactionSigned>) -> Block {
    Block { number: 77, header: vec![0xc0], transactions }
}

#[test]
fn signer_of_a_legacy_transaction() {
    let key = recover_signer(&tx()).unwrap();
    assert_eq!(address_of(&key), SIGNER);
    assert_eq!(recover_signers(&[]).unwrap(), vec![]);
    assert_eq!(recover_signers(&[tx(), tx()]).unwrap(), vec![key, key]);
}

#[test]
fn a_changed_transaction_has_another_signer() {
    let mut changed = TX.to_vec();
    changed[2] = 0x0a;
    let key = recover_signer(&TransactionSigned { rlp: changed }).unwrap();
    assert_ne!(address_of(&key), SIGNER);
}

#[test]
fn the_first_failure_is_reported() {
    let error = recover_signers(&[tx(), unsigned(), undecodable()]).unwrap_err();
    assert_eq!(error.index, 1);
    assert!(matches!(error.cause, SignerError::Signature(_)));
    assert_eq!(error.message(), "failed to recover signature for tx #1");
    let error = recover_signers(&[undecodable(), unsigned()]).unwrap_err();
    assert_eq!(error.index, 0);
    assert!(matches!(error.cause, SignerError::Decode(_)));
    assert_eq!(error.message(), "failed to recover signature for tx #0");
}

#[test]
fn failure_positions_are_printed_in_decimal() {
    for index in [0, 9, 10, 123, 4096, usize::MAX] {
        let cause = recover_signer(&undecodable()).unwrap_err();
        let error = RecoverError { index, cause };
        assert_eq!(error.message(), format!("failed to recover signature for tx #{index}"));
    }
}

#[test]
fn signers_are_added_in_order() {
    let key = recover_signer(&tx()).unwrap();
    let mut signers = vec![];
    assert!(add_signer(&mut signers, Ok(key)).is_ok());
    assert!(add_signer(&mut signers, Ok(key)).is_ok());
    let error = add_signer(&mut signers, recover_signer(&unsigned())).unwrap_err();
    assert_eq!(error.index, 2);
    assert_eq!(signers, vec![key, key]);
}

#[test]
fn created_inputs_have_no_keys() {
    let (input, hash) = create_input(block(vec![tx()]), witness()).unwrap();
    assert_eq!(hash, alloy_primitives::keccak256([0xc0]).0);
    assert_eq!(input.block.hash_slow(), hash);
    assert_eq!(input.block.number, 77);
    assert_eq!(input.signers.len(), 1);
    assert_eq!(address_of(&input.signers[0]), SIGNER);
    assert_eq!(input.witness.state, vec![vec![1]]);
    assert_eq!(input.witness.codes, vec![vec![2]]);
    assert_eq!(input.witness.keys, Vec::<Vec<u8>>::new());
    assert_eq!(input.witness.headers, vec![vec![4]]);
    assert_eq!(create_input(block(vec![tx(), unsigned()]), witness()).unwrap_err().index, 1);
}

#[test]
fn older_inputs_get_their_signers() {
    let input = InputV1 { block: block(vec![tx()]), witness: witness() }.upgrade().unwrap();
    assert_eq!(address_of(&input.signers[0]), SIGNER);
    assert_eq!(input.witness.keys, vec![vec![3]]);
    let failed = InputV1 { block: block(vec![unsigned()]), witness: witness() }.upgrade();
    assert_eq!(failed.unwrap_err().index, 0);
}

#[test]
fn chains_by_id() {
    assert_eq!(select_chain(1).unwrap(), NamedChain::Mainnet);
    assert_eq!(select_chain(11155111).unwrap(), NamedChain::Sepolia);
    assert_eq!(select_chain(560048).unwrap(), NamedChain::Hoodi);
    assert_eq!(select_chain(31337).unwrap(), NamedChain::AnvilHardhat);
    let error = select_chain(1337).unwrap_err();
    assert_eq!(error.message(), "unsupported chain: dev");
    assert!(matches!(error, ChainError::Unsupported(name) if name == "dev"));
    let error = select_chain(u64::MAX).unwrap_err();
    assert!(matches!(error, ChainError::InvalidChainId));
    assert_eq!(error.message(), "invalid chain ID");
}

#[test]
fn chains_by_what_is_known() {
    let name = || Some(String::from("goerli"));
    assert!(matches!(supported(5, None), Err(ChainError::InvalidChainId)));
    assert!(matches!(supported(1, None), Err(ChainError::InvalidChainId)));
    assert!(matches!(
        supported(5, name()),
        Err(ChainError::Unsupported(name)) if name == "goerli"
    ));
    assert!(matches!(supported(560048, name()), Ok(NamedChain::Hoodi)));
}

#[test]
fn merge_blocks() {
    assert!(!NamedChain::Mainnet.is_post_merge(15537393));
    assert!(NamedChain::Mainnet.is_post_merge(15537394));
    assert!(!NamedChain::Sepolia.is_post_merge(1450408));
    assert!(NamedChain::Sepolia.is_post_merge(1450409));
    assert!(NamedChain::Hoodi.is_post_merge(0));
    assert!(NamedChain::AnvilHardhat.is_post_merge(0));
    assert!(NamedChain::Mainnet.is_post_merge(u64::MAX));
    for chain in [
        NamedChain::Mainnet,
        NamedChain::Sepolia,
        NamedChain::Hoodi,
        NamedChain::AnvilHardhat,
    ] {
        assert!(chain.is_post_merge(chain.merge_block()));
        assert!(chain.merge_block() == 0 || !chain.is_post_merge(chain.merge_block() - 1));
    }
}

#[test]
fn validation_hands_out_the_hash() {
    assert_eq!(validate_block::<u8, &str>(5, 5, Ok(([7; 32], 5))), Ok([7; 32]));
    assert_eq!(validate_block::<u8, &str>(0, 9, Err("bad")), Err("bad"));
    let processor = BlockProcessor::new((), 1).unwrap();
    assert_eq!(processor.validate::<u8, &str>(15537394, Ok(([7; 32], 5))), Ok([7; 32]));
    assert_eq!(processor.validate::<u8, &str>(15537394, Err("bad")), Err("bad"));
}

#[test]
fn processors_keep_provider_and_chain() {
    let processor = BlockProcessor::new(String::from("provider"), 31337).unwrap();
    assert_eq!(processor.provider(), "provider");
    assert_eq!(processor.chain(), NamedChain::AnvilHardhat);
    let copy = processor.clone();
    assert_eq!(copy.provider(), "provider");
    assert_eq!(copy.chain(), NamedChain::AnvilHardhat);
    assert!(BlockProcessor::new((), 2).is_err());
    let (input, hash) = processor.create_input(block(vec![tx()]), witness()).unwrap();
    assert_eq!(input.block.hash_slow(), hash);
}

fn elf32(entry: u32, address: u32, payload: &[u8]) -> Vec<u8> {
    let mut elf = vec![0x7f, b'E', b'L', b'F', 1, 1, 1, 0, 0, 0, 0, 0, 0, 0, 0, 0];
    for half in [2u16, 243] {
        elf.extend_from_slice(&half.to_le_bytes());
    }
    for word in [1u32, entry, 52, 0, 0] {
        elf.extend_from_slice(&word.to_le_bytes());
    }
    for half in [52u16, 32, 1, 0, 0, 0] {
        elf.extend_from_slice(&half.to_le_bytes());
    }
    let size = payload.len() as u32;
    for word in [1u32, 84, address, address, size, size, 5, 4] {
        elf.extend_from_slice(&word.to_le_bytes());
    }
    elf.extend_from_slice(payload);
    elf
}

fn guest(payload: &[u8]) -> Vec<u8> {
    let mut blob = b"R0BF".to_vec();
    let version = [0u8, 0, 5, b'1', b'.', b'0', b'.', b'0'];
    let mut header = 1u32.to_le_bytes().to_vec();
    header.extend_from_slice(&(version.len() as u32).to_le_bytes());
    header.extend_from_slice(&version);
    blob.extend_from_slice(&1u32.to_le_bytes());
    blob.extend_from_slice(&(header.len() as u32).to_le_bytes());
    blob.extend_from_slice(&header);
    let user = elf32(0x0020_0000, 0x0020_0000, payload);
    blob.extend_from_slice(&(user.len() as u32).to_le_bytes());
    blob.extend_from_slice(&user);
    blob.extend_from_slice(&elf32(0xc000_0000, 0xc000_0000, &[1, 2, 3, 4]));
    blob
}

#[test]
fn each_chain_has_its_guest() {
    let blobs: Vec<Vec<u8>> = (1..5).map(|n| guest(&[n, 0, 0, 0])).collect();
    let guests = Guests {
        mainnet: &blobs[0],
        sepolia: &blobs[1],
        hoodi: &blobs[2],
        dev: &blobs[3],
    };
    for (i, id) in [1, 11155111, 560048, 31337].into_iter().enumerate() {
        let processor = BlockProcessor::new((), id).unwrap();
        assert_eq!(processor.guest(&guests), &blobs[i][..]);
        let (elf, image_id) = processor.elf(&guests).unwrap();
        assert_eq!(elf, &blobs[i][..]);
        let expected = risc0_zkvm::compute_image_id(&blobs[i]).unwrap();
        assert_eq!(image_id, <[u8; 32]>::from(expected));
        for blob in blobs.iter().filter(|blob| **blob != blobs[i]) {
            let other = risc0_zkvm::compute_image_id(blob).unwrap();
            assert_ne!(image_id, <[u8; 32]>::from(other));
        }
    }
}

#[test]
fn proofs_are_planned_and_finished() {
    let blob = guest(&[1, 2, 3, 4]);
    let guests = Guests { mainnet: &blob, sepolia: &[], hoodi: &[], dev: &[] };
    let processor = BlockProcessor::new((), 1).unwrap();
    let plan = processor.prove::<u8, &str>(&guests, Some(20)).unwrap();
    assert_eq!(plan.elf, &blob[..]);
    assert_eq!(plan.segment_limit_po2, Some(20));
    assert_eq!(plan.opts, None);
    let id = plan.image_id;
    let (receipt, image_id) = plan.finish(ProverOutcome::<_, &str>::Proved("receipt")).unwrap();
    assert_eq!((receipt, image_id), ("receipt", id));
    let plan = processor.prove_with_opts::<_, &str>(&guests, None, 5u8).unwrap();
    assert_eq!(plan.segment_limit_po2, None);
    assert_eq!(plan.opts, Some(5));
    let error = plan.finish(ProverOutcome::<(), _>::Failed("failed")).unwrap_err();
    assert!(matches!(error, ProveError::Prover("failed")));
    assert_eq!(error.message(), None);
    let plan = processor.prove_with_opts::<_, &str>(&guests, None, 5u8).unwrap();
    let error = plan.finish(ProverOutcome::<(), &str>::Panicked).unwrap_err();
    assert_eq!(error.message().unwrap(), "prover task panicked");
    let processor = BlockProcessor::new((), 11155111).unwrap();
    assert!(processor.elf(&guests).is_err());
    match processor.prove::<u8, &str>(&guests, None) {
        Err(error) => assert_eq!(error.message().unwrap(), "failed to compute image id"),
        Ok(_) => panic!("no image ID"),
    }
}

#[test]
fn cache_file_names() {
    let mut hash = [0u8; 32];
    hash[0] = 0xab;
    hash[31] = 0x0f;
    let hex = format!("0xab{}0f", "00".repeat(30));
    assert_eq!(CacheFormat::Current.file_name(&hash), format!("input_{hex}.v2.json"));
    assert_eq!(CacheFormat::LegacyV1.file_name(&hash), format!("input_{hex}.json"));
    let block = block(vec![]);
    assert_eq!(save_name(&block), CacheFormat::Current.file_name(&block.hash_slow()));
    let other = Block { number: 77, header: vec![0xc1, 0x80], transactions: vec![] };
    assert_ne!(save_name(&block), save_name(&other));
}

type Lookup = CacheLookup<u8>;
type Event = CacheEvent<u8, &'static str>;

#[test]
fn lookups_try_the_current_format_first() {
    let (lookup, action) = Lookup::start::<&str>([6; 32]);
    assert!(matches!(
        action,
        CacheAction::Load { hash, format: CacheFormat::Current } if hash == [6; 32]
    ));
    assert!(lookup.to_save().is_none());
    let (lookup, action) = lookup.step(Event::Loaded(5));
    assert!(matches!(action, CacheAction::Finish(Some(5))));
    assert!(matches!(lookup, CacheLookup::Over));
}

#[test]
fn older_formats_are_migrated() {
    for saved in [Ok(()), Err("disk full")] {
        let (lookup, action) = Lookup::start::<&str>([7; 32]).0.step(Event::Missing);
        assert!(matches!(
            action,
            CacheAction::Load { hash, format: CacheFormat::LegacyV1 } if hash == [7; 32]
        ));
        let (lookup, action) = lookup.step(Event::Loaded(6));
        assert!(matches!(action, CacheAction::Save));
        assert_eq!(lookup.to_save(), Some(&6));
        let (_, action) = lookup.step(Event::Saved(saved));
        assert!(matches!(action, CacheAction::Finish(Some(6))));
    }
}

#[test]
fn lookups_miss_fail_and_refuse() {
    let legacy = || Lookup::start::<&str>([7; 32]).0.step(Event::Missing).0;
    assert!(matches!(legacy().step(Event::Missing).1, CacheAction::Finish(None)));
    assert!(matches!(legacy().step(Event::LoadFailed("bad")).1, CacheAction::Fail("bad")));
    let first = Lookup::start::<&str>([7; 32]).0;
    assert!(matches!(first.step(Event::LoadFailed("bad")).1, CacheAction::Fail("bad")));
    assert!(matches!(legacy().step(Event::Saved(Ok(()))).1, CacheAction::Misplaced));
    assert!(matches!(Lookup::Over.step(Event::Missing).1, CacheAction::Misplaced));
    assert!(matches!(Lookup::Migrating(1).step(Event::Missing).1, CacheAction::Misplaced));
}

type Fetch = InputFetch<u8>;
type Fetched = FetchEvent<u8, &'static str>;

fn by_hash(hash: [u8; 32]) -> BlockId {
    BlockId::Hash { block_hash: hash, require_canonical: Some(true) }
}

#[test]
fn fetch_by_hash_asks_the_cache() {
    let processor = BlockProcessor::new((), 1).unwrap();
    let (fetch, action) = processor.get_input_with_cache::<u8, &str>(by_hash([3; 32]));
    assert!(matches!(
        action,
        FetchAction::Load { hash: [3, ..], format: CacheFormat::Current }
    ));
    let (_, action) = fetch.step(Fetched::Cache(CacheEvent::Loaded(8)));
    assert!(matches!(action, FetchAction::Finish(8)));
    let (lookup, action) = processor.get_input_cached::<u8, &str>([8; 32]);
    assert!(matches!(
        action,
        CacheAction::Load { hash, format: CacheFormat::Current } if hash == [8; 32]
    ));
    let (_, action) = lookup.step(Event::Missing);
    assert!(matches!(
        action,
        CacheAction::Load { hash, format: CacheFormat::LegacyV1 } if hash == [8; 32]
    ));
}

#[test]
fn fetch_by_number_asks_for_the_header() {
    for tag in [
        BlockNumberOrTag::Latest,
        BlockNumberOrTag::Finalized,
        BlockNumberOrTag::Safe,
        BlockNumberOrTag::Earliest,
        BlockNumberOrTag::Pending,
        BlockNumberOrTag::Number(4),
    ] {
        let (fetch, action) = Fetch::start::<&str>(BlockId::Number(tag));
        assert!(matches!(
            action,
            FetchAction::GetHeader { block_id } if block_id == BlockId::Number(tag)
        ));
        let (fetch, action) = fetch.step(Fetched::Header(Some([4; 32])));
        assert!(matches!(
            action,
            FetchAction::Load { hash: [4, ..], format: CacheFormat::Current }
        ));
        assert!(fetch.to_save().is_none());
    }
    let start = || Fetch::start::<&str>(BlockId::Number(BlockNumberOrTag::Latest)).0;
    match start().step(Fetched::Header(None)).1 {
        FetchAction::NotFound { block_id } => {
            assert_eq!(block_id.not_found_message(), "block latest not found");
        }
        _ => panic!("there is no such block"),
    }
    assert!(matches!(
        start().step(Fetched::RequestFailed("down")).1,
        FetchAction::Fail("down")
    ));
    assert!(matches!(start().step(Fetched::Created(Ok(1))).1, FetchAction::Misplaced));
}

#[test]
fn a_miss_is_created_and_saved() {
    let missing = || Fetched::Cache(CacheEvent::Missing);
    let creating = || {
        let (fetch, action) = Fetch::start::<&str>(by_hash([5; 32])).0.step(missing());
        assert!(matches!(
            action,
            FetchAction::Load { hash: [5, ..], format: CacheFormat::LegacyV1 }
        ));
        let (fetch, action) = fetch.step(missing());
        assert!(matches!(action, FetchAction::CreateInput { hash: [5, ..] }));
        fetch
    };
    for saved in [Ok(()), Err("disk full")] {
        let (fetch, action) = creating().step(Fetched::Created(Ok(9)));
        assert!(matches!(action, FetchAction::Save));
        assert_eq!(fetch.to_save(), Some(&9));
        let (fetch, action) = fetch.step(Fetched::Cache(CacheEvent::Saved(saved)));
        assert!(matches!(action, FetchAction::Finish(9)));
        assert!(matches!(fetch.step(missing()).1, FetchAction::Misplaced));
    }
    assert!(matches!(
        creating().step(Fetched::Created(Err("down"))).1,
        FetchAction::Fail("down")
    ));
    assert!(matches!(creating().step(missing()).1, FetchAction::Misplaced));
}

#[test]
fn a_migrated_input_is_handed_out() {
    let fetch = Fetch::start::<&str>(by_hash([5; 32])).0;
    let (fetch, _) = fetch.step(Fetched::Cache(CacheEvent::Missing));
    let (fetch, action) = fetch.step(Fetched::Cache(CacheEvent::Loaded(2)));
    assert!(matches!(action, FetchAction::Save));
    assert_eq!(fetch.to_save(), Some(&2));
    let (_, action) = fetch.step(Fetched::Cache(CacheEvent::Saved(Err("read-only"))));
    assert!(matches!(action, FetchAction::Finish(2)));
    let fetch = Fetch::start::<&str>(by_hash([5; 32])).0;
    let (_, action) = fetch.step(Fetched::Cache(CacheEvent::LoadFailed("bad")));
    assert!(matches!(action, FetchAction::Fail("bad")));
}

fn awaiting_block() -> InputCreation {
    let block_id = BlockId::Hash { block_hash: [5; 32], require_canonical: None };
    InputCreation::AwaitingBlock { block_id }
}

#[test]
fn block_ids_as_text() {
    let number = |number| BlockId::Number(number).text();
    assert_eq!(number(BlockNumberOrTag::Latest), "latest");
    assert_eq!(number(BlockNumberOrTag::Finalized), "finalized");
    assert_eq!(number(BlockNumberOrTag::Safe), "safe");
    assert_eq!(number(BlockNumberOrTag::Earliest), "earliest");
    assert_eq!(number(BlockNumberOrTag::Pending), "pending");
    assert_eq!(number(BlockNumberOrTag::Number(0)), "0x0");
    assert_eq!(number(BlockNumberOrTag::Number(0xabc0)), "0xabc0");
    assert_eq!(number(BlockNumberOrTag::Number(u64::MAX)), "0xffffffffffffffff");
    let digest = format!("0x{}", "a7".repeat(32));
    for (require_canonical, expected) in [
        (None, format!("hash {digest}")),
        (Some(false), format!("hash {digest}")),
        (Some(true), format!("canonical hash {digest}")),
    ] {
        let block_id = BlockId::Hash { block_hash: [0xa7; 32], require_canonical };
        assert_eq!(block_id.text(), expected);
        assert_eq!(block_id.not_found_message(), format!("block {expected} not found"));
    }
}

#[test]
fn block_ids_as_the_provider_prints_them() {
    for n in [0, 9, 10, 4096, u64::MAX] {
        let expected = alloy_eips::BlockId::from(n).to_string();
        assert_eq!(BlockId::Number(BlockNumberOrTag::Number(n)).text(), expected);
    }
    for (tag, expected) in [
        (BlockNumberOrTag::Latest, alloy_eips::BlockNumberOrTag::Latest),
        (BlockNumberOrTag::Finalized, alloy_eips::BlockNumberOrTag::Finalized),
        (BlockNumberOrTag::Safe, alloy_eips::BlockNumberOrTag::Safe),
        (BlockNumberOrTag::Earliest, alloy_eips::BlockNumberOrTag::Earliest),
        (BlockNumberOrTag::Pending, alloy_eips::BlockNumberOrTag::Pending),
    ] {
        assert_eq!(BlockId::Number(tag).text(), alloy_eips::BlockId::from(expected).to_string());
    }
    let hash = alloy_primitives::B256::new([0x1f; 32]);
    for require_canonical in [None, Some(false), Some(true)] {
        let expected = alloy_eips::BlockId::from((hash, require_canonical)).to_string();
        let block_id = BlockId::Hash { block_hash: hash.0, require_canonical };
        assert_eq!(block_id.text(), expected);
    }
}

#[test]
fn creation_asks_for_block_and_witness() {
    let (creation, action) =
        awaiting_block().step(CreateEvent::Block(Some(block(vec![tx()]))));
    assert!(matches!(action, CreateAction::GetWitness { number: 77 }));
    match creation.step(CreateEvent::Witness(witness())).1 {
        CreateAction::Finish(input, hash) => {
            assert_eq!(input.block.hash_slow(), hash);
            assert_eq!(save_name(&input.block), CacheFormat::Current.file_name(&hash));
            assert!(input.witness.keys.is_empty());
        }
        _ => panic!("the input is complete"),
    }
    match awaiting_block().step(CreateEvent::Block(None)).1 {
        CreateAction::NotFound { block_id } => assert_eq!(
            block_id.not_found_message(),
            format!("block hash 0x{} not found", "05".repeat(32))
        ),
        _ => panic!("there is no such block"),
    }
    assert!(matches!(
        InputCreation::AwaitingWitness(block(vec![unsigned()]))
            .step(CreateEvent::Witness(witness()))
            .1,
        CreateAction::Fail(RecoverError { index: 0, .. })
    ));
    assert!(matches!(
        awaiting_block().step(CreateEvent::Witness(witness())).1,
        CreateAction::Misplaced
    ));
    assert!(matches!(
        InputCreation::Over.step(CreateEvent::Block(None)).1,
        CreateAction::Misplaced
    ));
}

#[test]
fn words_become_bytes() {
    let bytes = to_zkvm_input_bytes(&[0x0403_0201, 0xff]);
    let little = vec![1, 2, 3, 4, 0xff, 0, 0, 0];
    let big = vec![4, 3, 2, 1, 0, 0, 0, 0xff];
    assert!(bytes == little || bytes == big);
    let numbers = [0x0403_0201, 0xff, 0, u32::MAX, 0x8000_0001];
    let expected: Vec<u8> = numbers.iter().flat_map(|word: &u32| word.to_ne_bytes()).collect();
    assert_eq!(to_zkvm_input_bytes(&numbers), expected);
    assert_eq!(to_zkvm_input_bytes(&[]), Vec::<u8>::new());
    let words: Vec<u32> = risc0_zkvm::serde::to_vec(&(7u32, 8u64)).unwrap();
    assert_eq!(to_zkvm_input_bytes(&words).len(), 4 * words.len());
}
