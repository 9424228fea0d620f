//! Getting the input of a block: from the cache where it is there, else from the RPC provider.

use vstd::prelude::*;

use crate::cache::{
    cache_file, lookup_rank, lookup_start, lookup_step, CacheAction, CacheEvent, CacheFormat,
    CacheLookup,
};
use crate::input::{create_input, is_created, Block, Input};
use crate::primitives::{keccak256_digest, B256};
use crate::signers::{
    decoded_transaction, law_signers_signed, recovered_key, recovery_fails, RecoverError,
};
use crate::sparse_state::ExecutionWitness;
use crate::text::{digest_string, digest_text, hexadecimal, hexadecimal_string};

verus! {

/// A block by its number or by its place in the chain.
#[derive(Clone, Copy, Debug, PartialEq, Eq)]
pub enum BlockNumberOrTag {
    Latest,
    Finalized,
    Safe,
    Earliest,
    Pending,
    Number(u64),
}

/// What a block is asked for by.
#[derive(Clone, Copy, Debug, PartialEq, Eq)]
pub enum BlockId {
    Hash { block_hash: B256, require_canonical: Option<bool> },
    Number(BlockNumberOrTag),
}

/// A block number or tag as it is printed: the number in hexadecimal, the tag in lower case.
pub open spec fn block_number_text(number: BlockNumberOrTag) -> Seq<char> {
    match number {
        BlockNumberOrTag::Latest => "latest"@,
        BlockNumberOrTag::Finalized => "finalized"@,
        BlockNumberOrTag::Safe => "safe"@,
        BlockNumberOrTag::Earliest => "earliest"@,
        BlockNumberOrTag::Pending => "pending"@,
        BlockNumberOrTag::Number(n) => "0x"@ + hexadecimal(n as nat),
    }
}

/// What a block is asked for by, as it is printed: a hash says whether the block has to be in the
/// canonical chain.
pub open spec fn block_id_text(block_id: BlockId) -> Seq<char> {
    match block_id {
        BlockId::Hash { block_hash, require_canonical } => if require_canonical == Some(true) {
            "canonical hash "@ + digest_text(block_hash)
        } else {
            "hash "@ + digest_text(block_hash)
        },
        BlockId::Number(number) => block_number_text(number),
    }
}

impl BlockNumberOrTag {
    /// The number or tag as it is printed.
    pub fn text(&self) -> (r: String)
        ensures
            r@ == block_number_text(*self),
            match self {
                BlockNumberOrTag::Latest => r@ == "latest"@,
                BlockNumberOrTag::Finalized => r@ == "finalized"@,
                BlockNumberOrTag::Safe => r@ == "safe"@,
                BlockNumberOrTag::Earliest => r@ == "earliest"@,
                BlockNumberOrTag::Pending => r@ == "pending"@,
                BlockNumberOrTag::Number(n) => r@ == "0x"@ + hexadecimal(*n as nat),
            },
    {
        match self {
            BlockNumberOrTag::Latest => String::from_str("latest"),
            BlockNumberOrTag::Finalized => String::from_str("finalized"),
            BlockNumberOrTag::Safe => String::from_str("safe"),
            BlockNumberOrTag::Earliest => String::from_str("earliest"),
            BlockNumberOrTag::Pending => String::from_str("pending"),
            BlockNumberOrTag::Number(n) => {
                let mut text = String::from_str("0x");
                let digits = hexadecimal_string(*n);
                text.append(digits.as_str());
                text
            },
        }
    }
}

impl BlockId {
    /// What the block is asked for by, as it is printed.
    pub fn text(&self) -> (r: String)
        ensures
            r@ == block_id_text(*self),
            match self {
                BlockId::Hash { block_hash, require_canonical } => r@ == (if *require_canonical
                    == Some(true) {
                    "canonical hash "@
                } else {
                    "hash "@
                }) + digest_text(*block_hash),
                BlockId::Number(number) => r@ == block_number_text(*number),
            },
    {
        match self {
            BlockId::Hash { block_hash, require_canonical } => {
                let mut text = match require_canonical {
                    Some(true) => String::from_str("canonical hash "),
                    _ => String::from_str("hash "),
                };
                let digest = digest_string(block_hash);
                text.append(digest.as_str());
                text
            },
            BlockId::Number(number) => number.text(),
        }
    }

    /// The failure to find the block, in words.
    pub fn not_found_message(&self) -> (r: String)
        ensures
            r@ == "block "@ + block_id_text(*self) + " not found"@,
    {
        let mut message = String::from_str("block ");
        let text = self.text();
        message.append(text.as_str());
        message.append(" not found");
        message
    }
}

/// What happened to the last action of a fetch.
pub enum FetchEvent<I, E> {
    /// The hash of the block that was asked for, or nothing where there is no such block.
    Header(Option<B256>),
    /// What happened to an action on the cache.
    Cache(CacheEvent<I, E>),
    /// The input that was created, or why it could not be.
    Created(Result<I, E>),
    /// The request to the provider failed.
    RequestFailed(E),
}

/// What a fetch does next.
pub enum FetchAction<I, E> {
    /// Ask the provider for the header of this block.
    GetHeader { block_id: BlockId },
    /// Load the cached input for the block with this hash in this format, if there is one.
    Load { hash: B256, format: CacheFormat },
    /// Create the input for the block with this hash from the provider.
    CreateInput { hash: B256 },
    /// Save the input that the fetch holds.
    Save,
    /// This is the input.
    Finish(I),
    /// There is no such block, which `not_found_message` puts in words.
    NotFound { block_id: BlockId },
    /// The fetch failed.
    Fail(E),
    /// The event does not belong to the action before it.
    Misplaced,
}

/// A fetch of an input.
pub enum InputFetch<I> {
    /// The header of this block was asked for.
    Resolving { block_id: BlockId },
    /// The input for the block with this hash is looked up in the cache.
    Looking { hash: B256, lookup: CacheLookup<I> },
    /// The input for the block with this hash is created.
    Creating { hash: B256 },
    /// This input was created and is being saved.
    Saving(I),
    Over,
}

/// How a fetch begins: the hash is known where the block is asked for by it, else the header gives
/// it.
pub open spec fn fetch_start<I, E>(block_id: BlockId) -> (InputFetch<I>, FetchAction<I, E>) {
    match block_id {
        BlockId::Hash { block_hash, .. } => fetch_known(block_hash),
        BlockId::Number(_) => (
            InputFetch::Resolving { block_id },
            FetchAction::GetHeader { block_id },
        ),
    }
}

/// The lookup in the cache, once the hash is known.
pub open spec fn fetch_known<I, E>(hash: B256) -> (InputFetch<I>, FetchAction<I, E>) {
    let (lookup, action) = lookup_start::<I, E>(hash);
    fetch_looked(hash, lookup, action)
}

/// A fetch after a step of its lookup: a hit ends it, a miss leads to the creation of the input.
pub open spec fn fetch_looked<I, E>(
    hash: B256,
    lookup: CacheLookup<I>,
    action: CacheAction<I, E>,
) -> (InputFetch<I>, FetchAction<I, E>) {
    match action {
        CacheAction::Load { hash: loaded, format } => (
            InputFetch::Looking { hash, lookup },
            FetchAction::Load { hash: loaded, format },
        ),
        CacheAction::Save => (InputFetch::Looking { hash, lookup }, FetchAction::Save),
        CacheAction::Finish(Some(input)) => (InputFetch::Over, FetchAction::Finish(input)),
        CacheAction::Finish(None) => (
            InputFetch::Creating { hash },
            FetchAction::CreateInput { hash },
        ),
        CacheAction::Fail(error) => (InputFetch::Over, FetchAction::Fail(error)),
        CacheAction::Misplaced => (InputFetch::Over, FetchAction::Misplaced),
    }
}

/// One step of a fetch.
pub open spec fn fetch_step<I, E>(fetch: InputFetch<I>, event: FetchEvent<I, E>) -> (
    InputFetch<I>,
    FetchAction<I, E>,
) {
    match (fetch, event) {
        (InputFetch::Resolving { .. }, FetchEvent::Header(Some(hash))) => fetch_known(hash),
        (InputFetch::Resolving { block_id }, FetchEvent::Header(None)) => (
            InputFetch::Over,
            FetchAction::NotFound { block_id },
        ),
        (InputFetch::Resolving { .. }, FetchEvent::RequestFailed(error)) => (
            InputFetch::Over,
            FetchAction::Fail(error),
        ),
        (InputFetch::Looking { hash, lookup }, FetchEvent::Cache(event)) => {
            let (next, action) = lookup_step(lookup, event);
            fetch_looked(hash, next, action)
        },
        (InputFetch::Creating { .. }, FetchEvent::Created(Ok(input))) => (
            InputFetch::Saving(input),
            FetchAction::Save,
        ),
        (InputFetch::Creating { .. }, FetchEvent::Created(Err(error))) => (
            InputFetch::Over,
            FetchAction::Fail(error),
        ),
        (InputFetch::Saving(input), FetchEvent::Cache(CacheEvent::Saved(_))) => (
            InputFetch::Over,
            FetchAction::Finish(input),
        ),
        (_, _) => (InputFetch::Over, FetchAction::Misplaced),
    }
}

impl<I> InputFetch<I> {
    /// Starts a fetch.
    pub fn start<E>(block_id: BlockId) -> (r: (InputFetch<I>, FetchAction<I, E>))
        ensures
            r == fetch_start::<I, E>(block_id),
    {
        match block_id {
            BlockId::Hash { block_hash, .. } => Self::known(block_hash),
            BlockId::Number(_) => (
                InputFetch::Resolving { block_id },
                FetchAction::GetHeader { block_id },
            ),
        }
    }

    fn known<E>(hash: B256) -> (r: (InputFetch<I>, FetchAction<I, E>))
        ensures
            r == fetch_known::<I, E>(hash),
    {
        let (lookup, action) = CacheLookup::start(hash);
        Self::looked(hash, lookup, action)
    }

    fn looked<E>(hash: B256, lookup: CacheLookup<I>, action: CacheAction<I, E>) -> (r: (
        InputFetch<I>,
        FetchAction<I, E>,
    ))
        ensures
            r == fetch_looked(hash, lookup, action),
    {
        match action {
            CacheAction::Load { hash: loaded, format } => (
                InputFetch::Looking { hash, lookup },
                FetchAction::Load { hash: loaded, format },
            ),
            CacheAction::Save => (InputFetch::Looking { hash, lookup }, FetchAction::Save),
            CacheAction::Finish(Some(input)) => (InputFetch::Over, FetchAction::Finish(input)),
            CacheAction::Finish(None) => (
                InputFetch::Creating { hash },
                FetchAction::CreateInput { hash },
            ),
            CacheAction::Fail(error) => (InputFetch::Over, FetchAction::Fail(error)),
            CacheAction::Misplaced => (InputFetch::Over, FetchAction::Misplaced),
        }
    }

    /// The input to save, where the last action was to save one.
    pub fn to_save(&self) -> (r: Option<&I>)
        ensures
            match self {
                InputFetch::Saving(input) => r == Some(input),
                InputFetch::Looking { lookup: CacheLookup::Migrating(input), .. } => r == Some(
                    input,
                ),
                _ => r is None,
            },
    {
        match self {
            InputFetch::Saving(input) => Some(input),
            InputFetch::Looking { lookup, .. } => lookup.to_save(),
            _ => None,
        }
    }

    /// Gets the next action, given what happened to the one before it.
    pub fn step<E>(self, event: FetchEvent<I, E>) -> (r: (InputFetch<I>, FetchAction<I, E>))
        ensures
            r == fetch_step(self, event),
    {
        match self {
            InputFetch::Resolving { block_id } => match event {
                FetchEvent::Header(Some(hash)) => Self::known(hash),
                FetchEvent::Header(None) => (
                    InputFetch::Over,
                    FetchAction::NotFound { block_id },
                ),
                FetchEvent::RequestFailed(error) => (InputFetch::Over, FetchAction::Fail(error)),
                _ => (InputFetch::Over, FetchAction::Misplaced),
            },
            InputFetch::Looking { hash, lookup } => match event {
                FetchEvent::Cache(event) => {
                    let (lookup, action) = lookup.step(event);
                    Self::looked(hash, lookup, action)
                },
                _ => (InputFetch::Over, FetchAction::Misplaced),
            },
            InputFetch::Creating { .. } => match event {
                FetchEvent::Created(Ok(input)) => (InputFetch::Saving(input), FetchAction::Save),
                FetchEvent::Created(Err(error)) => (InputFetch::Over, FetchAction::Fail(error)),
                _ => (InputFetch::Over, FetchAction::Misplaced),
            },
            InputFetch::Saving(input) => match event {
                FetchEvent::Cache(CacheEvent::Saved(_)) => (
                    InputFetch::Over,
                    FetchAction::Finish(input),
                ),
                _ => (InputFetch::Over, FetchAction::Misplaced),
            },
            InputFetch::Over => (InputFetch::Over, FetchAction::Misplaced),
        }
    }
}

/// A block that is asked for by its hash is looked up without a request to the provider.
pub proof fn law_hash_needs_no_request<I, E>(block_hash: B256, require_canonical: Option<bool>)
    ensures
        fetch_start::<I, E>(BlockId::Hash { block_hash, require_canonical }).1 == (
        FetchAction::<I, E>::Load { hash: block_hash, format: CacheFormat::Current }),
{
}

/// A block that is asked for by its number or by a tag has its header asked for first.
pub proof fn law_number_needs_header<I, E>(number: BlockNumberOrTag, hash: B256)
    ensures
        fetch_start::<I, E>(BlockId::Number(number)).1 == (FetchAction::<I, E>::GetHeader {
            block_id: BlockId::Number(number),
        }),
        fetch_step::<I, E>(
            fetch_start::<I, E>(BlockId::Number(number)).0,
            FetchEvent::Header(Some(hash)),
        ).1 == (FetchAction::<I, E>::Load { hash, format: CacheFormat::Current }),
{
}

/// A block that the provider does not have ends the fetch: nothing is loaded, created or saved, and
/// the failure names the block as it was asked for.
pub proof fn law_missing_block_ends_fetch<I, E>(number: BlockNumberOrTag)
    ensures
        fetch_step::<I, E>(
            fetch_start::<I, E>(BlockId::Number(number)).0,
            FetchEvent::Header(None),
        ) == (
            InputFetch::<I>::Over,
            FetchAction::<I, E>::NotFound { block_id: BlockId::Number(number) },
        ),
{
}

/// A block is named as it was asked for: by its number in hexadecimal, by its tag, or by its hash.
pub proof fn law_block_texts(n: u64, hash: B256)
    ensures
        block_id_text(BlockId::Number(BlockNumberOrTag::Number(n))) == "0x"@ + hexadecimal(
            n as nat,
        ),
        block_id_text(BlockId::Number(BlockNumberOrTag::Latest)) == "latest"@,
        block_id_text(BlockId::Number(BlockNumberOrTag::Finalized)) == "finalized"@,
        block_id_text(BlockId::Number(BlockNumberOrTag::Safe)) == "safe"@,
        block_id_text(BlockId::Number(BlockNumberOrTag::Earliest)) == "earliest"@,
        block_id_text(BlockId::Number(BlockNumberOrTag::Pending)) == "pending"@,
        block_id_text(BlockId::Hash { block_hash: hash, require_canonical: None }) == "hash "@
            + digest_text(hash),
        block_id_text(BlockId::Hash { block_hash: hash, require_canonical: Some(false) })
            == "hash "@ + digest_text(hash),
        block_id_text(BlockId::Hash { block_hash: hash, require_canonical: Some(true) })
            == "canonical hash "@ + digest_text(hash),
{
}

/// A failed request, a cache file that cannot be read and an input that cannot be created each end
/// the fetch with their failure: nothing further is loaded, created or saved.
pub proof fn law_failures_end_fetch<I, E>(
    block_id: BlockId,
    hash: B256,
    format: CacheFormat,
    error: E,
)
    ensures
        fetch_step::<I, E>(InputFetch::Resolving { block_id }, FetchEvent::RequestFailed(error))
            == (InputFetch::<I>::Over, FetchAction::<I, E>::Fail(error)),
        fetch_step::<I, E>(
            InputFetch::Looking { hash, lookup: CacheLookup::Probing { hash, format } },
            FetchEvent::Cache(CacheEvent::LoadFailed(error)),
        ) == (InputFetch::<I>::Over, FetchAction::<I, E>::Fail(error)),
        fetch_step::<I, E>(InputFetch::Creating { hash }, FetchEvent::Created(Err(error))) == (
            InputFetch::<I>::Over,
            FetchAction::<I, E>::Fail(error),
        ),
{
}

/// The course of a fetch for a block: its file in the current format, then the one in the older
/// format, which is saved in the current one when it is there, and only then the provider. What is
/// found or created is handed out as it is, whether or not it could be saved.
pub proof fn law_fetch_course<I, E>(
    hash: B256,
    require_canonical: Option<bool>,
    input: I,
    saved: Result<(), E>,
)
    ensures
        ({
            let missing = FetchEvent::<I, E>::Cache(CacheEvent::Missing);
            let loaded = FetchEvent::<I, E>::Cache(CacheEvent::Loaded(input));
            let written = FetchEvent::<I, E>::Cache(CacheEvent::Saved(saved));
            let (first, load) = fetch_start::<I, E>(
                BlockId::Hash { block_hash: hash, require_canonical },
            );
            let (second, load_older) = fetch_step(first, missing);
            let (migrating, save) = fetch_step(second, loaded);
            let (creating, create) = fetch_step(second, missing);
            let (saving, save_created) = fetch_step(
                creating,
                FetchEvent::<I, E>::Created(Ok(input)),
            );
            &&& load == (FetchAction::<I, E>::Load { hash, format: CacheFormat::Current })
            &&& fetch_step(first, loaded).1 == FetchAction::<I, E>::Finish(input)
            &&& load_older == (FetchAction::<I, E>::Load { hash, format: CacheFormat::LegacyV1 })
            &&& save == FetchAction::<I, E>::Save
            &&& migrating == (InputFetch::<I>::Looking {
                hash,
                lookup: CacheLookup::Migrating(input),
            })
            &&& fetch_step(migrating, written).1 == FetchAction::<I, E>::Finish(input)
            &&& create == (FetchAction::<I, E>::CreateInput { hash })
            &&& save_created == FetchAction::<I, E>::Save
            &&& saving == InputFetch::<I>::Saving(input)
            &&& fetch_step(saving, written).1 == FetchAction::<I, E>::Finish(input)
        }),
{
}

/// However a block is asked for, it is looked up under the hash that it turns out to have.
pub proof fn law_same_lookup_for_number<I, E>(number: BlockNumberOrTag, hash: B256)
    ensures
        fetch_step::<I, E>(
            fetch_start::<I, E>(BlockId::Number(number)).0,
            FetchEvent::Header(Some(hash)),
        ) == fetch_start::<I, E>(BlockId::Hash { block_hash: hash, require_canonical: None }),
{
}

/// An input that is not in the cache is created for the same block, saved and handed out, whether
/// or not it could be saved.
pub proof fn law_miss_creates_and_saves<I, E>(hash: B256, input: I, saved: Result<(), E>)
    ensures
        ({
            let missing = FetchEvent::<I, E>::Cache(CacheEvent::Missing);
            let first = fetch_known::<I, E>(hash).0;
            let (creating, create) = fetch_step(fetch_step(first, missing).0, missing);
            let (saving, save) = fetch_step::<I, E>(creating, FetchEvent::Created(Ok(input)));
            &&& create == (FetchAction::<I, E>::CreateInput { hash })
            &&& save == FetchAction::<I, E>::Save
            &&& saving == InputFetch::Saving(input)
            &&& fetch_step(saving, FetchEvent::Cache(CacheEvent::Saved(saved))).1
                == FetchAction::<I, E>::Finish(input)
        }),
{
}

/// An input in the cache is handed out without any further request: nothing is created for it.
pub proof fn law_hit_makes_no_request<I, E>(
    hash: B256,
    lookup: CacheLookup<I>,
    event: CacheEvent<I, E>,
    input: I,
)
    requires
        lookup_step(lookup, event).1 == CacheAction::<I, E>::Finish(Some(input)),
    ensures
        fetch_step(InputFetch::Looking { hash, lookup }, FetchEvent::Cache(event)).1
            == FetchAction::<I, E>::Finish(input),
{
}

/// The block whose input a fetch is after, once it is known.
pub open spec fn fetched_block<I>(fetch: InputFetch<I>) -> Option<B256> {
    match fetch {
        InputFetch::Looking { hash, .. } => Some(hash),
        InputFetch::Creating { hash } => Some(hash),
        _ => None,
    }
}

/// The lookup of a fetch is for the block that the fetch is after.
pub open spec fn fetch_agrees<I>(fetch: InputFetch<I>) -> bool {
    fetch matches InputFetch::Looking { hash, lookup: CacheLookup::Probing { hash: probed, .. } }
        ==> probed == hash
}

/// A fetch stays with its block: what it loads and what it creates is for the block that it is
/// after.
pub proof fn law_fetch_keeps_block<I, E>(
    fetch: InputFetch<I>,
    event: FetchEvent<I, E>,
    block_id: BlockId,
)
    requires
        fetch_agrees(fetch),
    ensures
        fetch_agrees(fetch_start::<I, E>(block_id).0),
        ({
            let (next, action) = fetch_step(fetch, event);
            &&& fetch_agrees(next)
            &&& fetched_block(fetch) is Some && fetched_block(next) is Some ==> fetched_block(next)
                == fetched_block(fetch)
            &&& action matches FetchAction::Load { hash, .. } ==> fetched_block(next) == Some(hash)
            &&& action matches FetchAction::CreateInput { hash } ==> fetched_block(next) == Some(
                hash,
            )
        }),
{
}

/// How many steps a fetch can still take.
pub open spec fn fetch_rank<I>(fetch: InputFetch<I>) -> nat {
    match fetch {
        InputFetch::Resolving { .. } => 6,
        InputFetch::Looking { lookup, .. } => 2 + lookup_rank(lookup),
        InputFetch::Creating { .. } => 2,
        InputFetch::Saving(_) => 1,
        InputFetch::Over => 0,
    }
}

/// A fetch ends: every step of one that goes on brings it closer to its end.
pub proof fn law_fetch_ends<I, E>(fetch: InputFetch<I>, event: FetchEvent<I, E>)
    requires
        !(fetch is Over),
        fetch matches InputFetch::Looking { lookup, .. } ==> !(lookup is Over),
    ensures
        fetch_rank(fetch_step(fetch, event).0) < fetch_rank(fetch),
{
}

/// What happened to the last action of a creation.
pub enum CreateEvent {
    /// The block that was asked for, or nothing where there is no such block.
    Block(Option<Block>),
    /// The witness that was asked for.
    Witness(ExecutionWitness),
}

/// What the creation of an input does next.
pub enum CreateAction {
    /// Ask the provider for the witness of the block with this number.
    GetWitness { number: u64 },
    /// This is the input, and the hash of its block.
    Finish(Input, B256),
    /// There is no such block, which `not_found_message` puts in words.
    NotFound { block_id: BlockId },
    /// A signer could not be recovered.
    Fail(RecoverError),
    /// The event does not belong to the action before it.
    Misplaced,
}

/// The creation of an input from the answers of the provider. It starts with the block being
/// asked for.
pub enum InputCreation {
    /// This block was asked for, with its transactions.
    AwaitingBlock { block_id: BlockId },
    /// The witness of this block was asked for.
    AwaitingWitness(Block),
    Over,
}

/// One step of a creation.
pub open spec fn creation_step(
    creation: InputCreation,
    event: CreateEvent,
    next: InputCreation,
    action: CreateAction,
) -> bool {
    match (creation, event) {
        (InputCreation::AwaitingBlock { .. }, CreateEvent::Block(Some(block))) => {
            &&& next == InputCreation::AwaitingWitness(block)
            &&& action == (CreateAction::GetWitness { number: block.number })
        },
        (InputCreation::AwaitingBlock { block_id }, CreateEvent::Block(None)) => {
            &&& next is Over
            &&& action == (CreateAction::NotFound { block_id })
        },
        (InputCreation::AwaitingWitness(block), CreateEvent::Witness(witness)) => {
            &&& next is Over
            &&& match action {
                CreateAction::Finish(input, block_hash) => is_created(
                    block,
                    witness,
                    input,
                    block_hash,
                ),
                CreateAction::Fail(error) => recovery_fails(block.transactions@, error),
                _ => false,
            }
        },
        (_, _) => next is Over && action is Misplaced,
    }
}

impl InputCreation {
    /// Gets the next action, given what the provider answered to the one before it.
    pub fn step(self, event: CreateEvent) -> (r: (InputCreation, CreateAction))
        ensures
            creation_step(self, event, r.0, r.1),
    {
        match self {
            InputCreation::AwaitingBlock { block_id } => match event {
                CreateEvent::Block(Some(block)) => {
                    let number: u64 = block.number;
                    (InputCreation::AwaitingWitness(block), CreateAction::GetWitness { number })
                },
                CreateEvent::Block(None) => (
                    InputCreation::Over,
                    CreateAction::NotFound { block_id },
                ),
                CreateEvent::Witness(_) => (InputCreation::Over, CreateAction::Misplaced),
            },
            InputCreation::AwaitingWitness(block) => match event {
                CreateEvent::Witness(witness) => match create_input(block, witness) {
                    Ok((input, block_hash)) => (
                        InputCreation::Over,
                        CreateAction::Finish(input, block_hash),
                    ),
                    Err(error) => (InputCreation::Over, CreateAction::Fail(error)),
                },
                CreateEvent::Block(_) => (InputCreation::Over, CreateAction::Misplaced),
            },
            InputCreation::Over => (InputCreation::Over, CreateAction::Misplaced),
        }
    }
}

/// A block that the provider does not have ends the creation: no witness is asked for, and the
/// failure names the block as it was asked for.
pub proof fn law_missing_block_ends_creation(
    block_id: BlockId,
    next: InputCreation,
    action: CreateAction,
)
    requires
        creation_step(
            InputCreation::AwaitingBlock { block_id },
            CreateEvent::Block(None),
            next,
            action,
        ),
    ensures
        next is Over,
        action == (CreateAction::NotFound { block_id }),
{
}

/// A created input is saved under the name that a lookup with the returned hash tries first.
pub proof fn law_created_input_is_found_again(
    block: Block,
    witness: ExecutionWitness,
    next: InputCreation,
    input: Input,
    block_hash: B256,
)
    requires
        creation_step(
            InputCreation::AwaitingWitness(block),
            CreateEvent::Witness(witness),
            next,
            CreateAction::Finish(input, block_hash),
        ),
    ensures
        cache_file(CacheFormat::Current, input.block.spec_hash()) == cache_file(
            CacheFormat::Current,
            block_hash,
        ),
{
}

/// The block that the provider gave has the witness of its own number asked for, and the witness
/// completes the input: the whole block with the keys that signed its transactions, and every trie
/// node, code and header of the witness. Else a transaction has no signer.
pub proof fn law_creation_completes(
    block_id: BlockId,
    block: Block,
    witness: ExecutionWitness,
    next: InputCreation,
    action: CreateAction,
    last: CreateAction,
)
    requires
        creation_step(
            InputCreation::AwaitingBlock { block_id },
            CreateEvent::Block(Some(block)),
            next,
            action,
        ),
        creation_step(next, CreateEvent::Witness(witness), InputCreation::Over, last),
    ensures
        action == (CreateAction::GetWitness { number: block.number }),
        match last {
            CreateAction::Finish(input, block_hash) => {
                &&& block_hash == keccak256_digest(block.header@)
                &&& input.block == block
                &&& input.signers@.len() == block.transactions@.len()
                &&& forall|i: int|
                    0 <= i < block.transactions@.len() ==> {
                        &&& decoded_transaction(
                            (#[trigger] block.transactions@[i]).rlp@,
                        ) matches Some((signature, digest))
                        &&& recovered_key(signature, digest) == Some(input.signers@[i])
                    }
                &&& input.witness.state@ == witness.state@
                &&& input.witness.codes@ == witness.codes@
                &&& input.witness.keys@.len() == 0
                &&& input.witness.headers@ == witness.headers@
            },
            CreateAction::Fail(error) => {
                &&& error.index < block.transactions@.len()
                &&& decoded_transaction(
                    block.transactions@[error.index as int].rlp@,
                ) matches Some((signature, digest)) ==> recovered_key(signature, digest) is None
            },
            _ => false,
        },
{
    if let CreateAction::Finish(input, block_hash) = last {
        assert forall|i: int| 0 <= i < block.transactions@.len() implies {
            &&& decoded_transaction((#[trigger] block.transactions@[i]).rlp@) matches Some(
                (signature, digest),
            )
            &&& recovered_key(signature, digest) == Some(input.signers@[i])
        } by {
            law_signers_signed(block.transactions@, input.signers@, i);
        }
    }
}

} // verus!
