//! The processing of blocks of one chain: creating inputs, validating, and proving.

use std::sync::Arc;

use vstd::prelude::*;

use crate::cache::{lookup_start, CacheAction, CacheLookup};
use crate::chain::{select_chain, selects, ChainError, NamedChain};
use crate::fetch::{fetch_start, BlockId, FetchAction, InputFetch};
use crate::input::{is_created, Block, Input};
use crate::primitives::{keccak256_digest, B256};
use crate::signers::{decoded_transaction, recovered_key, recovery_fails, RecoverError};
use crate::sparse_state::ExecutionWitness;
use crate::validate::{validate_block, validated};

verus! {

/// Processes Ethereum blocks, including creating inputs, validating, and proving.
pub struct BlockProcessor<P> {
    /// The provider for fetching data from the Ethereum network.
    provider: Arc<P>,
    /// The chain.
    chain: NamedChain,
}

impl<P> Clone for BlockProcessor<P> {
    fn clone(&self) -> (r: Self)
        ensures
            r.spec_provider() == self.spec_provider(),
            r.spec_chain() == self.spec_chain(),
    {
        BlockProcessor { provider: self.provider.clone(), chain: self.chain }
    }
}

/// The guest programs, one for each supported chain.
pub struct Guests<'a> {
    pub mainnet: &'a [u8],
    pub sepolia: &'a [u8],
    pub hoodi: &'a [u8],
    pub dev: &'a [u8],
}

/// The guest program for a chain.
pub open spec fn guest_for(guests: Guests<'_>, chain: NamedChain) -> Seq<u8> {
    match chain {
        NamedChain::Mainnet => guests.mainnet@,
        NamedChain::Sepolia => guests.sepolia@,
        NamedChain::Hoodi => guests.hoodi@,
        NamedChain::AnvilHardhat => guests.dev@,
    }
}

/// The image ID of a guest program.
pub type Digest = [u8; 32];

/// `anyhow::Error`, the reason for which an image ID could not be computed.
#[verifier::external_type_specification]
#[verifier::external_body]
pub struct ExAnyhowError(anyhow::Error);

/// The image ID of a guest program, or nothing for bytes that are not a guest program.
pub uninterp spec fn image_id(elf: Seq<u8>) -> Option<Digest>;

/// Calls `risc0_zkvm::compute_image_id`. The result is a function of the bytes. Offsets into the
/// bytes are computed with 32 bits.
#[verifier::external_body]
fn compute_image_id(elf: &[u8]) -> (r: Result<Digest, anyhow::Error>)
    requires
        elf@.len() <= u32::MAX,
    ensures
        match r {
            Ok(id) => image_id(elf@) == Some(id),
            Err(_) => image_id(elf@) is None,
        },
{
    Ok(risc0_zkvm::compute_image_id(elf)?.into())
}

/// Why a proof was not made.
#[derive(Debug)]
pub enum ProveError<E> {
    /// The image ID of the guest program could not be computed.
    ImageId(anyhow::Error),
    /// The task in which the prover ran panicked.
    Panicked,
    /// The prover failed.
    Prover(E),
}

impl<E> ProveError<E> {
    /// The failure in words; the prover speaks for itself.
    pub fn message(&self) -> (r: Option<String>)
        ensures
            match self {
                ProveError::ImageId(_) => r matches Some(text) && text@
                    == "failed to compute image id"@,
                ProveError::Panicked => r matches Some(text) && text@ == "prover task panicked"@,
                ProveError::Prover(_) => r is None,
            },
    {
        match self {
            ProveError::ImageId(_) => Some(String::from_str("failed to compute image id")),
            ProveError::Panicked => Some(String::from_str("prover task panicked")),
            ProveError::Prover(_) => None,
        }
    }
}

/// What came of the task in which the prover ran.
pub enum ProverOutcome<R, E> {
    Proved(R),
    Failed(E),
    Panicked,
}

/// What the prover is to run.
pub struct ProvePlan<'a, O> {
    pub elf: &'a [u8],
    pub image_id: Digest,
    /// The size limit of a segment, as a power of two, where it is not that of the prover.
    pub segment_limit_po2: Option<u32>,
    /// The options, where they are not those of the prover.
    pub opts: Option<O>,
}

impl<'a, O> ProvePlan<'a, O> {
    /// Hands out the receipt with the image ID of the program that was proved.
    pub fn finish<R, E>(self, outcome: ProverOutcome<R, E>) -> (r: Result<
        (R, Digest),
        ProveError<E>,
    >)
        ensures
            match outcome {
                ProverOutcome::Proved(receipt) => r == Ok::<(R, Digest), ProveError<E>>(
                    (receipt, self.image_id),
                ),
                ProverOutcome::Failed(error) => r == Err::<(R, Digest), ProveError<E>>(
                    ProveError::Prover(error),
                ),
                ProverOutcome::Panicked => r == Err::<(R, Digest), ProveError<E>>(
                    ProveError::Panicked,
                ),
            },
    {
        match outcome {
            ProverOutcome::Proved(receipt) => Ok((receipt, self.image_id)),
            ProverOutcome::Failed(error) => Err(ProveError::Prover(error)),
            ProverOutcome::Panicked => Err(ProveError::Panicked),
        }
    }
}

impl<P> BlockProcessor<P> {
    /// The provider.
    pub closed spec fn spec_provider(&self) -> P {
        *self.provider
    }

    /// The chain.
    pub closed spec fn spec_chain(&self) -> NamedChain {
        self.chain
    }

    /// Creates a new BlockProcessor for the chain whose ID the provider gave.
    pub fn new(provider: P, chain_id: u64) -> (r: Result<Self, ChainError>)
        ensures
            match r {
                Ok(processor) => {
                    &&& processor.spec_provider() == provider
                    &&& selects(
                        chain_id,
                        Ok::<NamedChain, ChainError>(processor.spec_chain()),
                    )
                    &&& match processor.spec_chain() {
                        NamedChain::Mainnet => chain_id == 1,
                        NamedChain::Sepolia => chain_id == 11155111,
                        NamedChain::Hoodi => chain_id == 560048,
                        NamedChain::AnvilHardhat => chain_id == 31337,
                    }
                },
                Err(error) => {
                    &&& selects(chain_id, Err::<NamedChain, ChainError>(error))
                    &&& chain_id != 1 && chain_id != 11155111 && chain_id != 560048 && chain_id
                        != 31337
                },
            },
    {
        match select_chain(chain_id) {
            Ok(chain) => Ok(BlockProcessor { provider: Arc::new(provider), chain }),
            Err(error) => Err(error),
        }
    }

    /// Returns the underlying provider.
    pub fn provider(&self) -> (r: &P)
        ensures
            *r == self.spec_provider(),
    {
        &self.provider
    }

    /// Returns the named chain identifier.
    pub fn chain(&self) -> (r: NamedChain)
        ensures
            r == self.spec_chain(),
    {
        self.chain
    }

    /// Selects the guest program for the current chain.
    pub fn guest<'a>(&self, guests: &Guests<'a>) -> (r: &'a [u8])
        ensures
            r@ == guest_for(*guests, self.spec_chain()),
            match self.spec_chain() {
                NamedChain::Mainnet => r@ == guests.mainnet@,
                NamedChain::Sepolia => r@ == guests.sepolia@,
                NamedChain::Hoodi => r@ == guests.hoodi@,
                NamedChain::AnvilHardhat => r@ == guests.dev@,
            },
    {
        match self.chain {
            NamedChain::Mainnet => guests.mainnet,
            NamedChain::Sepolia => guests.sepolia,
            NamedChain::Hoodi => guests.hoodi,
            NamedChain::AnvilHardhat => guests.dev,
        }
    }

    /// Returns the guest program ELF and its corresponding image ID for the current chain.
    pub fn elf<'a>(&self, guests: &Guests<'a>) -> (r: Result<(&'a [u8], Digest), anyhow::Error>)
        requires
            guest_for(*guests, self.spec_chain()).len() <= u32::MAX,
        ensures
            match r {
                Ok((elf, id)) => {
                    &&& elf@ == guest_for(*guests, self.spec_chain())
                    &&& image_id(elf@) == Some(id)
                },
                Err(_) => image_id(guest_for(*guests, self.spec_chain())) is None,
            },
            r matches Ok(program) ==> match self.spec_chain() {
                NamedChain::Mainnet => program.0@ == guests.mainnet@,
                NamedChain::Sepolia => program.0@ == guests.sepolia@,
                NamedChain::Hoodi => program.0@ == guests.hoodi@,
                NamedChain::AnvilHardhat => program.0@ == guests.dev@,
            },
    {
        let elf = self.guest(guests);
        match compute_image_id(elf) {
            Ok(id) => Ok((elf, id)),
            Err(error) => Err(error),
        }
    }

    /// Creates the input from a block and the witness of its execution, and returns it with the
    /// block hash.
    pub fn create_input(&self, block: Block, witness: ExecutionWitness) -> (r: Result<
        (Input, B256),
        RecoverError,
    >)
        ensures
            match r {
                Ok((input, block_hash)) => {
                    &&& is_created(block, witness, input, block_hash)
                    &&& block_hash == keccak256_digest(block.header@)
                    &&& input.block == block
                    &&& input.signers@.len() == block.transactions@.len()
                    &&& forall|i: int|
                        0 <= i < block.transactions@.len() ==> {
                            &&& decoded_transaction(
                                (#[trigger] block.transactions@[i]).rlp@,
                            ) matches Some((signature, digest))
                            &&& recovered_key(signature, digest) == Some(input.signers@[i])
                        }
                    &&& input.witness.state@ == witness.state@
                    &&& input.witness.codes@ == witness.codes@
                    &&& input.witness.keys@.len() == 0
                    &&& input.witness.headers@ == witness.headers@
                },
                Err(error) => recovery_fails(block.transactions@, error),
            },
    {
        crate::input::create_input(block, witness)
    }

    /// Validates the block execution on the host machine. `outcome` is what the execution gave.
    pub fn validate<T, E>(&self, block_number: u64, outcome: Result<(B256, T), E>) -> (r: Result<
        B256,
        E,
    >)
        requires
            block_number >= self.spec_chain().spec_merge_block(),
        ensures
            r == validated(outcome),
            match outcome {
                Ok(executed) => r == Ok::<B256, E>(executed.0),
                Err(error) => r == Err::<B256, E>(error),
            },
    {
        validate_block(self.chain.merge_block(), block_number, outcome)
    }

    /// Plans a RISC Zero proof of block execution with the options of the prover.
    pub fn prove<'a, O, E>(&self, guests: &Guests<'a>, po2: Option<u32>) -> (r: Result<
        ProvePlan<'a, O>,
        ProveError<E>,
    >)
        requires
            guest_for(*guests, self.spec_chain()).len() <= u32::MAX,
        ensures
            plans(guest_for(*guests, self.spec_chain()), po2, None::<O>, r),
            r matches Ok(plan) ==> {
                &&& image_id(plan.elf@) == Some(plan.image_id)
                &&& plan.segment_limit_po2 == po2
                &&& plan.opts is None
            },
    {
        self.plan(guests, po2, None)
    }

    /// Plans a RISC Zero proof of block execution using the specified options.
    pub fn prove_with_opts<'a, O, E>(
        &self,
        guests: &Guests<'a>,
        po2: Option<u32>,
        opts: O,
    ) -> (r: Result<ProvePlan<'a, O>, ProveError<E>>)
        requires
            guest_for(*guests, self.spec_chain()).len() <= u32::MAX,
        ensures
            plans(guest_for(*guests, self.spec_chain()), po2, Some(opts), r),
            r matches Ok(plan) ==> {
                &&& image_id(plan.elf@) == Some(plan.image_id)
                &&& plan.segment_limit_po2 == po2
                &&& plan.opts == Some(opts)
            },
    {
        self.plan(guests, po2, Some(opts))
    }

    fn plan<'a, O, E>(&self, guests: &Guests<'a>, po2: Option<u32>, opts: Option<O>) -> (r: Result<
        ProvePlan<'a, O>,
        ProveError<E>,
    >)
        requires
            guest_for(*guests, self.spec_chain()).len() <= u32::MAX,
        ensures
            plans(guest_for(*guests, self.spec_chain()), po2, opts, r),
    {
        match self.elf(guests) {
            Ok((elf, id)) => Ok(ProvePlan { elf, image_id: id, segment_limit_po2: po2, opts }),
            Err(error) => Err(ProveError::ImageId(error)),
        }
    }

    /// Gets the input for the block with this hash from the filesystem cache: starts the lookup.
    pub fn get_input_cached<I, E>(&self, block_hash: B256) -> (r: (
        CacheLookup<I>,
        CacheAction<I, E>,
    ))
        ensures
            r == lookup_start::<I, E>(block_hash),
    {
        CacheLookup::start(block_hash)
    }

    /// Fetches input, using the filesystem cache if available: starts the fetch.
    pub fn get_input_with_cache<I, E>(&self, block_id: BlockId) -> (r: (
        InputFetch<I>,
        FetchAction<I, E>,
    ))
        ensures
            r == fetch_start::<I, E>(block_id),
    {
        InputFetch::start(block_id)
    }
}

/// A proof is planned for a guest program exactly where that has an image ID.
pub open spec fn plans<'a, O, E>(
    guest: Seq<u8>,
    po2: Option<u32>,
    opts: Option<O>,
    r: Result<ProvePlan<'a, O>, ProveError<E>>,
) -> bool {
    match r {
        Ok(plan) => {
            &&& plan.elf@ == guest
            &&& image_id(guest) == Some(plan.image_id)
            &&& plan.segment_limit_po2 == po2
            &&& plan.opts == opts
        },
        Err(error) => error is ImageId && image_id(guest) is None,
    }
}

/// Each chain is proved with its own guest program.
pub proof fn law_guests_by_chain(guests: Guests<'_>, chain: NamedChain)
    ensures
        chain.spec_id() == 1 ==> guest_for(guests, chain) == guests.mainnet@,
        chain.spec_id() == 11155111 ==> guest_for(guests, chain) == guests.sepolia@,
        chain.spec_id() == 560048 ==> guest_for(guests, chain) == guests.hoodi@,
        chain.spec_id() == 31337 ==> guest_for(guests, chain) == guests.dev@,
{
}

/// A plan runs the guest program that it was made for, under the image ID of that very program, with
/// the limit and the options that were asked for; there is none only where the program has no image
/// ID.
pub proof fn law_plan_is_for_guest<'a, O, E>(
    guest: Seq<u8>,
    po2: Option<u32>,
    opts: Option<O>,
    r: Result<ProvePlan<'a, O>, ProveError<E>>,
)
    requires
        plans(guest, po2, opts, r),
    ensures
        r is Ok <==> image_id(guest) is Some,
        r matches Ok(plan) ==> {
            &&& plan.elf@ == guest
            &&& image_id(plan.elf@) == Some(plan.image_id)
            &&& plan.segment_limit_po2 == po2
            &&& plan.opts == opts
        },
        r matches Err(error) ==> error is ImageId,
{
}

} // verus!
