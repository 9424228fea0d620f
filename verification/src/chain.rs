//! The chains whose blocks can be processed.

use vstd::prelude::*;

verus! {

/// A supported chain.
#[derive(Clone, Copy, Debug, PartialEq, Eq, Structural)]
pub enum NamedChain {
    Mainnet,
    Sepolia,
    Hoodi,
    AnvilHardhat,
}

impl NamedChain {
    /// The chain ID.
    pub open spec fn spec_id(&self) -> u64 {
        match self {
            NamedChain::Mainnet => 1,
            NamedChain::Sepolia => 11155111,
            NamedChain::Hoodi => 560048,
            NamedChain::AnvilHardhat => 31337,
        }
    }

    /// The first block after the merge.
    pub open spec fn spec_merge_block(&self) -> u64 {
        match self {
            NamedChain::Mainnet => 15537394,
            NamedChain::Sepolia => 1450409,
            NamedChain::Hoodi => 0,
            NamedChain::AnvilHardhat => 0,
        }
    }

    /// The first block after the merge.
    pub fn merge_block(&self) -> (r: u64)
        ensures
            r == self.spec_merge_block(),
            match self {
                NamedChain::Mainnet => r == 15537394,
                NamedChain::Sepolia => r == 1450409,
                NamedChain::Hoodi => r == 0,
                NamedChain::AnvilHardhat => r == 0,
            },
    {
        match self {
            NamedChain::Mainnet => 15537394,
            NamedChain::Sepolia => 1450409,
            NamedChain::Hoodi => 0,
            NamedChain::AnvilHardhat => 0,
        }
    }

    /// Tells whether a block comes after the merge.
    pub fn is_post_merge(&self, block_number: u64) -> (r: bool)
        ensures
            r == (block_number >= self.spec_merge_block()),
            match self {
                NamedChain::Mainnet => r == (block_number >= 15537394),
                NamedChain::Sepolia => r == (block_number >= 1450409),
                NamedChain::Hoodi => r,
                NamedChain::AnvilHardhat => r,
            },
    {
        match self {
            NamedChain::Mainnet => mainnet_paris_active(block_number),
            NamedChain::Sepolia => sepolia_paris_active(block_number),
            NamedChain::Hoodi => hoodi_paris_active(block_number),
            NamedChain::AnvilHardhat => devnet_paris_active(block_number),
        }
    }
}

/// Calls `EthereumHardforks::is_paris_active_at_block` of `alloy_hardforks` for
/// `EthereumChainHardforks::mainnet`: true from the activation block of the schedule on.
#[verifier::external_body]
fn mainnet_paris_active(block_number: u64) -> (r: bool)
    ensures
        r == (block_number >= 15537394),
{
    alloy_hardforks::EthereumHardforks::is_paris_active_at_block(
        &alloy_hardforks::EthereumChainHardforks::mainnet(),
        block_number,
    )
}

/// Calls `EthereumHardforks::is_paris_active_at_block` of `alloy_hardforks` for
/// `EthereumChainHardforks::sepolia`: true from the activation block of the schedule on.
#[verifier::external_body]
fn sepolia_paris_active(block_number: u64) -> (r: bool)
    ensures
        r == (block_number >= 1450409),
{
    alloy_hardforks::EthereumHardforks::is_paris_active_at_block(
        &alloy_hardforks::EthereumChainHardforks::sepolia(),
        block_number,
    )
}

/// Calls `EthereumHardforks::is_paris_active_at_block` of `alloy_hardforks` for
/// `EthereumChainHardforks::hoodi`: true from the activation block of the schedule on.
#[verifier::external_body]
fn hoodi_paris_active(block_number: u64) -> (r: bool)
    ensures
        r == (block_number >= 0),
{
    alloy_hardforks::EthereumHardforks::is_paris_active_at_block(
        &alloy_hardforks::EthereumChainHardforks::hoodi(),
        block_number,
    )
}

/// Calls `EthereumHardforks::is_paris_active_at_block` of `alloy_hardforks` for
/// `EthereumChainHardforks::devnet`, the schedule of a local test chain: true from the activation
/// block of the schedule on.
#[verifier::external_body]
fn devnet_paris_active(block_number: u64) -> (r: bool)
    ensures
        r == (block_number >= 0),
{
    alloy_hardforks::EthereumHardforks::is_paris_active_at_block(
        &alloy_hardforks::EthereumChainHardforks::devnet(),
        block_number,
    )
}

/// Two chains with the same ID are the same.
pub proof fn law_chain_id_injective(a: NamedChain, b: NamedChain)
    requires
        a.spec_id() == b.spec_id(),
    ensures
        a == b,
{
}

/// Why a chain cannot be processed.
#[derive(Debug)]
pub enum ChainError {
    /// No chain is known under this ID.
    InvalidChainId,
    /// The chain is known by this name, but not supported.
    Unsupported(String),
}

impl ChainError {
    /// The failure in words.
    pub fn message(&self) -> (r: String)
        ensures
            r@ == (match self {
                ChainError::InvalidChainId => "invalid chain ID"@,
                ChainError::Unsupported(name) => "unsupported chain: "@ + name@,
            }),
    {
        match self {
            ChainError::InvalidChainId => String::from_str("invalid chain ID"),
            ChainError::Unsupported(name) => {
                let mut text = String::from_str("unsupported chain: ");
                text.append(name.as_str());
                text
            },
        }
    }
}

/// The name of the chain with an ID, or nothing for an ID without a chain.
pub uninterp spec fn chain_name(id: u64) -> Option<Seq<char>>;

/// No supported chain has this ID.
pub open spec fn is_unsupported(id: u64) -> bool {
    forall|chain: NamedChain| id != #[trigger] chain.spec_id()
}

/// Calls `alloy_chains::NamedChain::try_from`, and prints the chain with its `Display`. Which IDs
/// have a chain, and under what name, is a function of the ID; the supported chains have one.
#[verifier::external_body]
fn named_chain(id: u64) -> (r: Option<String>)
    ensures
        match r {
            Some(name) => chain_name(id) == Some(name@),
            None => chain_name(id) is None && is_unsupported(id),
        },
{
    Some(alloy_chains::NamedChain::try_from(id).ok()?.to_string())
}

/// The supported chain with this ID, or nothing.
fn chain_with_id(id: u64) -> (r: Option<NamedChain>)
    ensures
        match r {
            Some(chain) => chain.spec_id() == id,
            None => is_unsupported(id),
        },
{
    if id == 1 {
        Some(NamedChain::Mainnet)
    } else if id == 11155111 {
        Some(NamedChain::Sepolia)
    } else if id == 560048 {
        Some(NamedChain::Hoodi)
    } else if id == 31337 {
        Some(NamedChain::AnvilHardhat)
    } else {
        None
    }
}

/// Judges a chain ID by the name of its chain, if it has one: a chain without a name is unknown,
/// and of those with a name the supported ones are told by their ID.
pub fn supported(chain_id: u64, name: Option<String>) -> (r: Result<NamedChain, ChainError>)
    ensures
        match r {
            Ok(chain) => name is Some && chain.spec_id() == chain_id,
            Err(ChainError::Unsupported(other)) => name == Some(other) && is_unsupported(chain_id),
            Err(ChainError::InvalidChainId) => name is None,
        },
{
    match name {
        None => Err(ChainError::InvalidChainId),
        Some(name) => match chain_with_id(chain_id) {
            Some(chain) => Ok(chain),
            None => Err(ChainError::Unsupported(name)),
        },
    }
}

/// What becomes of a chain ID: a supported chain, or the reason why there is none.
pub open spec fn selects(id: u64, r: Result<NamedChain, ChainError>) -> bool {
    match r {
        Ok(chain) => chain.spec_id() == id,
        Err(ChainError::Unsupported(name)) => is_unsupported(id) && chain_name(id) == Some(name@),
        Err(ChainError::InvalidChainId) => is_unsupported(id) && chain_name(id) is None,
    }
}

/// The IDs of the supported chains, and no others: an ID is selected for the chain that it belongs
/// to.
pub proof fn law_supported_ids(id: u64)
    ensures
        is_unsupported(id) <==> id != 1 && id != 11155111 && id != 560048 && id != 31337,
        NamedChain::Mainnet.spec_id() == id <==> id == 1,
        NamedChain::Sepolia.spec_id() == id <==> id == 11155111,
        NamedChain::Hoodi.spec_id() == id <==> id == 560048,
        NamedChain::AnvilHardhat.spec_id() == id <==> id == 31337,
{
    assert(id == 1 ==> id == NamedChain::Mainnet.spec_id());
    assert(id == 11155111 ==> id == NamedChain::Sepolia.spec_id());
    assert(id == 560048 ==> id == NamedChain::Hoodi.spec_id());
    assert(id == 31337 ==> id == NamedChain::AnvilHardhat.spec_id());
}

/// What a chain ID is selected for depends on the ID and on the name that it is known by: one of the
/// four supported IDs selects its chain, another ID fails with its name, or as unknown.
pub proof fn law_selection(id: u64, r: Result<NamedChain, ChainError>)
    requires
        selects(id, r),
    ensures
        id == 1 <==> r == Ok::<NamedChain, ChainError>(NamedChain::Mainnet),
        id == 11155111 <==> r == Ok::<NamedChain, ChainError>(NamedChain::Sepolia),
        id == 560048 <==> r == Ok::<NamedChain, ChainError>(NamedChain::Hoodi),
        id == 31337 <==> r == Ok::<NamedChain, ChainError>(NamedChain::AnvilHardhat),
        r matches Err(ChainError::Unsupported(name)) ==> chain_name(id) == Some(name@),
        r matches Err(ChainError::InvalidChainId) ==> chain_name(id) is None,
{
    law_supported_ids(id);
}

/// The first post-merge block of each chain.
pub proof fn law_merge_blocks(chain: NamedChain)
    ensures
        chain.spec_id() == 1 ==> chain.spec_merge_block() == 15537394,
        chain.spec_id() == 11155111 ==> chain.spec_merge_block() == 1450409,
        chain.spec_id() == 560048 || chain.spec_id() == 31337 ==> chain.spec_merge_block() == 0,
{
}

/// Finds the supported chain with an ID.
pub fn select_chain(chain_id: u64) -> (r: Result<NamedChain, ChainError>)
    ensures
        selects(chain_id, r),
        chain_id == 1 <==> r == Ok::<NamedChain, ChainError>(NamedChain::Mainnet),
        chain_id == 11155111 <==> r == Ok::<NamedChain, ChainError>(NamedChain::Sepolia),
        chain_id == 560048 <==> r == Ok::<NamedChain, ChainError>(NamedChain::Hoodi),
        chain_id == 31337 <==> r == Ok::<NamedChain, ChainError>(NamedChain::AnvilHardhat),
        r matches Err(ChainError::Unsupported(name)) ==> chain_name(chain_id) == Some(name@),
        r matches Err(ChainError::InvalidChainId) ==> chain_name(chain_id) is None,
{
    proof {
        law_supported_ids(chain_id);
    }
    supported(chain_id, named_chain(chain_id))
}

} // verus!
