//! Custom EVM factory that extends the standard Ethereum precompiles with ML-KEM-768.

use alloy_evm::precompiles::{DynPrecompile, PrecompilesMap};
use revm::precompile::{PrecompileId, PrecompileSpecId, Precompiles};
use revm::primitives::hardfork::SpecId;
use vstd::prelude::*;

use crate::mlkem::{mlkem768, mlkem768_outcome, PrecompileError, MLKEM_ADDRESS};
use crate::primitives::Address;

verus! {

/// `alloy_evm::precompiles::PrecompilesMap`, the precompiles of an EVM by address.
#[verifier::external_type_specification]
#[verifier::external_body]
pub struct ExPrecompilesMap(PrecompilesMap);

/// A call of a precompile: its address, the input and the gas limit.
pub type PrecompileCall = (Address, Seq<u8>, u64);

/// What a precompile call comes to.
pub type PrecompileOutcome = Result<(u64, Seq<u8>), PrecompileError>;

/// The addresses at which a map has a precompile.
pub uninterp spec fn precompile_addresses(map: PrecompilesMap) -> Set<Address>;

/// What the precompiles of a map answer, for the calls that end with output bytes, for want of
/// gas, or with a message.
pub uninterp spec fn precompile_answers(map: PrecompilesMap) -> Map<
    PrecompileCall,
    PrecompileOutcome,
>;

/// The highest hard fork number that is known.
pub const LAST_SPEC: u8 = 20;

/// How many precompiles a hard fork has at the addresses from 1 on.
pub open spec fn low_precompiles(spec: u8) -> u8 {
    if spec < 6 {
        4
    } else if spec < 9 {
        8
    } else if spec < 17 {
        9
    } else if spec == 17 {
        10
    } else {
        17
    }
}

/// All bytes of the address but the last two are zero, and these make up a number.
pub open spec fn address_number(address: Address, high: u8, low: u8) -> bool {
    &&& forall|i: int| 0 <= i < 18 ==> address@[i] == 0
    &&& address@[18] == high
    &&& address@[19] == low
}

/// A standard precompile address of a hard fork, the hard forks being numbered from 0, Frontier,
/// to 20, Amsterdam. From 19, Osaka, on there is one at 256 besides those from 1 on.
pub open spec fn is_standard(spec: u8, address: Address) -> bool {
    ||| exists|low: u8| 1 <= low <= low_precompiles(spec) && address_number(address, 0, low)
    ||| spec >= 19 && address_number(address, 1, 0)
}

/// A standard set of precompiles, named by the hard fork that introduced it. Two sets can have the
/// same addresses and still differ in what the precompiles there cost or accept.
#[derive(Clone, Copy, Debug, PartialEq, Eq)]
pub enum PrecompileSet {
    Homestead,
    Byzantium,
    Istanbul,
    Berlin,
    Cancun,
    Prague,
    Osaka,
}

/// The standard set that a map was made from.
pub uninterp spec fn standard_set(map: PrecompilesMap) -> PrecompileSet;

/// The standard set of a hard fork: that of the latest one up to it that introduced a set.
pub open spec fn set_of_fork(spec: u8) -> PrecompileSet {
    if spec < 6 {
        PrecompileSet::Homestead
    } else if spec < 9 {
        PrecompileSet::Byzantium
    } else if spec < 11 {
        PrecompileSet::Istanbul
    } else if spec < 17 {
        PrecompileSet::Berlin
    } else if spec == 17 {
        PrecompileSet::Cancun
    } else if spec == 18 {
        PrecompileSet::Prague
    } else {
        PrecompileSet::Osaka
    }
}

/// Calls `PrecompilesMap::from_static` on the set that `Precompiles::new` gives for the hard fork
/// with this number, as `SpecId::try_from_u8` and `PrecompileSpecId::from_spec_id` map it. There
/// is one for every number up to 20; it is made from the standard set of the hard fork, and has a
/// precompile at exactly the standard addresses. What these precompiles answer is left unsaid: the
/// cryptography behind them can be replaced for the whole process.
#[verifier::external_body]
fn standard_precompiles(spec: u8) -> (r: Option<PrecompilesMap>)
    ensures
        match r {
            Some(map) => {
                &&& spec <= LAST_SPEC
                &&& standard_set(map) == set_of_fork(spec)
                &&& forall|address: Address| #[trigger]
                    precompile_addresses(map).contains(address) == is_standard(spec, address)
            },
            None => spec > LAST_SPEC,
        },
{
    let spec = SpecId::try_from_u8(spec)?;
    Some(PrecompilesMap::from_static(Precompiles::new(PrecompileSpecId::from_spec_id(spec))))
}

/// One more precompile answers calls at the ML-KEM address, and every other address answers as
/// before.
pub open spec fn mlkem_added(
    before: Map<PrecompileCall, PrecompileOutcome>,
    after: Map<PrecompileCall, PrecompileOutcome>,
) -> bool {
    forall|call: PrecompileCall| #![trigger after.contains_key(call)] #![trigger after[call]]
        if call.0 == MLKEM_ADDRESS {
            after.contains_key(call) && after[call] == mlkem768_outcome(call.1, call.2)
        } else {
            after.contains_key(call) == before.contains_key(call) && (before.contains_key(call)
                ==> after[call] == before[call])
        }
}

/// Calls `PrecompilesMap::extend_precompiles` with one entry, `mlkem768` under its address: the
/// entry replaces what was there, and the other addresses keep their precompile.
#[verifier::external_body]
fn install_mlkem(map: &mut PrecompilesMap)
    ensures
        precompile_addresses(*final(map)) == precompile_addresses(*old(map)).insert(MLKEM_ADDRESS),
        mlkem_added(precompile_answers(*old(map)), precompile_answers(*final(map))),
{
    let mlkem = DynPrecompile::new(PrecompileId::custom("mlkem768"), |input| {
        match mlkem768(input.data, input.gas) {
            Ok(out) => Ok(revm::precompile::PrecompileOutput::new(out.gas_used, out.bytes.into())),
            Err(PrecompileError::OutOfGas) => Err(revm::precompile::PrecompileError::OutOfGas),
            Err(PrecompileError::Other(m)) => Err(revm::precompile::PrecompileError::other(m)),
        }
    });
    map.extend_precompiles([(alloy_primitives::Address::new(MLKEM_ADDRESS), mlkem)]);
}

/// EVM factory that extends standard Ethereum precompiles with the ML-KEM-768 precompile.
#[derive(Debug, Clone, Copy)]
#[non_exhaustive]
pub struct ZethEvmFactory;

impl Default for ZethEvmFactory {
    fn default() -> (r: Self)
        ensures
            r == ZethEvmFactory,
    {
        ZethEvmFactory
    }
}

impl ZethEvmFactory {
    /// Adds ML-KEM-768 to the precompiles of an EVM. The precompiles at other addresses stay as
    /// they are.
    pub fn extend(&self, map: &mut PrecompilesMap)
        ensures
            precompile_addresses(*final(map)) == precompile_addresses(*old(map)).insert(
                MLKEM_ADDRESS,
            ),
            mlkem_added(precompile_answers(*old(map)), precompile_answers(*final(map))),
    {
        install_mlkem(map);
    }

    /// The precompiles of an EVM for the hard fork with this number, where there is one: the
    /// standard precompiles of the hard fork, each answering as it does in the standard set, and
    /// ML-KEM-768 at its own address.
    pub fn precompiles(&self, spec: u8) -> (r: Option<PrecompilesMap>)
        ensures
            r is Some <==> spec <= LAST_SPEC,
            r matches Some(map) ==> {
                &&& forall|address: Address| #[trigger]
                    precompile_addresses(map).contains(address) == (address == MLKEM_ADDRESS
                        || is_standard(spec, address))
                &&& exists|standard: PrecompilesMap|
                    #[trigger] standard_set(standard) == set_of_fork(spec) && mlkem_added(
                        precompile_answers(standard),
                        precompile_answers(map),
                    )
                &&& forall|data: Seq<u8>, gas: u64|
                    {
                        &&& precompile_answers(map).contains_key((MLKEM_ADDRESS, data, gas))
                        &&& #[trigger] precompile_answers(map)[(MLKEM_ADDRESS, data, gas)]
                            == mlkem768_outcome(data, gas)
                    }
            },
    {
        match standard_precompiles(spec) {
            None => None,
            Some(standard) => {
                let mut map = standard;
                self.extend(&mut map);
                Some(map)
            },
        }
    }
}

/// The ML-KEM address, which is the number 32, is no standard precompile address of any hard fork, so
/// nothing standard is replaced.
pub proof fn law_mlkem_address_is_free(spec: u8)
    ensures
        !is_standard(spec, MLKEM_ADDRESS),
        MLKEM_ADDRESS@ == Seq::new(20, |i: int| if i == 19 { 0x20u8 } else { 0u8 }),
{
    assert(MLKEM_ADDRESS@ =~= Seq::new(20, |i: int| if i == 19 { 0x20u8 } else { 0u8 }));
    assert(MLKEM_ADDRESS@[19] == 0x20);
    assert(MLKEM_ADDRESS@[18] == 0);
}

/// A later hard fork keeps the precompile addresses of an earlier one.
pub proof fn law_precompiles_only_grow(earlier: u8, later: u8, address: Address)
    requires
        earlier <= later,
        is_standard(earlier, address),
    ensures
        is_standard(later, address),
{
    if exists|low: u8| 1 <= low <= low_precompiles(earlier) && address_number(address, 0, low) {
        let low = choose|low: u8|
            1 <= low <= low_precompiles(earlier) && address_number(address, 0, low);
        assert(1 <= low <= low_precompiles(later) && address_number(address, 0, low));
    }
}

} // verus!
