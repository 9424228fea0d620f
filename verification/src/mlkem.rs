//! ML-KEM-768 EVM precompile (FIPS 203): deterministic encapsulation and decapsulation.

use ml_kem::kem::{Decapsulate, Encapsulate};
use ml_kem::{EncodedSizeUser, KemCore, MlKem768};
use rand_core::SeedableRng;
use vstd::prelude::*;
use vstd::slice::slice_subrange;

use crate::primitives::Address;

verus! {

/// Precompile address for ML-KEM-768.
pub const MLKEM_ADDRESS: Address = [0, 0, 0, 0, 0, 0, 0, 0, 0, 0, 0, 0, 0, 0, 0, 0, 0, 0, 0, 0x20];

/// The size of an encapsulation key.
pub const EK_SIZE: usize = 1184;

/// The size of a decapsulation key.
pub const DK_SIZE: usize = 2400;

/// The size of a ciphertext.
pub const CT_SIZE: usize = 1088;

/// The size of a shared secret.
pub const SS_SIZE: usize = 32;

/// The size of the seed of an encapsulation.
pub const SEED_SIZE: usize = 32;

/// The gas cost of an encapsulation.
pub const GAS_ENCAPSULATE: u64 = 100_000;

/// The gas cost of a decapsulation.
pub const GAS_DECAPSULATE: u64 = 50_000;

/// The first input byte of an encapsulation.
pub const OP_ENCAPSULATE: u8 = 0x00;

/// The first input byte of a decapsulation.
pub const OP_DECAPSULATE: u8 = 0x01;

/// What a precompile call returns.
#[derive(Debug)]
pub struct PrecompileOutput {
    pub gas_used: u64,
    pub bytes: Vec<u8>,
}

/// Why a precompile call failed.
#[derive(Clone, Copy, Debug, PartialEq, Eq)]
pub enum PrecompileError {
    /// The gas limit is below the cost of the operation.
    OutOfGas,
    /// The input is not valid.
    Other(&'static str),
}

/// The result of a precompile call.
pub type PrecompileResult = Result<PrecompileOutput, PrecompileError>;

/// A result with the output bytes as a sequence.
pub open spec fn outcome(result: PrecompileResult) -> Result<(u64, Seq<u8>), PrecompileError> {
    match result {
        Ok(output) => Ok((output.gas_used, output.bytes@)),
        Err(error) => Err(error),
    }
}

/// The ciphertext and the shared secret of an ML-KEM-768 encapsulation to a key, with the
/// randomness that a ChaCha20 generator draws from a seed.
pub uninterp spec fn kem_encapsulation(ek: Seq<u8>, seed: Seq<u8>) -> (Seq<u8>, Seq<u8>);

/// The results of an encapsulation have the sizes of a ciphertext and of a shared secret.
pub open spec fn encapsulation_sized(ek: Seq<u8>, seed: Seq<u8>) -> bool {
    &&& kem_encapsulation(ek, seed).0.len() == CT_SIZE
    &&& kem_encapsulation(ek, seed).1.len() == SS_SIZE
}

/// The shared secret of an ML-KEM-768 decapsulation.
pub uninterp spec fn kem_decapsulation(dk: Seq<u8>, ct: Seq<u8>) -> Seq<u8>;

/// Calls `Encapsulate::encapsulate` of `ml_kem` for the key that `EncapsulationKey::from_bytes`
/// reads, with the generator that `rand_chacha::ChaCha20Rng::from_seed` makes. The generator is
/// the only source of randomness, so the result is a function of the two arguments. The call
/// never fails; the sizes are those of the types it returns.
#[verifier::external_body]
fn kem_encapsulate(ek: &[u8], seed: &[u8]) -> (r: Result<(Vec<u8>, Vec<u8>), ()>)
    requires
        ek@.len() == EK_SIZE,
        seed@.len() == SEED_SIZE,
    ensures
        match r {
            Ok(pair) => {
                &&& (pair.0@, pair.1@) == kem_encapsulation(ek@, seed@)
                &&& pair.0@.len() == CT_SIZE
                &&& pair.1@.len() == SS_SIZE
            },
            Err(_) => false,
        },
{
    let ek = <MlKem768 as KemCore>::EncapsulationKey::from_bytes(ek.try_into().unwrap());
    let seed: [u8; 32] = seed.try_into().unwrap();
    let mut rng = rand_chacha::ChaCha20Rng::from_seed(seed);
    let (ct, ss) = ek.encapsulate(&mut rng)?;
    Ok((ct.to_vec(), ss.to_vec()))
}

/// Calls `Decapsulate::decapsulate` of `ml_kem` for the key that `DecapsulationKey::from_bytes`
/// reads. The result is a function of the two arguments. The call never fails: a ciphertext that
/// was not made for the key gives a secret of its own. The size is that of the type it returns.
#[verifier::external_body]
fn kem_decapsulate(dk: &[u8], ct: &[u8]) -> (r: Result<Vec<u8>, ()>)
    requires
        dk@.len() == DK_SIZE,
        ct@.len() == CT_SIZE,
    ensures
        match r {
            Ok(ss) => ss@ == kem_decapsulation(dk@, ct@) && ss@.len() == SS_SIZE,
            Err(_) => false,
        },
{
    let dk = <MlKem768 as KemCore>::DecapsulationKey::from_bytes(dk.try_into().unwrap());
    let ss = dk.decapsulate(ct.try_into().unwrap())?;
    Ok(ss.to_vec())
}

/// The outcome of an encapsulation.
pub open spec fn encapsulate_outcome(data: Seq<u8>, gas_limit: u64) -> Result<
    (u64, Seq<u8>),
    PrecompileError,
> {
    if gas_limit < GAS_ENCAPSULATE {
        Err(PrecompileError::OutOfGas)
    } else if data.len() != EK_SIZE + SEED_SIZE {
        Err(PrecompileError::Other("invalid encapsulate input length"))
    } else {
        let (ct, ss) = kem_encapsulation(data.take(EK_SIZE as int), data.skip(EK_SIZE as int));
        Ok((GAS_ENCAPSULATE, ct + ss))
    }
}

/// The outcome of a decapsulation.
pub open spec fn decapsulate_outcome(data: Seq<u8>, gas_limit: u64) -> Result<
    (u64, Seq<u8>),
    PrecompileError,
> {
    if gas_limit < GAS_DECAPSULATE {
        Err(PrecompileError::OutOfGas)
    } else if data.len() != DK_SIZE + CT_SIZE {
        Err(PrecompileError::Other("invalid decapsulate input length"))
    } else {
        Ok(
            (
                GAS_DECAPSULATE,
                kem_decapsulation(data.take(DK_SIZE as int), data.skip(DK_SIZE as int)),
            ),
        )
    }
}

/// The outcome of a call of the precompile.
pub open spec fn mlkem768_outcome(input: Seq<u8>, gas_limit: u64) -> Result<
    (u64, Seq<u8>),
    PrecompileError,
> {
    if input.len() == 0 {
        Err(PrecompileError::Other("empty input"))
    } else if input[0] == OP_ENCAPSULATE {
        encapsulate_outcome(input.skip(1), gas_limit)
    } else if input[0] == OP_DECAPSULATE {
        decapsulate_outcome(input.skip(1), gas_limit)
    } else {
        Err(PrecompileError::Other("invalid ML-KEM operation"))
    }
}

/// ML-KEM-768 precompile entry point.
///
/// # ABI
///
/// - **Encapsulate** (`0x00`): `input[0]=0x00 | input[1..1185]=ek | input[1185..1217]=seed`
///   → `output[0..1088]=ct | output[1088..1120]=ss`
/// - **Decapsulate** (`0x01`): `input[0]=0x01 | input[1..2401]=dk | input[2401..3489]=ct`
///   → `output[0..32]=ss`
pub fn mlkem768(input: &[u8], gas_limit: u64) -> (r: PrecompileResult)
    ensures
        outcome(r) == mlkem768_outcome(input@, gas_limit),
        r matches Ok(output) ==> output.bytes@.len() == if input@[0] == OP_ENCAPSULATE {
            CT_SIZE + SS_SIZE
        } else {
            SS_SIZE as int
        },
        r is Ok && input@[0] == OP_ENCAPSULATE ==> encapsulation_sized(
            input@.skip(1).take(EK_SIZE as int),
            input@.skip(1).skip(EK_SIZE as int),
        ),
        match r {
            Ok(output) => {
                ||| {
                    &&& input@.len() == 1217
                    &&& input@[0] == 0x00
                    &&& 100_000 <= gas_limit
                    &&& output.gas_used == 100_000
                    &&& output.bytes@ == kem_encapsulation(
                        input@.subrange(1, 1185),
                        input@.subrange(1185, 1217),
                    ).0 + kem_encapsulation(
                        input@.subrange(1, 1185),
                        input@.subrange(1185, 1217),
                    ).1
                }
                ||| {
                    &&& input@.len() == 3489
                    &&& input@[0] == 0x01
                    &&& 50_000 <= gas_limit
                    &&& output.gas_used == 50_000
                    &&& output.bytes@ == kem_decapsulation(
                        input@.subrange(1, 2401),
                        input@.subrange(2401, 3489),
                    )
                }
            },
            Err(error) => if input@.len() == 0 {
                error == PrecompileError::Other("empty input")
            } else if input@[0] > 0x01 {
                error == PrecompileError::Other("invalid ML-KEM operation")
            } else if input@[0] == 0x00 && gas_limit < 100_000 {
                error == PrecompileError::OutOfGas
            } else if input@[0] == 0x01 && gas_limit < 50_000 {
                error == PrecompileError::OutOfGas
            } else if input@[0] == 0x00 {
                input@.len() != 1217 && error == PrecompileError::Other(
                    "invalid encapsulate input length",
                )
            } else {
                input@.len() != 3489 && error == PrecompileError::Other(
                    "invalid decapsulate input length",
                )
            },
        },
{
    if input.len() == 0 {
        return Err(PrecompileError::Other("empty input"));
    }
    let op: u8 = input[0];
    let data = slice_subrange(input, 1, input.len());
    assert(data@ =~= input@.skip(1));
    proof {
        if input@.len() == 1217 {
            assert(data@.take(1184) =~= input@.subrange(1, 1185));
            assert(data@.skip(1184) =~= input@.subrange(1185, 1217));
        }
        if input@.len() == 3489 {
            assert(data@.take(2400) =~= input@.subrange(1, 2401));
            assert(data@.skip(2400) =~= input@.subrange(2401, 3489));
        }
    }
    if op == OP_ENCAPSULATE {
        encapsulate(data, gas_limit)
    } else if op == OP_DECAPSULATE {
        decapsulate(data, gas_limit)
    } else {
        Err(PrecompileError::Other("invalid ML-KEM operation"))
    }
}

/// Encapsulates to a key: `data[0..1184]=ek | data[1184..1216]=seed`.
pub fn encapsulate(data: &[u8], gas_limit: u64) -> (r: PrecompileResult)
    ensures
        outcome(r) == encapsulate_outcome(data@, gas_limit),
        r matches Ok(output) ==> output.bytes@.len() == CT_SIZE + SS_SIZE,
        r is Ok ==> encapsulation_sized(
            data@.take(EK_SIZE as int),
            data@.skip(EK_SIZE as int),
        ),
        match r {
            Ok(output) => {
                &&& data@.len() == 1216
                &&& 100_000 <= gas_limit
                &&& output.gas_used == 100_000
                &&& output.bytes@ == kem_encapsulation(data@.take(1184), data@.skip(1184)).0
                    + kem_encapsulation(data@.take(1184), data@.skip(1184)).1
            },
            Err(error) => if gas_limit < 100_000 {
                error is OutOfGas
            } else {
                data@.len() != 1216 && error is Other
            },
        },
{
    if gas_limit < GAS_ENCAPSULATE {
        return Err(PrecompileError::OutOfGas);
    }
    if data.len() != EK_SIZE + SEED_SIZE {
        return Err(PrecompileError::Other("invalid encapsulate input length"));
    }
    let ek = slice_subrange(data, 0, EK_SIZE);
    let seed = slice_subrange(data, EK_SIZE, data.len());
    assert(ek@ =~= data@.take(EK_SIZE as int));
    assert(seed@ =~= data@.skip(EK_SIZE as int));
    encapsulate_output(kem_encapsulate(ek, seed))
}

/// Lays out the result of an encapsulation: the ciphertext, then the shared secret.
pub fn encapsulate_output(kem: Result<(Vec<u8>, Vec<u8>), ()>) -> (r: PrecompileResult)
    ensures
        outcome(r) == (match kem {
            Ok((ct, ss)) => Ok::<(u64, Seq<u8>), PrecompileError>((GAS_ENCAPSULATE, ct@ + ss@)),
            Err(_) => Err::<(u64, Seq<u8>), PrecompileError>(PrecompileError::Other("encapsulate")),
        }),
{
    match kem {
        Ok((ct, ss)) => {
            let mut bytes: Vec<u8> = ct;
            let mut tail: Vec<u8> = ss;
            bytes.append(&mut tail);
            Ok(PrecompileOutput { gas_used: GAS_ENCAPSULATE, bytes })
        },
        Err(_) => Err(PrecompileError::Other("encapsulate")),
    }
}

/// Decapsulates a ciphertext: `data[0..2400]=dk | data[2400..3488]=ct`.
pub fn decapsulate(data: &[u8], gas_limit: u64) -> (r: PrecompileResult)
    ensures
        outcome(r) == decapsulate_outcome(data@, gas_limit),
        r matches Ok(output) ==> output.bytes@.len() == SS_SIZE,
        match r {
            Ok(output) => {
                &&& data@.len() == 3488
                &&& 50_000 <= gas_limit
                &&& output.gas_used == 50_000
                &&& output.bytes@ == kem_decapsulation(data@.take(2400), data@.skip(2400))
            },
            Err(error) => if gas_limit < 50_000 {
                error is OutOfGas
            } else {
                data@.len() != 3488 && error is Other
            },
        },
{
    if gas_limit < GAS_DECAPSULATE {
        return Err(PrecompileError::OutOfGas);
    }
    if data.len() != DK_SIZE + CT_SIZE {
        return Err(PrecompileError::Other("invalid decapsulate input length"));
    }
    let dk = slice_subrange(data, 0, DK_SIZE);
    let ct = slice_subrange(data, DK_SIZE, data.len());
    assert(dk@ =~= data@.take(DK_SIZE as int));
    assert(ct@ =~= data@.skip(DK_SIZE as int));
    decapsulate_output(kem_decapsulate(dk, ct))
}

/// Hands out the shared secret of a decapsulation.
pub fn decapsulate_output(kem: Result<Vec<u8>, ()>) -> (r: PrecompileResult)
    ensures
        outcome(r) == (match kem {
            Ok(ss) => Ok::<(u64, Seq<u8>), PrecompileError>((GAS_DECAPSULATE, ss@)),
            Err(_) => Err::<(u64, Seq<u8>), PrecompileError>(PrecompileError::Other("decapsulate")),
        }),
{
    match kem {
        Ok(bytes) => Ok(PrecompileOutput { gas_used: GAS_DECAPSULATE, bytes }),
        Err(_) => Err(PrecompileError::Other("decapsulate")),
    }
}

/// An encapsulation call hands out what the key encapsulation gives for the key and the seed: the
/// ciphertext, then the shared secret, for 100000 gas.
pub proof fn law_encapsulation_call(ek: Seq<u8>, seed: Seq<u8>, gas_limit: u64)
    requires
        ek.len() == 1184,
        seed.len() == 32,
    ensures
        mlkem768_outcome(seq![0x00u8] + ek + seed, gas_limit) == if gas_limit < 100_000 {
            Err::<(u64, Seq<u8>), PrecompileError>(PrecompileError::OutOfGas)
        } else {
            Ok::<(u64, Seq<u8>), PrecompileError>(
                (100_000u64, kem_encapsulation(ek, seed).0 + kem_encapsulation(ek, seed).1),
            )
        },
{
    let input = seq![0x00u8] + ek + seed;
    assert(input.skip(1) =~= ek + seed);
    assert((ek + seed).take(1184) =~= ek);
    assert((ek + seed).skip(1184) =~= seed);
}

/// A decapsulation call hands out the shared secret that the decapsulation key gives for the
/// ciphertext, for 50000 gas.
pub proof fn law_decapsulation_call(dk: Seq<u8>, ct: Seq<u8>, gas_limit: u64)
    requires
        dk.len() == 2400,
        ct.len() == 1088,
    ensures
        mlkem768_outcome(seq![0x01u8] + dk + ct, gas_limit) == if gas_limit < 50_000 {
            Err::<(u64, Seq<u8>), PrecompileError>(PrecompileError::OutOfGas)
        } else {
            Ok::<(u64, Seq<u8>), PrecompileError>((50_000u64, kem_decapsulation(dk, ct)))
        },
{
    let input = seq![0x01u8] + dk + ct;
    assert(input.skip(1) =~= dk + ct);
    assert((dk + ct).take(2400) =~= dk);
    assert((dk + ct).skip(2400) =~= ct);
}

/// Every other call fails: one without input, one with another first byte, and one whose data have
/// another length than the operation takes, unless its gas runs out first.
pub proof fn law_malformed_calls_fail(input: Seq<u8>, gas_limit: u64)
    ensures
        input.len() == 0 ==> mlkem768_outcome(input, gas_limit) == Err::<
            (u64, Seq<u8>),
            PrecompileError,
        >(PrecompileError::Other("empty input")),
        input.len() > 0 && input[0] > 1 ==> mlkem768_outcome(input, gas_limit) == Err::<
            (u64, Seq<u8>),
            PrecompileError,
        >(PrecompileError::Other("invalid ML-KEM operation")),
        input.len() > 0 && input[0] == 0 && input.len() != 1217 ==> mlkem768_outcome(
            input,
            gas_limit,
        ) == Err::<(u64, Seq<u8>), PrecompileError>(
            if gas_limit < 100_000 {
                PrecompileError::OutOfGas
            } else {
                PrecompileError::Other("invalid encapsulate input length")
            },
        ),
        input.len() > 0 && input[0] == 1 && input.len() != 3489 ==> mlkem768_outcome(
            input,
            gas_limit,
        ) == Err::<(u64, Seq<u8>), PrecompileError>(
            if gas_limit < 50_000 {
                PrecompileError::OutOfGas
            } else {
                PrecompileError::Other("invalid decapsulate input length")
            },
        ),
{
}

/// Calls with the same input and the same gas limit come to the same: nothing but the input decides
/// on the ciphertext and on the shared secret.
pub proof fn law_calls_are_deterministic(
    input: Seq<u8>,
    gas_limit: u64,
    first: PrecompileResult,
    second: PrecompileResult,
)
    requires
        outcome(first) == mlkem768_outcome(input, gas_limit),
        outcome(second) == mlkem768_outcome(input, gas_limit),
    ensures
        match (first, second) {
            (Ok(a), Ok(b)) => a.gas_used == b.gas_used && a.bytes@ == b.bytes@,
            (Err(a), Err(b)) => a == b,
            _ => false,
        },
{
}

/// More gas than the cost of an operation changes nothing: a call that succeeds, or that fails
/// for its input alone, has the same outcome under any higher limit.
pub proof fn law_outcome_ignores_spare_gas(input: Seq<u8>, gas_limit: u64, higher: u64)
    requires
        gas_limit <= higher,
        mlkem768_outcome(input, gas_limit) != Err::<(u64, Seq<u8>), PrecompileError>(
            PrecompileError::OutOfGas,
        ),
    ensures
        mlkem768_outcome(input, higher) == mlkem768_outcome(input, gas_limit),
{
}

/// A call never uses more gas than its limit.
pub proof fn law_gas_within_limit(input: Seq<u8>, gas_limit: u64)
    ensures
        mlkem768_outcome(input, gas_limit) matches Ok((gas_used, _)) ==> gas_used <= gas_limit,
{
}

/// What an encapsulation call returns can be cut at the ciphertext size and fed back to a
/// decapsulation call, which then returns the same shared secret, for every key pair and seed for
/// which the key encapsulation itself recovers its secret. An encapsulation call that succeeds
/// shows the sizes.
pub proof fn law_round_trip(
    ek: Seq<u8>,
    dk: Seq<u8>,
    seed: Seq<u8>,
    encapsulate_gas: u64,
    decapsulate_gas: u64,
)
    requires
        ek.len() == EK_SIZE,
        dk.len() == DK_SIZE,
        seed.len() == SEED_SIZE,
        encapsulate_gas >= GAS_ENCAPSULATE,
        decapsulate_gas >= GAS_DECAPSULATE,
        encapsulation_sized(ek, seed),
        kem_decapsulation(dk, kem_encapsulation(ek, seed).0) == kem_encapsulation(ek, seed).1,
    ensures
        mlkem768_outcome(seq![OP_ENCAPSULATE] + ek + seed, encapsulate_gas) matches Ok((_, out))
            && mlkem768_outcome(
            seq![OP_DECAPSULATE] + dk + out.take(CT_SIZE as int),
            decapsulate_gas,
        ) == Ok::<(u64, Seq<u8>), PrecompileError>((GAS_DECAPSULATE, out.skip(CT_SIZE as int)))
            && out.skip(CT_SIZE as int).len() == SS_SIZE,
{
    let (ct, ss) = kem_encapsulation(ek, seed);
    let enc = seq![OP_ENCAPSULATE] + ek + seed;
    assert(enc.skip(1) =~= ek + seed);
    assert((ek + seed).take(EK_SIZE as int) =~= ek);
    assert((ek + seed).skip(EK_SIZE as int) =~= seed);
    let out = ct + ss;
    assert(out.take(CT_SIZE as int) =~= ct);
    assert(out.skip(CT_SIZE as int) =~= ss);
    let dec = seq![OP_DECAPSULATE] + dk + ct;
    assert(dec.skip(1) =~= dk + ct);
    assert((dk + ct).take(DK_SIZE as int) =~= dk);
    assert((dk + ct).skip(DK_SIZE as int) =~= ct);
}

} // verus!
