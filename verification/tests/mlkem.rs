use ml_kem::{EncodedSizeUser, KemCore, MlKem768};
use zeth::mlkem::{
    decapsulate, decapsulate_output, encapsulate, encapsulate_output, mlkem768, PrecompileError,
    CT_SIZE, DK_SIZE, EK_SIZE, GAS_DECAPSULATE, GAS_ENCAPSULATE, MLKEM_ADDRESS, OP_DECAPSULATE,
    OP_ENCAPSULATE, SEED_SIZE, SS_SIZE,
};

fn encapsulate_input(ek: &[u8], seed: &[u8]) -> Vec<u8> {
    let mut input = vec![OP_ENCAPSULATE];
    input.extend_from_slice(ek);
    input.extend_from_slice(seed);
    input
}

#[test]
fn roundtrip() {
    let (dk, ek) = MlKem768::generate(&mut rand_core::OsRng);
    let ek_bytes = ek.as_bytes();
    let seed = [0x42u8; SEED_SIZE];

    // Encapsulate
    let mut enc_input = vec![OP_ENCAPSULATE];
    enc_input.extend_from_slice(ek_bytes.as_ref());
    enc_input.extend_from_slice(&seed);

    let enc_out = mlkem768(&enc_input, GAS_ENCAPSULATE).expect("encapsulate");
    assert_eq!(enc_out.bytes.len(), CT_SIZE + SS_SIZE);
    let ct = &enc_out.bytes[..CT_SIZE];
    let ss_enc = &enc_out.bytes[CT_SIZE..];

    // Decapsulate
    let mut dec_input = vec![OP_DECAPSULATE];
    dec_input.extend_from_slice(dk.as_bytes().as_ref());
    dec_input.extend_from_slice(ct);

    let dec_out = mlkem768(&dec_input, GAS_DECAPSULATE).expect("decapsulate");
    assert_eq!(dec_out.bytes.len(), SS_SIZE);
    assert_eq!(&dec_out.bytes[..], ss_enc, "shared secrets must match");
}

#[test]
fn deterministic_encapsulate() {
    let (_dk, ek) = MlKem768::generate(&mut rand_core::OsRng);
    let ek_bytes = ek.as_bytes();
    let seed = [0xABu8; SEED_SIZE];

    let mut input = vec![OP_ENCAPSULATE];
    input.extend_from_slice(ek_bytes.as_ref());
    input.extend_from_slice(&seed);

    let out1 = mlkem768(&input, GAS_ENCAPSULATE).unwrap();
    let out2 = mlkem768(&input, GAS_ENCAPSULATE).unwrap();
    assert_eq!(out1.bytes, out2.bytes, "same seed must produce same output");
}

#[test]
fn invalid_length() {
    let result = mlkem768(&[OP_ENCAPSULATE, 0x00], GAS_ENCAPSULATE);
    assert!(result.is_err());
}

#[test]
fn empty_input() {
    let result = mlkem768(&[], GAS_ENCAPSULATE);
    assert!(result.is_err());
}

#[test]
fn out_of_gas() {
    let (_dk, ek) = MlKem768::generate(&mut rand_core::OsRng);
    let mut input = vec![OP_ENCAPSULATE];
    input.extend_from_slice(ek.as_bytes().as_ref());
    input.extend_from_slice(&[0u8; SEED_SIZE]);

    let result = mlkem768(&input, GAS_ENCAPSULATE - 1);
    assert!(matches!(result, Err(PrecompileError::OutOfGas)));
}

#[test]
fn sizes_gas_and_address() {
    assert_eq!((EK_SIZE, DK_SIZE, CT_SIZE, SS_SIZE, SEED_SIZE), (1184, 2400, 1088, 32, 32));
    assert_eq!((GAS_ENCAPSULATE, GAS_DECAPSULATE), (100_000, 50_000));
    assert_eq!(MLKEM_ADDRESS[..19], [0u8; 19]);
    assert_eq!(MLKEM_ADDRESS[19], 0x20);
}

#[test]
fn every_error_has_its_message() {
    let error = |input: &[u8], gas: u64| mlkem768(input, gas).unwrap_err();
    assert_eq!(error(&[], u64::MAX), PrecompileError::Other("empty input"));
    assert_eq!(error(&[], 0), PrecompileError::Other("empty input"));
    assert_eq!(error(&[2], u64::MAX), PrecompileError::Other("invalid ML-KEM operation"));
    assert_eq!(error(&[2], 0), PrecompileError::Other("invalid ML-KEM operation"));
    assert_eq!(
        error(&[0], GAS_ENCAPSULATE),
        PrecompileError::Other("invalid encapsulate input length")
    );
    assert_eq!(
        error(&[1], GAS_DECAPSULATE),
        PrecompileError::Other("invalid decapsulate input length")
    );
    // the gas limit is looked at before the length
    assert_eq!(error(&[0], GAS_ENCAPSULATE - 1), PrecompileError::OutOfGas);
    assert_eq!(error(&[1], GAS_DECAPSULATE - 1), PrecompileError::OutOfGas);
    assert_eq!(
        encapsulate_output(Err(())).unwrap_err(),
        PrecompileError::Other("encapsulate")
    );
    assert_eq!(
        decapsulate_output(Err(())).unwrap_err(),
        PrecompileError::Other("decapsulate")
    );
}

#[test]
fn lengths_off_by_one_are_refused() {
    let gas = GAS_ENCAPSULATE;
    assert!(encapsulate(&vec![0u8; EK_SIZE + SEED_SIZE - 1], gas).is_err());
    assert!(encapsulate(&vec![0u8; EK_SIZE + SEED_SIZE], gas).is_ok());
    assert!(encapsulate(&vec![0u8; EK_SIZE + SEED_SIZE + 1], gas).is_err());
    assert!(decapsulate(&vec![0u8; DK_SIZE + CT_SIZE - 1], gas).is_err());
    assert!(decapsulate(&vec![0u8; DK_SIZE + CT_SIZE], gas).is_ok());
    assert!(decapsulate(&vec![0u8; DK_SIZE + CT_SIZE + 1], gas).is_err());
}

#[test]
fn layout_of_results() {
    let out = encapsulate_output(Ok((vec![1, 2], vec![3]))).unwrap();
    assert_eq!((out.gas_used, out.bytes), (100_000, vec![1, 2, 3]));
    let out = decapsulate_output(Ok(vec![4, 5])).unwrap();
    assert_eq!((out.gas_used, out.bytes), (50_000, vec![4, 5]));
}

#[test]
fn spare_gas_changes_nothing() {
    let (_dk, ek) = MlKem768::generate(&mut rand_core::OsRng);
    let input = encapsulate_input(ek.as_bytes().as_ref(), &[7u8; SEED_SIZE]);
    let exact = mlkem768(&input, GAS_ENCAPSULATE).unwrap();
    let spare = mlkem768(&input, u64::MAX).unwrap();
    assert_eq!(exact.bytes, spare.bytes);
    assert_eq!(exact.gas_used, GAS_ENCAPSULATE);
    assert_eq!(spare.gas_used, GAS_ENCAPSULATE);
}

#[test]
fn the_seed_and_the_key_matter() {
    let (_dk, ek) = MlKem768::generate(&mut rand_core::OsRng);
    let (_dk, other) = MlKem768::generate(&mut rand_core::OsRng);
    let run = |ek: &[u8], seed: u8| {
        mlkem768(&encapsulate_input(ek, &[seed; SEED_SIZE]), GAS_ENCAPSULATE).unwrap().bytes
    };
    let first = run(ek.as_bytes().as_ref(), 1);
    assert_ne!(first, run(ek.as_bytes().as_ref(), 2));
    assert_ne!(first, run(other.as_bytes().as_ref(), 1));
}

#[test]
fn a_wrong_ciphertext_gives_another_secret() {
    let (dk, ek) = MlKem768::generate(&mut rand_core::OsRng);
    let enc =
        mlkem768(&encapsulate_input(ek.as_bytes().as_ref(), &[9u8; SEED_SIZE]), GAS_ENCAPSULATE)
            .unwrap();
    let mut data = dk.as_bytes().to_vec();
    data.extend_from_slice(&enc.bytes[..CT_SIZE]);
    data[DK_SIZE] ^= 1;
    let out = decapsulate(&data, GAS_DECAPSULATE).unwrap();
    assert_eq!(out.gas_used, GAS_DECAPSULATE);
    assert_ne!(&out.bytes[..], &enc.bytes[CT_SIZE..]);
}
