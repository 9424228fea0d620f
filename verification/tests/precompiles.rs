use std::collections::BTreeSet;

use alloy_evm::precompiles::{Precompile, PrecompileInput, PrecompilesMap};
use alloy_evm::EvmInternals;
use revm::precompile::{PrecompileError, PrecompileResult};
use revm::primitives::hardfork::SpecId;
use revm::{Context, MainContext};
use zeth::evm_factory::LAST_SPEC;
use zeth::mlkem::{GAS_ENCAPSULATE, OP_ENCAPSULATE};
use zeth::ZethEvmFactory;

fn low_addresses(map: &PrecompilesMap) -> BTreeSet<u64> {
    map.addresses()
        .map(|address| {
            let bytes = address.into_array();
            assert_eq!(bytes[..12], [0u8; 12]);
            u64::from_be_bytes(bytes[12..].try_into().unwrap())
        })
        .collect()
}

fn expected(last: u64, others: &[u64]) -> BTreeSet<u64> {
    (1..=last).chain(others.iter().copied()).chain([0x20]).collect()
}

fn call(map: &PrecompilesMap, address: u8, data: &[u8], gas: u64) -> PrecompileResult {
    let mut bytes = [0u8; 20];
    bytes[19] = address;
    let address = alloy_primitives::Address::new(bytes);
    let mut context = Context::mainnet();
    map.get(&address).unwrap().call(PrecompileInput {
        data,
        gas,
        caller: alloy_primitives::Address::ZERO,
        value: alloy_primitives::U256::ZERO,
        target_address: address,
        is_static: false,
        bytecode_address: address,
        internals: EvmInternals::from_context(&mut context),
    })
}

#[test]
fn addresses_by_hard_fork() {
    let factory = ZethEvmFactory::default();
    let addresses = |spec: u8| low_addresses(&factory.precompiles(spec).unwrap());
    for spec in 0..6 {
        assert_eq!(addresses(spec), expected(4, &[]));
    }
    for spec in 6..9 {
        assert_eq!(addresses(spec), expected(8, &[]));
    }
    for spec in 9..17 {
        assert_eq!(addresses(spec), expected(9, &[]));
    }
    assert_eq!(addresses(17), expected(10, &[]));
    assert_eq!(addresses(18), expected(17, &[]));
    assert_eq!(addresses(19), expected(17, &[0x100]));
    assert_eq!(addresses(20), expected(17, &[0x100]));
}

#[test]
fn numbers_of_hard_forks() {
    assert_eq!(SpecId::FRONTIER as u8, 0);
    assert_eq!(SpecId::BYZANTIUM as u8, 6);
    assert_eq!(SpecId::ISTANBUL as u8, 9);
    assert_eq!(SpecId::CANCUN as u8, 17);
    assert_eq!(SpecId::PRAGUE as u8, 18);
    assert_eq!(SpecId::OSAKA as u8, 19);
    assert_eq!(SpecId::AMSTERDAM as u8, LAST_SPEC);
    assert!(ZethEvmFactory::default().precompiles(LAST_SPEC + 1).is_none());
    assert!(ZethEvmFactory::default().precompiles(u8::MAX).is_none());
}

#[test]
fn mlkem_answers_at_its_address() {
    let map = ZethEvmFactory::default().precompiles(SpecId::PRAGUE as u8).unwrap();
    let mut input = vec![OP_ENCAPSULATE];
    input.extend_from_slice(&[0u8; 1184]);
    input.extend_from_slice(&[5u8; 32]);
    let direct = zeth::mlkem::mlkem768(&input, GAS_ENCAPSULATE).unwrap();
    let output = call(&map, 0x20, &input, GAS_ENCAPSULATE).unwrap();
    assert_eq!(output.gas_used, 100_000);
    assert_eq!(output.bytes.to_vec(), direct.bytes);
    assert!(!output.reverted);
    assert_eq!(
        call(&map, 0x20, &input, GAS_ENCAPSULATE - 1).unwrap_err(),
        PrecompileError::OutOfGas
    );
    assert_eq!(
        call(&map, 0x20, &[], GAS_ENCAPSULATE).unwrap_err(),
        PrecompileError::other("empty input")
    );
}

#[test]
fn standard_precompiles_still_answer() {
    let map = ZethEvmFactory::default().precompiles(SpecId::PRAGUE as u8).unwrap();
    // the identity precompile
    assert_eq!(call(&map, 4, &[1, 2, 3], 1000).unwrap().bytes.to_vec(), vec![1, 2, 3]);
}

#[test]
fn every_hard_fork_has_its_own_prices() {
    // modular exponentiation of three short numbers
    let mut input = vec![0u8; 96];
    (input[31], input[63], input[95]) = (1, 1, 1);
    input.extend_from_slice(&[3, 2, 5]);
    let cost = |spec: SpecId| {
        let map = ZethEvmFactory::default().precompiles(spec as u8).unwrap();
        call(&map, 5, &input, 1_000_000).unwrap().gas_used
    };
    assert_eq!(cost(SpecId::ISTANBUL), 0);
    assert_eq!(cost(SpecId::BERLIN), 200);
    assert_eq!(cost(SpecId::SHANGHAI), 200);
    assert_eq!(cost(SpecId::PRAGUE), 200);
    assert_eq!(cost(SpecId::OSAKA), 500);
}

#[test]
fn extend_adds_to_any_map() {
    let mut map = PrecompilesMap::from_static(revm::precompile::Precompiles::homestead());
    ZethEvmFactory::default().extend(&mut map);
    ZethEvmFactory::default().extend(&mut map);
    assert_eq!(low_addresses(&map), expected(4, &[]));
}
