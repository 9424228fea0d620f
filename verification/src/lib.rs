//! Stateless validation of Ethereum blocks: the decisions that surround the trie, the prover and
//! the RPC provider.

pub mod bytecode;
pub mod cache;
pub mod chain;
pub mod evm_factory;
pub mod fetch;
pub mod guarantees;
pub mod input;
pub mod mlkem;
pub mod ordering;
pub mod primitives;
pub mod processor;
pub mod replay;
pub mod rlp;
pub mod signers;
pub mod sparse_state;
pub mod state_root;
pub mod tables;
pub mod text;
pub mod validate;
pub mod zkvm;

pub use evm_factory::ZethEvmFactory;
pub use input::Input;
pub use processor::BlockProcessor;
pub use signers::{recover_signers, UncompressedPublicKey};
pub use sparse_state::ExecutionWitness;
pub use validate::validate_block;
pub use zkvm::to_zkvm_input_bytes;
