# zeth

Stateless validation of Ethereum blocks, with an ML-KEM-768 precompile at address `0x20`.

`src/` is the verified library. It decides; the tries, the EVM, the RPC provider, the filesystem
and the prover are the caller's:

- `mlkem`, `evm_factory`: the precompile, and the precompiles of an EVM that has it
- `sparse_state`, `bytecode`, `state_root`: reading the sparse state, and the computation of a new
  state root as a series of trie operations
- `replay`, `ordering`: what these operations do to the tries, and in which order they come
- `signers`, `input`: recovery of transaction signers, and the input of a validation
- `chain`, `processor`, `validate`, `zkvm`: chains, guest programs, proofs and validation
- `cache`, `fetch`: the cache of inputs, and getting an input from it or from the provider
- `primitives`, `rlp`, `tables`, `text`: values, encodings, hash tables and names

`app/` performs what the library asks for. `tests/` runs the library with the real crates around
it.
