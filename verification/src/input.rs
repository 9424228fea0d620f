//! The input of a stateless validation.

use vstd::prelude::*;

use crate::primitives::{keccak256, keccak256_digest, B256};
use crate::signers::{
    all_signed_by, all_uncompressed, decoded_transaction, law_signers_signed, recover_signers,
    recovered_key, recovery_fails, RecoverError, TransactionSigned, UncompressedPublicKey,
};
use crate::sparse_state::ExecutionWitness;

verus! {

/// A block, as far as its validation is prepared here.
#[derive(Debug)]
pub struct Block {
    /// The block number.
    pub number: u64,
    /// The RLP encoding of the header.
    pub header: Vec<u8>,
    pub transactions: Vec<TransactionSigned>,
}

impl Block {
    /// The block hash: the digest of the encoded header.
    pub open spec fn spec_hash(&self) -> B256 {
        keccak256_digest(self.header@)
    }

    /// Computes the block hash.
    pub fn hash_slow(&self) -> (r: B256)
        ensures
            r == self.spec_hash(),
            r == keccak256_digest(self.header@),
    {
        keccak256(self.header.as_slice())
    }
}

/// The input needed for the stateless validation function.
#[derive(Debug)]
pub struct Input {
    /// The block being executed in the stateless validation function.
    pub block: Block,
    /// List of signing public keys for each transaction in the block.
    pub signers: Vec<UncompressedPublicKey>,
    /// `ExecutionWitness` for the stateless validation function.
    pub witness: ExecutionWitness,
}

/// An input in the format that did not have the signers.
#[derive(Debug)]
pub struct InputV1 {
    pub block: Block,
    pub witness: ExecutionWitness,
}

impl InputV1 {
    /// Adds the signers.
    pub fn upgrade(self) -> (r: Result<Input, RecoverError>)
        ensures
            match r {
                Ok(input) => {
                    &&& input.block == self.block
                    &&& all_signed_by(self.block.transactions@, input.signers@)
                    &&& all_uncompressed(input.signers@)
                    &&& input.signers@.len() == self.block.transactions@.len()
                    &&& forall|i: int|
                        0 <= i < self.block.transactions@.len() ==> {
                            &&& decoded_transaction(
                                (#[trigger] self.block.transactions@[i]).rlp@,
                            ) matches Some((signature, digest))
                            &&& recovered_key(signature, digest) == Some(input.signers@[i])
                        }
                    &&& input.witness == self.witness
                },
                Err(error) => recovery_fails(self.block.transactions@, error),
            },
    {
        match recover_signers(self.block.transactions.as_slice()) {
            Ok(signers) => Ok(Input { block: self.block, signers, witness: self.witness }),
            Err(error) => Err(error),
        }
    }
}

/// The input for a block: the block, all its signers, and the witness without the preimages of the
/// trie keys. The hash is that of the block.
pub open spec fn is_created(
    block: Block,
    witness: ExecutionWitness,
    input: Input,
    block_hash: B256,
) -> bool {
    &&& block_hash == block.spec_hash()
    &&& input.block == block
    &&& all_signed_by(block.transactions@, input.signers@)
    &&& all_uncompressed(input.signers@)
    &&& input.witness.state == witness.state
    &&& input.witness.codes == witness.codes
    &&& input.witness.keys@ == Seq::<Vec<u8>>::empty()
    &&& input.witness.headers == witness.headers
}

/// Creates the input from a block and the witness of its execution, and returns it with the block
/// hash. The preimages of the trie keys are left out: they are not used.
pub fn create_input(block: Block, witness: ExecutionWitness) -> (r: Result<
    (Input, B256),
    RecoverError,
>)
    ensures
        match r {
            Ok((input, block_hash)) => {
                &&& is_created(block, witness, input, block_hash)
                &&& block_hash == keccak256_digest(block.header@)
                &&& input.block == block
                &&& input.signers@.len() == block.transactions@.len()
                &&& forall|i: int|
                    0 <= i < block.transactions@.len() ==> {
                        &&& decoded_transaction((#[trigger] block.transactions@[i]).rlp@) matches Some(
                            (signature, digest),
                        )
                        &&& recovered_key(signature, digest) == Some(input.signers@[i])
                    }
                &&& input.witness.state@ == witness.state@
                &&& input.witness.codes@ == witness.codes@
                &&& input.witness.keys@.len() == 0
                &&& input.witness.headers@ == witness.headers@
            },
            Err(error) => recovery_fails(block.transactions@, error),
        },
{
    let block_hash = block.hash_slow();
    match recover_signers(block.transactions.as_slice()) {
        Ok(signers) => {
            let witness = ExecutionWitness {
                state: witness.state,
                codes: witness.codes,
                keys: Vec::new(),
                headers: witness.headers,
            };
            Ok((Input { block, signers, witness }, block_hash))
        },
        Err(error) => Err(error),
    }
}


/// A created input holds the whole block, the key that signed each transaction, and every trie node,
/// code and header of the witness, in order; the preimages of the trie keys are gone. The hash is
/// the digest of the encoded header.
pub proof fn law_created_input_is_complete(
    block: Block,
    witness: ExecutionWitness,
    input: Input,
    block_hash: B256,
    i: int,
)
    requires
        is_created(block, witness, input, block_hash),
        0 <= i < block.transactions@.len(),
    ensures
        block_hash == keccak256_digest(block.header@),
        input.block.number == block.number,
        input.block.header@ == block.header@,
        input.block.transactions@ == block.transactions@,
        input.signers@.len() == block.transactions@.len(),
        decoded_transaction(block.transactions@[i].rlp@) matches Some((signature, digest))
            && recovered_key(signature, digest) == Some(input.signers@[i]),
        input.signers@[i].0@[0] == 4,
        input.witness.state@ == witness.state@,
        input.witness.codes@ == witness.codes@,
        input.witness.keys@.len() == 0,
        input.witness.headers@ == witness.headers@,
{
    law_signers_signed(block.transactions@, input.signers@, i);
}

/// An input is created from a witness as it is given: without any condition on the transactions, no
/// trie node, code or header is lost, added or changed.
pub proof fn law_created_witness_is_kept(
    block: Block,
    witness: ExecutionWitness,
    input: Input,
    block_hash: B256,
)
    requires
        is_created(block, witness, input, block_hash),
    ensures
        block_hash == keccak256_digest(block.header@),
        input.block == block,
        input.signers@.len() == block.transactions@.len(),
        input.witness.state@ == witness.state@,
        input.witness.codes@ == witness.codes@,
        input.witness.keys@.len() == 0,
        input.witness.headers@ == witness.headers@,
{
}

} // verus!
