//! Recovery of the signers of transactions.

use vstd::prelude::*;

use crate::primitives::B256;
use crate::text::{decimal, number_string};

verus! {

/// A secp256k1 signature.
#[derive(Clone, Copy, Debug, PartialEq, Eq)]
pub struct Signature {
    pub r: B256,
    pub s: B256,
    pub odd_y_parity: bool,
}

/// A signed transaction, as the network encodes it: a list for a legacy transaction, else a
/// string with the transaction type and the fields.
#[derive(Debug)]
pub struct TransactionSigned {
    pub rlp: Vec<u8>,
}

/// A public key: the byte 4, and both coordinates.
#[derive(Clone, Copy, Debug, PartialEq, Eq)]
pub struct UncompressedPublicKey(pub [u8; 65]);

/// `alloy_primitives::SignatureError`, the reason for which a recovery failed.
#[verifier::external_type_specification]
#[verifier::external_body]
pub struct ExSignatureError(alloy_primitives::SignatureError);

/// Why a signer could not be recovered.
#[derive(Debug)]
pub enum SignerError {
    /// The bytes are not the encoding of a signed transaction.
    Decode(alloy_rlp::Error),
    /// The signature does not belong to any public key.
    Signature(alloy_primitives::SignatureError),
}

/// The failure to recover the signer of one of several transactions.
#[derive(Debug)]
pub struct RecoverError {
    /// The position of the transaction.
    pub index: usize,
    pub cause: SignerError,
}

impl RecoverError {
    /// The failure in words.
    pub fn message(&self) -> (r: String)
        ensures
            r@ == "failed to recover signature for tx #"@ + decimal(self.index as nat),
    {
        let mut text = String::from_str("failed to recover signature for tx #");
        let number = number_string(self.index);
        text.append(number.as_str());
        text
    }
}

/// The signature of an encoded transaction and the digest that was signed, or nothing for bytes
/// that are not the encoding of a transaction.
pub uninterp spec fn decoded_transaction(rlp: Seq<u8>) -> Option<(Signature, B256)>;

/// The public key that a signature of a digest belongs to, or nothing where there is none.
pub uninterp spec fn recovered_key(signature: Signature, digest: B256) -> Option<
    UncompressedPublicKey,
>;

/// Calls `alloy_rlp::decode_exact` for an `alloy_consensus::EthereumTxEnvelope`, and takes its
/// `signature` and its `signature_hash`. All are functions of the bytes alone.
#[verifier::external_body]
fn decode_transaction(rlp: &[u8]) -> (r: Result<(Signature, B256), alloy_rlp::Error>)
    ensures
        match r {
            Ok(parts) => decoded_transaction(rlp@) == Some(parts),
            Err(_) => decoded_transaction(rlp@) is None,
        },
{
    let tx: alloy_consensus::EthereumTxEnvelope<alloy_consensus::TxEip4844> =
        alloy_rlp::decode_exact(rlp)?;
    let signature = Signature {
        r: tx.signature().r().to_be_bytes(),
        s: tx.signature().s().to_be_bytes(),
        odd_y_parity: tx.signature().v(),
    };
    Ok((signature, tx.signature_hash().0))
}

/// Calls `alloy_primitives::Signature::recover_from_prehash`, and encodes the key with
/// `to_encoded_point(false)`, which takes 65 bytes of which the first is 4, the key not being the
/// point at infinity. The result is a function of the arguments.
#[verifier::external_body]
fn recover_key(signature: &Signature, digest: &B256) -> (r: Result<
    UncompressedPublicKey,
    alloy_primitives::SignatureError,
>)
    ensures
        match r {
            Ok(key) => recovered_key(*signature, *digest) == Some(key) && key.0@[0] == 4,
            Err(_) => recovered_key(*signature, *digest) is None,
        },
{
    let signature = alloy_primitives::Signature::from_scalars_and_parity(
        alloy_primitives::B256::new(signature.r),
        alloy_primitives::B256::new(signature.s),
        signature.odd_y_parity,
    );
    let key = signature.recover_from_prehash(&alloy_primitives::B256::new(*digest))?;
    Ok(UncompressedPublicKey(key.to_encoded_point(false).as_bytes().try_into().unwrap()))
}

/// The signer of an encoded transaction, or nothing where it has none.
pub open spec fn signer_of(rlp: Seq<u8>) -> Option<UncompressedPublicKey> {
    match decoded_transaction(rlp) {
        Some((signature, digest)) => recovered_key(signature, digest),
        None => None,
    }
}

/// Recovers the signer of a transaction.
pub fn recover_signer(tx: &TransactionSigned) -> (r: Result<UncompressedPublicKey, SignerError>)
    ensures
        match r {
            Ok(key) => {
                &&& signer_of(tx.rlp@) == Some(key)
                &&& key.0@[0] == 4
                &&& decoded_transaction(tx.rlp@) matches Some((signature, digest))
                &&& recovered_key(signature, digest) == Some(key)
            },
            Err(SignerError::Decode(_)) => decoded_transaction(tx.rlp@) is None,
            Err(SignerError::Signature(_)) => {
                &&& decoded_transaction(tx.rlp@) matches Some((signature, digest))
                &&& recovered_key(signature, digest) is None
            },
        },
{
    match decode_transaction(tx.rlp.as_slice()) {
        Err(error) => Err(SignerError::Decode(error)),
        Ok((signature, digest)) => match recover_key(&signature, &digest) {
            Err(error) => Err(SignerError::Signature(error)),
            Ok(key) => Ok(key),
        },
    }
}

/// Adds the signer of the next transaction to those recovered so far. The failure names the
/// position of the transaction.
pub fn add_signer(
    signers: &mut Vec<UncompressedPublicKey>,
    recovered: Result<UncompressedPublicKey, SignerError>,
) -> (r: Result<(), RecoverError>)
    ensures
        match recovered {
            Ok(key) => r is Ok && final(signers)@ == old(signers)@.push(key),
            Err(cause) => final(signers)@ == old(signers)@ && r == Err::<(), RecoverError>(
                RecoverError { index: old(signers)@.len() as usize, cause },
            ),
        },
{
    match recovered {
        Ok(key) => {
            signers.push(key);
            Ok(())
        },
        Err(cause) => Err(RecoverError { index: signers.len(), cause }),
    }
}

/// The signers of all transactions.
pub open spec fn all_signed_by(
    txs: Seq<TransactionSigned>,
    signers: Seq<UncompressedPublicKey>,
) -> bool {
    &&& signers.len() == txs.len()
    &&& forall|i: int| 0 <= i < txs.len() ==> signer_of((#[trigger] txs[i]).rlp@) == Some(signers[i])
}

/// Every key begins with the byte of an uncompressed one.
pub open spec fn all_uncompressed(signers: Seq<UncompressedPublicKey>) -> bool {
    forall|i: int| 0 <= i < signers.len() ==> (#[trigger] signers[i]).0@[0] == 4
}

/// The first transaction without a signer.
pub open spec fn first_unsigned(txs: Seq<TransactionSigned>, index: int) -> bool {
    &&& 0 <= index < txs.len()
    &&& signer_of(txs[index].rlp@) is None
    &&& forall|i: int| 0 <= i < index ==> signer_of((#[trigger] txs[i]).rlp@) is Some
}

/// The failure is that of the first transaction that has no signer.
pub open spec fn recovery_fails(txs: Seq<TransactionSigned>, error: RecoverError) -> bool {
    &&& first_unsigned(txs, error.index as int)
    &&& error.cause is Decode <==> decoded_transaction(txs[error.index as int].rlp@) is None
}

/// Recovers the signing public key from each transaction's signature. The failure is that of the
/// first transaction that has no signer.
pub fn recover_signers(txs: &[TransactionSigned]) -> (r: Result<
    Vec<UncompressedPublicKey>,
    RecoverError,
>)
    ensures
        match r {
            Ok(signers) => {
                &&& all_signed_by(txs@, signers@)
                &&& all_uncompressed(signers@)
                &&& signers@.len() == txs@.len()
                &&& forall|i: int|
                    0 <= i < txs@.len() ==> {
                        &&& decoded_transaction((#[trigger] txs@[i]).rlp@) matches Some(
                            (signature, digest),
                        )
                        &&& recovered_key(signature, digest) == Some(signers@[i])
                        &&& signers@[i].0@[0] == 4
                    }
            },
            Err(error) => {
                &&& recovery_fails(txs@, error)
                &&& error.index < txs@.len()
                &&& decoded_transaction(txs@[error.index as int].rlp@) matches Some(
                    (signature, digest),
                ) ==> recovered_key(signature, digest) is None
            },
        },
{
    let mut signers: Vec<UncompressedPublicKey> = Vec::new();
    let mut i: usize = 0;
    while i < txs.len()
        invariant
            i <= txs.len(),
            signers@.len() == i,
            forall|j: int|
                0 <= j < i ==> signer_of((#[trigger] txs@[j]).rlp@) == Some(signers@[j]),
            forall|j: int| 0 <= j < i ==> (#[trigger] signers@[j]).0@[0] == 4,
        decreases txs.len() - i,
    {
        let recovered = recover_signer(&txs[i]);
        match add_signer(&mut signers, recovered) {
            Ok(()) => {},
            Err(error) => {
                return Err(error);
            },
        }
        i += 1;
    }
    Ok(signers)
}

/// Each signer is the key that the very signature of its transaction belongs to, over the digest
/// that the transaction was signed with.
pub proof fn law_signers_signed(
    txs: Seq<TransactionSigned>,
    signers: Seq<UncompressedPublicKey>,
    i: int,
)
    requires
        all_signed_by(txs, signers),
        0 <= i < txs.len(),
    ensures
        signers.len() == txs.len(),
        decoded_transaction(txs[i].rlp@) matches Some((signature, digest)) && recovered_key(
            signature,
            digest,
        ) == Some(signers[i]),
{
    assert(signer_of(txs[i].rlp@) == Some(signers[i]));
}

/// A failure is that of a transaction that cannot be decoded or whose signature belongs to no key,
/// and every transaction before it has a signer.
pub proof fn law_failure_is_the_first(txs: Seq<TransactionSigned>, error: RecoverError, i: int)
    requires
        recovery_fails(txs, error),
    ensures
        error.index < txs.len(),
        match error.cause {
            SignerError::Decode(_) => decoded_transaction(txs[error.index as int].rlp@) is None,
            SignerError::Signature(_) => {
                &&& decoded_transaction(txs[error.index as int].rlp@) matches Some(
                    (signature, digest),
                )
                &&& recovered_key(signature, digest) is None
            },
        },
        0 <= i < error.index ==> {
            &&& decoded_transaction(txs[i].rlp@) matches Some((signature, digest))
            &&& recovered_key(signature, digest) is Some
        },
{
    if 0 <= i < error.index {
        assert(signer_of(txs[i].rlp@) is Some);
    }
}

/// Where every transaction can be decoded and has a signature that belongs to a key, the recovery
/// does not fail.
pub proof fn law_signed_blocks_succeed(txs: Seq<TransactionSigned>, error: RecoverError)
    requires
        forall|i: int|
            0 <= i < txs.len() ==> {
                &&& decoded_transaction((#[trigger] txs[i]).rlp@) matches Some((signature, digest))
                &&& recovered_key(signature, digest) is Some
            },
    ensures
        !recovery_fails(txs, error),
{
    if recovery_fails(txs, error) {
        assert(decoded_transaction(txs[error.index as int].rlp@) is Some);
    }
}

/// Whether all signers can be recovered depends on the transactions alone: two outcomes never
/// differ, be it the signers or the first transaction without one.
pub proof fn law_recovery_is_determined(
    txs: Seq<TransactionSigned>,
    a: Seq<UncompressedPublicKey>,
    b: Seq<UncompressedPublicKey>,
    i: int,
    j: int,
)
    ensures
        all_signed_by(txs, a) && all_signed_by(txs, b) ==> a == b,
        first_unsigned(txs, i) && first_unsigned(txs, j) ==> i == j,
        !(all_signed_by(txs, a) && first_unsigned(txs, i)),
{
    if all_signed_by(txs, a) && all_signed_by(txs, b) {
        assert forall|k: int| 0 <= k < txs.len() implies a[k] == b[k] by {
            assert(signer_of(txs[k].rlp@) == Some(a[k]));
        }
        assert(a =~= b);
    }
}

} // verus!
