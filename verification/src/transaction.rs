//! Fee-market transactions: their fields, the hash that is signed, and the
//! signed envelope.

use crate::access_list::{
    access_list_bytes, list_bytes, list_model, put_access_list, put_list, AccessItemModel,
    AccessListItem,
};
use crate::primitives::U256;
use crate::rlp::{put_bytes, put_fixed, put_u256, string_bytes, uint_bytes};
use vstd::prelude::*;

verus! {

/// The type byte that stands before a fee-market transaction.
pub const EIP1559_TX_TYPE: u8 = 2;

/// Where a transaction goes: to an account, or nowhere, to create a contract.
#[derive(Clone, Copy, Debug, PartialEq, Eq)]
pub enum TxKind {
    Create,
    Call([u8; 20]),
}

impl View for TxKind {
    type V = Option<Seq<u8>>;

    open spec fn view(&self) -> Option<Seq<u8>> {
        match self {
            TxKind::Create => None,
            TxKind::Call(address) => Some(address@),
        }
    }
}

/// An ECDSA signature over a transaction's signing hash.
#[derive(Clone, Copy, Debug, PartialEq, Eq)]
pub struct Signature {
    pub r: U256,
    pub s: U256,
    pub y_parity: bool,
}

/// A fee-market transaction, without its signature.
#[derive(Clone, Debug, PartialEq, Eq)]
pub struct TxEip1559 {
    pub chain_id: u64,
    pub nonce: u64,
    pub gas_limit: u64,
    pub max_fee_per_gas: u128,
    pub max_priority_fee_per_gas: u128,
    pub to: TxKind,
    pub value: U256,
    pub access_list: Vec<AccessListItem>,
    pub input: Vec<u8>,
}

/// A fee-market transaction as numbers and sequences.
pub ghost struct TxModel {
    pub chain_id: nat,
    pub nonce: nat,
    pub gas_limit: nat,
    pub max_fee_per_gas: nat,
    pub max_priority_fee_per_gas: nat,
    pub to: Option<Seq<u8>>,
    pub value: nat,
    pub access_list: Seq<AccessItemModel>,
    pub input: Seq<u8>,
}

impl View for TxEip1559 {
    type V = TxModel;

    open spec fn view(&self) -> TxModel {
        TxModel {
            chain_id: self.chain_id as nat,
            nonce: self.nonce as nat,
            gas_limit: self.gas_limit as nat,
            max_fee_per_gas: self.max_fee_per_gas as nat,
            max_priority_fee_per_gas: self.max_priority_fee_per_gas as nat,
            to: self.to@,
            value: self.value.value(),
            access_list: list_model(self.access_list@),
            input: self.input@,
        }
    }
}

/// The destination as a byte string: the empty string for a creation.
pub open spec fn to_bytes(to: Option<Seq<u8>>) -> Seq<u8> {
    match to {
        None => seq![0x80u8],
        Some(address) => string_bytes(address),
    }
}

/// The fields that are signed, one after another.
pub open spec fn signing_payload(tx: TxModel) -> Seq<u8> {
    uint_bytes(tx.chain_id) + uint_bytes(tx.nonce) + uint_bytes(tx.max_priority_fee_per_gas)
        + uint_bytes(tx.max_fee_per_gas) + uint_bytes(tx.gas_limit) + to_bytes(tx.to)
        + uint_bytes(tx.value) + string_bytes(tx.input) + access_list_bytes(tx.access_list)
}

/// The bytes that are hashed for signing: the type byte, then the list of the
/// signed fields.
pub open spec fn signing_bytes(tx: TxModel) -> Seq<u8> {
    seq![2u8] + list_bytes(signing_payload(tx))
}

/// The Keccak-256 digest of `input`, 32 bytes.
pub uninterp spec fn keccak256_of(input: Seq<u8>) -> Seq<u8>;

/// Calls `alloy_primitives::keccak256`. Claims that the digest depends on the
/// input bytes alone.
#[verifier::external_body]
pub(crate) fn keccak256(data: &[u8]) -> (digest: [u8; 32])
    ensures
        digest@ == keccak256_of(data@),
{
    alloy_primitives::keccak256(data).0
}

/// The hash that a signature of the transaction signs.
pub open spec fn signing_hash(tx: TxModel) -> Seq<u8> {
    keccak256_of(signing_bytes(tx))
}

impl TxEip1559 {
    /// Appends the bytes that are hashed for signing.
    pub fn encode_for_signing(&self, out: &mut Vec<u8>)
        ensures
            final(out)@ == old(out)@ + signing_bytes(self@),
    {
        let mut payload: Vec<u8> = Vec::new();
        put_u256(&mut payload, &U256::from_u64(self.chain_id));
        put_u256(&mut payload, &U256::from_u64(self.nonce));
        put_u256(&mut payload, &U256::from_u128(self.max_priority_fee_per_gas));
        put_u256(&mut payload, &U256::from_u128(self.max_fee_per_gas));
        put_u256(&mut payload, &U256::from_u64(self.gas_limit));
        match &self.to {
            TxKind::Create => payload.push(0x80u8),
            TxKind::Call(address) => put_fixed(&mut payload, address),
        }
        put_u256(&mut payload, &self.value);
        put_bytes(&mut payload, self.input.as_slice());
        put_access_list(&mut payload, &self.access_list);
        proof {
            assert(payload@ =~= signing_payload(self@));
        }
        let ghost before = out@;
        out.push(EIP1559_TX_TYPE);
        put_list(out, &payload);
        proof {
            assert(out@ =~= before + signing_bytes(self@));
        }
    }

    /// Computes the hash that a signature of the transaction signs.
    pub fn signature_hash(&self) -> (hash: [u8; 32])
        ensures
            hash@ == signing_hash(self@),
    {
        let mut buf: Vec<u8> = Vec::new();
        self.encode_for_signing(&mut buf);
        proof {
            assert(buf@ =~= signing_bytes(self@));
        }
        keccak256(buf.as_slice())
    }
}

/// A transaction with a signature and the hash that goes with them.
#[derive(Clone, Debug, PartialEq, Eq)]
pub struct Signed<T> {
    pub tx: T,
    pub signature: Signature,
    pub hash: [u8; 32],
}

impl<T> Signed<T> {
    /// Puts the three together, without checking the signature.
    pub fn new_unchecked(tx: T, signature: Signature, hash: [u8; 32]) -> (r: Self)
        ensures
            r.tx == tx,
            r.signature == signature,
            r.hash == hash,
    {
        Signed { tx, signature, hash }
    }
}

/// A signed transaction, tagged with its kind.
#[derive(Clone, Debug, PartialEq, Eq)]
pub enum TxEnvelope {
    Eip1559(Signed<TxEip1559>),
}

/// A signed fee-market transaction as numbers and sequences.
pub ghost struct EnvelopeModel {
    pub tx: TxModel,
    pub signature: Signature,
    pub hash: Seq<u8>,
}

impl View for TxEnvelope {
    type V = EnvelopeModel;

    open spec fn view(&self) -> EnvelopeModel {
        match self {
            TxEnvelope::Eip1559(signed) => EnvelopeModel {
                tx: signed.tx@,
                signature: signed.signature,
                hash: signed.hash@,
            },
        }
    }
}

/// Why the data of a span batch could not be read.
#[derive(Clone, Copy, Debug, PartialEq, Eq)]
pub enum SpanDecodingError {
    /// A transaction's fields do not make a transaction.
    InvalidTransactionData,
}

/// What can go wrong with a span batch.
#[derive(Clone, Copy, Debug, PartialEq, Eq)]
pub enum SpanBatchError {
    /// Its data could not be read.
    Decoding(SpanDecodingError),
}

} // verus!
