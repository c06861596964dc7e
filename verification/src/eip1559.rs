//! The per-transaction record that a span batch keeps for a fee-market
//! transaction, its byte form, and the transaction rebuilt from it.

use crate::access_list::{
    access_list_bytes, access_list_decoding, copy_access_list, items_payload, items_well_formed,
    lemma_access_list_read_back, lemma_list_model_well_formed, list_bytes, list_model,
    put_access_list, put_list, take_access_list, AccessItemModel, AccessListItem,
};
use crate::primitives::{pow2_128, U256};
use crate::rlp::{
    bytes_decoding, header_bytes, header_decoding, lemma_bytes_read_back,
    lemma_cut_list_is_rejected, lemma_header_decoding_bounds, lemma_header_reads_back,
    lemma_u256_below_pow256, long_header_decoding, lemma_u256_read_back, pow256, put_bytes,
    put_u256, string_bytes, take_bytes, take_header, take_u256, u256_decoding, uint_bytes,
    RlpError,
};
use crate::transaction::{
    signing_hash, EnvelopeModel, Signature, Signed, SpanBatchError, SpanDecodingError, TxEip1559,
    TxEnvelope, TxKind, TxModel,
};
use vstd::prelude::*;

verus! {

/// The transaction data for an EIP-1559 transaction within a span batch.
#[derive(Clone, Debug, PartialEq, Eq)]
pub struct SpanBatchEip1559TransactionData {
    /// The ETH value of the transaction.
    pub value: U256,
    /// Maximum fee per gas.
    pub max_fee_per_gas: U256,
    /// Maximum priority fee per gas.
    pub max_priority_fee_per_gas: U256,
    /// Transaction calldata.
    pub data: Vec<u8>,
    /// Access list, used to pre-warm storage slots through static declaration.
    pub access_list: Vec<AccessListItem>,
}

/// A record as numbers and sequences.
pub ghost struct RecordModel {
    pub value: nat,
    pub max_fee_per_gas: nat,
    pub max_priority_fee_per_gas: nat,
    pub data: Seq<u8>,
    pub access_list: Seq<AccessItemModel>,
}

impl View for SpanBatchEip1559TransactionData {
    type V = RecordModel;

    open spec fn view(&self) -> RecordModel {
        RecordModel {
            value: self.value.value(),
            max_fee_per_gas: self.max_fee_per_gas.value(),
            max_priority_fee_per_gas: self.max_priority_fee_per_gas.value(),
            data: self.data@,
            access_list: list_model(self.access_list@),
        }
    }
}

/// The message of the error for a header that is not a list's.
pub open spec fn expected_list_message() -> &'static str {
    "Expected list data for EIP-1559 transaction"
}

/// The message of the error for fields that do not fill the declared payload
/// exactly, and for bytes after the record.
pub open spec fn invalid_length_message() -> &'static str {
    "Invalid EIP-1559 transaction RLP"
}

/// The fields of a record in their fixed order: value, maximum fee, maximum
/// priority fee, calldata, access list.
pub open spec fn record_payload(r: RecordModel) -> Seq<u8> {
    uint_bytes(r.value) + uint_bytes(r.max_fee_per_gas) + uint_bytes(r.max_priority_fee_per_gas)
        + string_bytes(r.data) + access_list_bytes(r.access_list)
}

/// The byte form of a record: a list header with the exact length of the
/// fields, then the fields.
pub open spec fn record_bytes(r: RecordModel) -> Seq<u8> {
    list_bytes(record_payload(r))
}

/// Reading the five fields from the front of `body`: the record and the bytes
/// after the last field.
pub open spec fn fields_decoding(body: Seq<u8>) -> Result<(RecordModel, Seq<u8>), RlpError> {
    match u256_decoding(body) {
        Err(e) => Err(e),
        Ok((value, s1)) => match u256_decoding(s1) {
            Err(e) => Err(e),
            Ok((max_fee_per_gas, s2)) => match u256_decoding(s2) {
                Err(e) => Err(e),
                Ok((max_priority_fee_per_gas, s3)) => match bytes_decoding(s3) {
                    Err(e) => Err(e),
                    Ok((data, s4)) => match access_list_decoding(s4) {
                        Err(e) => Err(e),
                        Ok((access_list, rest)) => Ok(
                            (
                                RecordModel {
                                    value,
                                    max_fee_per_gas,
                                    max_priority_fee_per_gas,
                                    data,
                                    access_list,
                                },
                                rest,
                            ),
                        ),
                    },
                },
            },
        },
    }
}

/// Reading a record from the front of `input`: the header must be a list's,
/// and the fields must take exactly the payload length that it declares. Gives
/// the record and the bytes after it.
pub open spec fn record_decoding(input: Seq<u8>) -> Result<(RecordModel, Seq<u8>), RlpError> {
    match header_decoding(input) {
        Err(e) => Err(e),
        Ok((list, len, body)) => if !list {
            Err(RlpError::Custom(expected_list_message()))
        } else {
            match fields_decoding(body) {
                Err(e) => Err(e),
                Ok((record, rest)) => if rest.len() + len == body.len() {
                    Ok((record, rest))
                } else {
                    Err(RlpError::Custom(invalid_length_message()))
                },
            }
        },
    }
}

/// Reading a record from the whole of `input`: as `record_decoding`, and no
/// byte may follow the record.
pub open spec fn strict_decoding(input: Seq<u8>) -> Result<RecordModel, RlpError> {
    match record_decoding(input) {
        Err(e) => Err(e),
        Ok((record, rest)) => if rest.len() == 0 {
            Ok(record)
        } else {
            Err(RlpError::Custom(invalid_length_message()))
        },
    }
}

/// Whether both fees of a record fit the 128 bits that a transaction has for
/// them.
pub open spec fn fees_fit(r: RecordModel) -> bool {
    r.max_fee_per_gas < pow2_128() && r.max_priority_fee_per_gas < pow2_128()
}

/// The transaction that a record and the batch's shared fields make.
pub open spec fn rebuilt_tx(
    r: RecordModel,
    nonce: u64,
    gas: u64,
    to: Option<[u8; 20]>,
    chain_id: u64,
) -> TxModel {
    TxModel {
        chain_id: chain_id as nat,
        nonce: nonce as nat,
        gas_limit: gas as nat,
        max_fee_per_gas: r.max_fee_per_gas,
        max_priority_fee_per_gas: r.max_priority_fee_per_gas,
        to: match to {
            Some(address) => Some(address@),
            None => None,
        },
        value: r.value,
        access_list: r.access_list,
        input: r.data,
    }
}

/// The signed envelope that a record, the shared fields and a signature make:
/// the rebuilt transaction, the signature as given, and the transaction's
/// signing hash.
pub open spec fn rebuilt_envelope(
    r: RecordModel,
    nonce: u64,
    gas: u64,
    to: Option<[u8; 20]>,
    chain_id: u64,
    signature: Signature,
) -> EnvelopeModel {
    EnvelopeModel {
        tx: rebuilt_tx(r, nonce, gas, to, chain_id),
        signature,
        hash: signing_hash(rebuilt_tx(r, nonce, gas, to, chain_id)),
    }
}

/// Whether `out` is what reconstruction owes for a record and the shared
/// fields: the rebuilt envelope where both fees fit, the error for invalid
/// transaction data where one does not.
pub open spec fn is_reconstruction(
    r: RecordModel,
    nonce: u64,
    gas: u64,
    to: Option<[u8; 20]>,
    chain_id: u64,
    signature: Signature,
    out: Result<TxEnvelope, SpanBatchError>,
) -> bool {
    if fees_fit(r) {
        out is Ok && out->Ok_0@ == rebuilt_envelope(r, nonce, gas, to, chain_id, signature)
    } else {
        out == Err::<TxEnvelope, SpanBatchError>(
            SpanBatchError::Decoding(SpanDecodingError::InvalidTransactionData),
        )
    }
}

impl SpanBatchEip1559TransactionData {
    /// Converts the record into a signed envelope, with the fields that the
    /// batch shares among its transactions. A fee that does not fit 128 bits
    /// is refused, never cut down.
    pub fn to_enveloped_tx(
        &self,
        nonce: u64,
        gas: u64,
        to: Option<[u8; 20]>,
        chain_id: u64,
        signature: Signature,
    ) -> (r: Result<TxEnvelope, SpanBatchError>)
        ensures
            is_reconstruction(self@, nonce, gas, to, chain_id, signature, r),
    {
        let max_fee_per_gas: u128 = match self.max_fee_per_gas.to_u128() {
            Some(fee) => fee,
            None => {
                return Err(SpanBatchError::Decoding(SpanDecodingError::InvalidTransactionData));
            },
        };
        let max_priority_fee_per_gas: u128 = match self.max_priority_fee_per_gas.to_u128() {
            Some(fee) => fee,
            None => {
                return Err(SpanBatchError::Decoding(SpanDecodingError::InvalidTransactionData));
            },
        };
        let input = self.data.clone();
        proof {
            assert(input@ =~= self.data@);
        }
        let eip1559_tx = TxEip1559 {
            chain_id,
            nonce,
            max_fee_per_gas,
            max_priority_fee_per_gas,
            gas_limit: gas,
            to: match to {
                Some(address) => TxKind::Call(address),
                None => TxKind::Create,
            },
            value: self.value,
            input,
            access_list: copy_access_list(&self.access_list),
        };
        let signature_hash = eip1559_tx.signature_hash();
        let signed_eip1559_tx = Signed::new_unchecked(eip1559_tx, signature, signature_hash);
        Ok(TxEnvelope::Eip1559(signed_eip1559_tx))
    }

    /// Appends the byte form of the record.
    pub fn encode(&self, out: &mut Vec<u8>)
        ensures
            final(out)@ == old(out)@ + record_bytes(self@),
    {
        let mut payload: Vec<u8> = Vec::new();
        put_u256(&mut payload, &self.value);
        put_u256(&mut payload, &self.max_fee_per_gas);
        put_u256(&mut payload, &self.max_priority_fee_per_gas);
        put_bytes(&mut payload, self.data.as_slice());
        put_access_list(&mut payload, &self.access_list);
        proof {
            assert(payload@ =~= record_payload(self@));
        }
        put_list(out, &payload);
    }

    /// Reads a record from the front of `buf` and hands back the bytes after
    /// it.
    pub fn decode_prefix<'a>(buf: &'a [u8]) -> (r: Result<(Self, &'a [u8]), RlpError>)
        ensures
            match r {
                Ok((record, rest)) => record_decoding(buf@) == Ok::<
                    (RecordModel, Seq<u8>),
                    RlpError,
                >((record@, rest@)),
                Err(e) => record_decoding(buf@) == Err::<(RecordModel, Seq<u8>), RlpError>(e),
            },
    {
        let (list, payload_length, body) = match take_header(buf) {
            Ok(h) => h,
            Err(e) => { return Err(e); },
        };
        if !list {
            return Err(RlpError::Custom("Expected list data for EIP-1559 transaction"));
        }
        proof {
            lemma_header_decoding_bounds(buf@);
        }
        let buf_len_start: usize = body.len();
        let (value, s1) = match take_u256(body) {
            Ok(v) => v,
            Err(e) => { return Err(e); },
        };
        let (max_fee_per_gas, s2) = match take_u256(s1) {
            Ok(v) => v,
            Err(e) => { return Err(e); },
        };
        let (max_priority_fee_per_gas, s3) = match take_u256(s2) {
            Ok(v) => v,
            Err(e) => { return Err(e); },
        };
        let (data, s4) = match take_bytes(s3) {
            Ok(v) => v,
            Err(e) => { return Err(e); },
        };
        let (access_list, rest) = match take_access_list(s4) {
            Ok(v) => v,
            Err(e) => { return Err(e); },
        };
        if rest.len() != buf_len_start - payload_length {
            return Err(RlpError::Custom("Invalid EIP-1559 transaction RLP"));
        }
        Ok(
            (
                SpanBatchEip1559TransactionData {
                    value,
                    max_fee_per_gas,
                    max_priority_fee_per_gas,
                    data,
                    access_list,
                },
                rest,
            ),
        )
    }

    /// Reads a record from the whole of `buf`: bytes after the record are an
    /// error, as are missing ones.
    pub fn decode(buf: &[u8]) -> (r: Result<Self, RlpError>)
        ensures
            match r {
                Ok(record) => strict_decoding(buf@) == Ok::<RecordModel, RlpError>(record@),
                Err(e) => strict_decoding(buf@) == Err::<RecordModel, RlpError>(e),
            },
    {
        match Self::decode_prefix(buf) {
            Err(e) => Err(e),
            Ok((record, rest)) => if rest.len() == 0 {
                Ok(record)
            } else {
                Err(RlpError::Custom("Invalid EIP-1559 transaction RLP"))
            },
        }
    }
}

/// Reconstruction has no hidden input: two outcomes for records with the same
/// fields, the same shared fields and the same signature agree in success, in
/// the envelope, and so in the signing hash, and in the error.
pub proof fn lemma_reconstruction_is_deterministic(
    a: SpanBatchEip1559TransactionData,
    b: SpanBatchEip1559TransactionData,
    nonce: u64,
    gas: u64,
    to: Option<[u8; 20]>,
    chain_id: u64,
    signature: Signature,
    out_a: Result<TxEnvelope, SpanBatchError>,
    out_b: Result<TxEnvelope, SpanBatchError>,
)
    requires
        a@ == b@,
        is_reconstruction(a@, nonce, gas, to, chain_id, signature, out_a),
        is_reconstruction(b@, nonce, gas, to, chain_id, signature, out_b),
    ensures
        out_a is Ok <==> out_b is Ok,
        out_a is Ok ==> out_a->Ok_0@ == out_b->Ok_0@,
        out_a is Ok ==> out_a->Ok_0@.hash == out_b->Ok_0@.hash,
        out_a is Err ==> out_a == out_b,
{
}

/// The fee boundary: reconstruction succeeds with both fees at the largest
/// 128-bit number, and fails with the error for invalid transaction data as
/// soon as one fee is a single unit above it.
pub proof fn lemma_fee_boundary(
    r: RecordModel,
    nonce: u64,
    gas: u64,
    to: Option<[u8; 20]>,
    chain_id: u64,
    signature: Signature,
    out: Result<TxEnvelope, SpanBatchError>,
)
    requires
        is_reconstruction(r, nonce, gas, to, chain_id, signature, out),
    ensures
        r.max_fee_per_gas == pow2_128() - 1 && r.max_priority_fee_per_gas == pow2_128() - 1
            ==> out is Ok,
        r.max_fee_per_gas == pow2_128() || r.max_priority_fee_per_gas == pow2_128() ==> out
            == Err::<TxEnvelope, SpanBatchError>(
            SpanBatchError::Decoding(SpanDecodingError::InvalidTransactionData),
        ),
        out is Ok ==> out->Ok_0@.tx.max_fee_per_gas == r.max_fee_per_gas
            && out->Ok_0@.tx.max_priority_fee_per_gas == r.max_priority_fee_per_gas,
{
}

/// A header that is not a list's is always an error, for the strict reader
/// and for the one that reads a prefix.
pub proof fn lemma_scalar_header_is_rejected(input: Seq<u8>)
    ensures
        header_decoding(input) is Ok && !header_decoding(input)->Ok_0.0 ==> record_decoding(input)
            == Err::<(RecordModel, Seq<u8>), RlpError>(
            RlpError::Custom(expected_list_message()),
        ) && strict_decoding(input) == Err::<RecordModel, RlpError>(
            RlpError::Custom(expected_list_message()),
        ),
{
}

/// Strict length: an input is accepted only where its header is a list's, the
/// bytes after the header are exactly as many as the header declares, and the
/// five fields use them up to the last byte.
pub proof fn lemma_accepted_input_has_exact_length(input: Seq<u8>)
    ensures
        strict_decoding(input) is Ok ==> {
            &&& header_decoding(input) is Ok
            &&& header_decoding(input)->Ok_0.0
            &&& header_decoding(input)->Ok_0.2.len() == header_decoding(input)->Ok_0.1
            &&& fields_decoding(header_decoding(input)->Ok_0.2) is Ok
            &&& fields_decoding(header_decoding(input)->Ok_0.2)->Ok_0.1.len() == 0
            &&& fields_decoding(header_decoding(input)->Ok_0.2)->Ok_0.0 == strict_decoding(
                input,
            )->Ok_0
        },
{
}

/// Whether the numbers of a record fit 256 bits and its access list has
/// addresses of 20 bytes and storage keys of 32.
pub open spec fn record_well_formed(r: RecordModel) -> bool {
    &&& r.value < pow256(32)
    &&& r.max_fee_per_gas < pow256(32)
    &&& r.max_priority_fee_per_gas < pow256(32)
    &&& items_well_formed(r.access_list)
}

/// Every record in memory is well formed.
pub proof fn lemma_record_is_well_formed(record: SpanBatchEip1559TransactionData)
    ensures
        record_well_formed(record@),
{
    lemma_u256_below_pow256(record.value);
    lemma_u256_below_pow256(record.max_fee_per_gas);
    lemma_u256_below_pow256(record.max_priority_fee_per_gas);
    lemma_list_model_well_formed(record.access_list@);
}

/// Six runs of bytes joined from the left are the same as joined from the
/// right.
proof fn lemma_join_from_the_right(
    a: Seq<u8>,
    b: Seq<u8>,
    c: Seq<u8>,
    d: Seq<u8>,
    e: Seq<u8>,
    rest: Seq<u8>,
)
    ensures
        a + b + c + d + e + rest == a + (b + (c + (d + (e + rest)))),
        (a + b + c + d + e).len() == a.len() + b.len() + c.len() + d.len() + e.len(),
{
    assert(a + b + c + d + e + rest =~= a + (b + (c + (d + (e + rest)))));
}

/// A byte string and a list take at least as many bytes as they hold.
proof fn lemma_payload_bounds(data: Seq<u8>, items: Seq<AccessItemModel>)
    ensures
        data.len() <= string_bytes(data).len(),
        items_payload(items).len() <= access_list_bytes(items).len(),
{
}

/// The payload of a record followed by `rest`, field by field, and the
/// lengths that the payload's length bounds.
proof fn lemma_payload_split(r: RecordModel, rest: Seq<u8>)
    ensures
        record_payload(r) + rest == uint_bytes(r.value) + (uint_bytes(r.max_fee_per_gas) + (
        uint_bytes(r.max_priority_fee_per_gas) + (string_bytes(r.data) + (access_list_bytes(
            r.access_list,
        ) + rest)))),
        r.data.len() <= record_payload(r).len(),
        items_payload(r.access_list).len() <= record_payload(r).len(),
{
    lemma_join_from_the_right(
        uint_bytes(r.value),
        uint_bytes(r.max_fee_per_gas),
        uint_bytes(r.max_priority_fee_per_gas),
        string_bytes(r.data),
        access_list_bytes(r.access_list),
        rest,
    );
    lemma_payload_bounds(r.data, r.access_list);
}

/// The five fields are read back from the bytes of a record's payload,
/// whatever follows them.
proof fn lemma_fields_read_back(r: RecordModel, rest: Seq<u8>)
    requires
        record_well_formed(r),
        record_payload(r).len() <= usize::MAX,
    ensures
        fields_decoding(record_payload(r) + rest) == Ok::<(RecordModel, Seq<u8>), RlpError>(
            (r, rest),
        ),
{
    let a = uint_bytes(r.value);
    let b = uint_bytes(r.max_fee_per_gas);
    let c = uint_bytes(r.max_priority_fee_per_gas);
    let d = string_bytes(r.data);
    let e = access_list_bytes(r.access_list);
    let s4 = e + rest;
    let s3 = d + s4;
    let s2 = c + s3;
    let s1 = b + s2;
    lemma_payload_split(r, rest);
    lemma_u256_read_back(r.value, s1);
    lemma_u256_read_back(r.max_fee_per_gas, s2);
    lemma_u256_read_back(r.max_priority_fee_per_gas, s3);
    lemma_bytes_read_back(r.data, s4);
    lemma_access_list_read_back(r.access_list, rest);
}

/// The framing of a record loses nothing: reading the byte form of a
/// record, with any bytes after it, gives the record and those bytes.
pub proof fn lemma_prefix_decoding_inverts_encoding(r: RecordModel, rest: Seq<u8>)
    ensures
        record_well_formed(r) && record_payload(r).len() <= usize::MAX ==> record_decoding(
            record_bytes(r) + rest,
        ) == Ok::<(RecordModel, Seq<u8>), RlpError>((r, rest)),
{
    if record_well_formed(r) && record_payload(r).len() <= usize::MAX {
        let payload = record_payload(r);
        let body = payload + rest;
        lemma_header_reads_back(true, payload.len(), body);
        assert(record_bytes(r) + rest =~= header_bytes(true, payload.len()) + body);
        lemma_fields_read_back(r, rest);
    }
}

/// Round trip and padding: the strict reader gives back every record from
/// its byte form, and refuses the byte form with any bytes added. The fields
/// must be short enough for the payload's length to be a machine number, as
/// they are whenever the byte form is in memory.
pub proof fn lemma_decoding_inverts_encoding(
    record: SpanBatchEip1559TransactionData,
    extra: Seq<u8>,
)
    ensures
        record_payload(record@).len() <= usize::MAX ==> strict_decoding(record_bytes(record@))
            == Ok::<RecordModel, RlpError>(record@),
        record_payload(record@).len() <= usize::MAX && extra.len() > 0 ==> strict_decoding(
            record_bytes(record@) + extra,
        ) == Err::<RecordModel, RlpError>(RlpError::Custom(invalid_length_message())),
{
    lemma_record_is_well_formed(record);
    lemma_prefix_decoding_inverts_encoding(record@, Seq::empty());
    lemma_prefix_decoding_inverts_encoding(record@, extra);
    assert(record_bytes(record@) + Seq::<u8>::empty() =~= record_bytes(record@));
}

/// Truncation: the byte form of a record with any number of bytes cut off its
/// end is refused, by both readers, as input that is too short.
pub proof fn lemma_truncated_is_rejected(record: SpanBatchEip1559TransactionData, n: nat)
    ensures
        record_payload(record@).len() <= usize::MAX && n < record_bytes(record@).len()
            ==> record_decoding(record_bytes(record@).subrange(0, n as int)) == Err::<
            (RecordModel, Seq<u8>),
            RlpError,
        >(RlpError::InputTooShort) && strict_decoding(
            record_bytes(record@).subrange(0, n as int),
        ) == Err::<RecordModel, RlpError>(RlpError::InputTooShort),
{
    if record_payload(record@).len() <= usize::MAX && n < record_bytes(record@).len() {
        lemma_cut_list_is_rejected(record_payload(record@), n);
    }
}

/// An input that starts with the header of a string, which is any byte under
/// 0xc0, is refused.
pub proof fn lemma_string_input_is_rejected(input: Seq<u8>)
    ensures
        input.len() > 0 && input[0] < 0xc0 ==> record_decoding(input) is Err && strict_decoding(
            input,
        ) is Err,
{
    reveal(header_decoding);
    reveal(long_header_decoding);
}

} // verus!
