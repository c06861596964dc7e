use span_batch_tx::access_list::AccessListItem;
use span_batch_tx::eip1559::SpanBatchEip1559TransactionData;
use span_batch_tx::primitives::U256;
use span_batch_tx::transaction::{
    Signature, SpanBatchError, SpanDecodingError, TxEip1559, TxEnvelope, TxKind,
};

fn signature() -> Signature {
    Signature { r: U256::from_u64(11), s: U256 { hi: 3, lo: 4 }, y_parity: true }
}

fn record(max_fee: U256, max_priority_fee: U256) -> SpanBatchEip1559TransactionData {
    SpanBatchEip1559TransactionData {
        value: U256::from_u64(0xFF),
        max_fee_per_gas: max_fee,
        max_priority_fee_per_gas: max_priority_fee,
        data: vec![0x01, 0x02, 0x03],
        access_list: vec![AccessListItem { address: [0x44; 20], storage_keys: vec![[0x55; 32]] }],
    }
}

#[test]
fn envelope_holds_the_record_and_the_shared_fields() {
    let r = record(U256::from_u64(0xEE), U256::from_u64(0xDD));
    let TxEnvelope::Eip1559(signed) =
        r.to_enveloped_tx(9, 21000, Some([0x33; 20]), 10, signature()).unwrap();
    assert_eq!(signed.signature, signature());
    assert_eq!(
        signed.tx,
        TxEip1559 {
            chain_id: 10,
            nonce: 9,
            gas_limit: 21000,
            max_fee_per_gas: 0xEE,
            max_priority_fee_per_gas: 0xDD,
            to: TxKind::Call([0x33; 20]),
            value: U256::from_u64(0xFF),
            access_list: r.access_list.clone(),
            input: vec![0x01, 0x02, 0x03],
        }
    );
    assert_eq!(signed.hash, signed.tx.signature_hash());
}

#[test]
fn absent_destination_creates_a_contract() {
    let r = record(U256::from_u64(1), U256::from_u64(1));
    let TxEnvelope::Eip1559(signed) = r.to_enveloped_tx(0, 1, None, 1, signature()).unwrap();
    assert_eq!(signed.tx.to, TxKind::Create);
}

#[test]
fn signing_bytes_are_exact() {
    let tx = TxEip1559 {
        chain_id: 1,
        nonce: 0,
        gas_limit: 0x5208,
        max_fee_per_gas: 0x100,
        max_priority_fee_per_gas: 2,
        to: TxKind::Create,
        value: U256::from_u64(0),
        access_list: Vec::new(),
        input: vec![0xab],
    };
    let mut out = Vec::new();
    tx.encode_for_signing(&mut out);
    assert_eq!(
        out,
        vec![
            0x02, 0xce, 0x01, 0x80, 0x02, 0x82, 0x01, 0x00, 0x82, 0x52, 0x08, 0x80, 0x80, 0x81,
            0xab, 0xc0
        ]
    );
}

#[test]
fn signing_hash_is_the_keccak_digest_of_the_signing_bytes() {
    let r = record(U256::from_u64(0xEE), U256::from_u64(0xDD));
    let TxEnvelope::Eip1559(signed) =
        r.to_enveloped_tx(9, 21000, Some([0x33; 20]), 10, signature()).unwrap();
    let mut bytes = Vec::new();
    signed.tx.encode_for_signing(&mut bytes);
    assert_eq!(signed.hash, alloy_primitives::keccak256(&bytes).0);
    assert_ne!(&signed.hash[..], &bytes[..32]);
}

#[test]
fn signing_hash_of_a_known_input() {
    // The transaction whose signing bytes are 0x02 0xc9 then nine 0x80 bytes
    // but for the empty access list.
    let tx = TxEip1559 {
        chain_id: 0,
        nonce: 0,
        gas_limit: 0,
        max_fee_per_gas: 0,
        max_priority_fee_per_gas: 0,
        to: TxKind::Create,
        value: U256::from_u64(0),
        access_list: Vec::new(),
        input: Vec::new(),
    };
    let mut bytes = Vec::new();
    tx.encode_for_signing(&mut bytes);
    assert_eq!(bytes, vec![0x02, 0xc9, 0x80, 0x80, 0x80, 0x80, 0x80, 0x80, 0x80, 0x80, 0xc0]);
    assert_eq!(tx.signature_hash(), alloy_primitives::keccak256(&bytes).0);
}

#[test]
fn reconstruction_is_deterministic() {
    let r = record(U256::from_u64(0xEE), U256::from_u64(0xDD));
    let a = r.to_enveloped_tx(9, 21000, Some([0x33; 20]), 10, signature());
    let b = r.clone().to_enveloped_tx(9, 21000, Some([0x33; 20]), 10, signature());
    assert_eq!(a, b);
    let c = r.to_enveloped_tx(10, 21000, Some([0x33; 20]), 10, signature()).unwrap();
    assert_ne!(a.unwrap(), c);
}

#[test]
fn fee_at_the_boundary_is_accepted() {
    let r = record(U256::from_u128(u128::MAX), U256::from_u128(u128::MAX));
    let TxEnvelope::Eip1559(signed) = r.to_enveloped_tx(0, 0, None, 1, signature()).unwrap();
    assert_eq!(signed.tx.max_fee_per_gas, u128::MAX);
    assert_eq!(signed.tx.max_priority_fee_per_gas, u128::MAX);
}

#[test]
fn fee_above_the_boundary_is_rejected() {
    let err = Err(SpanBatchError::Decoding(SpanDecodingError::InvalidTransactionData));
    let over = U256 { hi: 1, lo: 0 };
    let r = record(over, U256::from_u64(1));
    assert_eq!(r.to_enveloped_tx(0, 0, None, 1, signature()), err);
    let r = record(U256::from_u64(1), over);
    assert_eq!(r.to_enveloped_tx(0, 0, None, 1, signature()), err);
    let r = record(U256 { hi: u128::MAX, lo: 0xEE }, U256::from_u64(1));
    assert_eq!(r.to_enveloped_tx(0, 0, None, 1, signature()), err);
}
