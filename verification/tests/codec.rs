use span_batch_tx::access_list::AccessListItem;
use span_batch_tx::eip1559::SpanBatchEip1559TransactionData;
use span_batch_tx::primitives::U256;
use span_batch_tx::rlp::RlpError;

fn sample() -> SpanBatchEip1559TransactionData {
    SpanBatchEip1559TransactionData {
        value: U256::from_u64(0xFF),
        max_fee_per_gas: U256::from_u64(0xEE),
        max_priority_fee_per_gas: U256::from_u64(0xDD),
        data: vec![0x01, 0x02, 0x03],
        access_list: Vec::new(),
    }
}

fn rich() -> SpanBatchEip1559TransactionData {
    SpanBatchEip1559TransactionData {
        value: U256 { hi: 7, lo: u128::MAX },
        max_fee_per_gas: U256::from_u128(u128::MAX),
        max_priority_fee_per_gas: U256::from_u64(0),
        data: (0u8..200).collect(),
        access_list: vec![
            AccessListItem { address: [0x11; 20], storage_keys: vec![[0x22; 32], [0x00; 32]] },
            AccessListItem { address: [0x00; 20], storage_keys: Vec::new() },
        ],
    }
}

#[test]
fn encode_eip1559_tx_data_roundtrip() {
    let variable_fee_tx = sample();
    let mut encoded_buf = Vec::new();
    variable_fee_tx.clone().encode(&mut encoded_buf);

    let variable_fee_decoded =
        SpanBatchEip1559TransactionData::decode(encoded_buf.as_slice()).unwrap();

    assert_eq!(variable_fee_tx, variable_fee_decoded);
}

#[test]
fn encode_gives_the_exact_bytes() {
    let mut out = Vec::new();
    sample().encode(&mut out);
    assert_eq!(
        out,
        vec![0xcb, 0x81, 0xff, 0x81, 0xee, 0x81, 0xdd, 0x83, 0x01, 0x02, 0x03, 0xc0]
    );
}

#[test]
fn encode_appends_to_what_is_there() {
    let mut out = vec![0xaa, 0xbb];
    sample().encode(&mut out);
    assert_eq!(&out[..3], &[0xaa, 0xbb, 0xcb]);
    assert_eq!(out.len(), 14);
}

#[test]
fn encode_small_and_zero_numbers() {
    let record = SpanBatchEip1559TransactionData {
        value: U256::from_u64(0),
        max_fee_per_gas: U256::from_u64(0x7f),
        max_priority_fee_per_gas: U256::from_u64(0x80),
        data: vec![0x05],
        access_list: Vec::new(),
    };
    let mut out = Vec::new();
    record.encode(&mut out);
    assert_eq!(out, vec![0xc6, 0x80, 0x7f, 0x81, 0x80, 0x05, 0xc0]);
    assert_eq!(SpanBatchEip1559TransactionData::decode(&out), Ok(record));
}

#[test]
fn encode_access_list_bytes() {
    let record = SpanBatchEip1559TransactionData {
        value: U256::from_u64(1),
        max_fee_per_gas: U256::from_u64(2),
        max_priority_fee_per_gas: U256::from_u64(3),
        data: Vec::new(),
        access_list: vec![AccessListItem { address: [0x11; 20], storage_keys: vec![[0x22; 32]] }],
    };
    let mut out = Vec::new();
    record.encode(&mut out);
    let mut expected = vec![0xf8, 0x3e, 0x01, 0x02, 0x03, 0x80];
    expected.extend_from_slice(&[0xf8, 0x38, 0xf7, 0x94]);
    expected.extend_from_slice(&[0x11; 20]);
    expected.extend_from_slice(&[0xe1, 0xa0]);
    expected.extend_from_slice(&[0x22; 32]);
    assert_eq!(out, expected);
    assert_eq!(SpanBatchEip1559TransactionData::decode(&out), Ok(record));
}

#[test]
fn roundtrip_with_wide_values_and_access_list() {
    let record = rich();
    let mut out = Vec::new();
    record.encode(&mut out);
    assert_eq!(SpanBatchEip1559TransactionData::decode(&out), Ok(record));
}

#[test]
fn decode_prefix_hands_back_the_rest() {
    let mut out = Vec::new();
    sample().encode(&mut out);
    out.extend_from_slice(&[0x09, 0x08]);
    let (record, rest) = SpanBatchEip1559TransactionData::decode_prefix(&out).unwrap();
    assert_eq!(record, sample());
    assert_eq!(rest, &[0x09, 0x08]);
}

#[test]
fn truncated_input_is_rejected() {
    let mut out = Vec::new();
    rich().encode(&mut out);
    for cut in 1..out.len() {
        let short = &out[..out.len() - cut];
        assert!(SpanBatchEip1559TransactionData::decode(short).is_err());
    }
    assert_eq!(SpanBatchEip1559TransactionData::decode(&[]), Err(RlpError::InputTooShort));
}

#[test]
fn padded_input_is_rejected() {
    let mut out = Vec::new();
    sample().encode(&mut out);
    for extra in 1..5usize {
        let mut long = out.clone();
        long.extend(std::iter::repeat(0u8).take(extra));
        assert_eq!(
            SpanBatchEip1559TransactionData::decode(&long),
            Err(RlpError::Custom("Invalid EIP-1559 transaction RLP"))
        );
    }
}

#[test]
fn scalar_header_is_rejected() {
    let input = [0x83, 0x01, 0x02, 0x03];
    assert_eq!(
        SpanBatchEip1559TransactionData::decode(&input),
        Err(RlpError::Custom("Expected list data for EIP-1559 transaction"))
    );
    assert_eq!(
        SpanBatchEip1559TransactionData::decode(&[0x05]),
        Err(RlpError::Custom("Expected list data for EIP-1559 transaction"))
    );
}

#[test]
fn declared_length_longer_than_fields_is_rejected() {
    // The header declares 12 bytes, the fields take 11, and one byte follows.
    let input = [0xcc, 0x81, 0xff, 0x81, 0xee, 0x81, 0xdd, 0x83, 0x01, 0x02, 0x03, 0xc0, 0x00];
    assert_eq!(
        SpanBatchEip1559TransactionData::decode_prefix(&input).map(|r| r.0),
        Err(RlpError::Custom("Invalid EIP-1559 transaction RLP"))
    );
}

#[test]
fn field_errors_come_through() {
    // A value with a leading zero byte.
    let input = [0xc3, 0x82, 0x00, 0x01];
    assert_eq!(SpanBatchEip1559TransactionData::decode(&input), Err(RlpError::LeadingZero));
    // A value of 33 bytes.
    let mut wide = vec![0xe2, 0xa1];
    wide.extend_from_slice(&[0x01; 33]);
    assert_eq!(SpanBatchEip1559TransactionData::decode(&wide), Err(RlpError::Overflow));
    // A list where the value should be.
    let input = [0xc1, 0xc0];
    assert_eq!(SpanBatchEip1559TransactionData::decode(&input), Err(RlpError::UnexpectedList));
    // A string where the access list should be.
    let input = [0xc5, 0x01, 0x02, 0x03, 0x80, 0x80];
    assert_eq!(SpanBatchEip1559TransactionData::decode(&input), Err(RlpError::UnexpectedString));
    // An address of 19 bytes.
    let mut short_address = vec![0xda, 0x01, 0x02, 0x03, 0x80, 0xd6, 0xd5, 0x93];
    short_address.extend_from_slice(&[0x11; 19]);
    short_address.push(0xc0);
    assert_eq!(
        SpanBatchEip1559TransactionData::decode(&short_address),
        Err(RlpError::UnexpectedLength)
    );
    // A single byte written with a prefix.
    let input = [0xc2, 0x81, 0x05];
    assert_eq!(
        SpanBatchEip1559TransactionData::decode(&input),
        Err(RlpError::NonCanonicalSingleByte)
    );
    // A short length written in the long form.
    let input = [0xb8, 0x01, 0x00];
    assert_eq!(SpanBatchEip1559TransactionData::decode(&input), Err(RlpError::NonCanonicalSize));
}

#[test]
fn access_list_item_with_extra_field_is_rejected() {
    // The entry's header declares one byte more than address and keys take.
    let mut input = vec![0xdd, 0x01, 0x02, 0x03, 0x80, 0xd8, 0xd7, 0x94];
    input.extend_from_slice(&[0x11; 20]);
    input.extend_from_slice(&[0xc0, 0x80]);
    assert_eq!(
        SpanBatchEip1559TransactionData::decode(&input),
        Err(RlpError::ListLengthMismatch { expected: 23, got: 22 })
    );
}

#[test]
fn u256_halves_and_narrowing() {
    assert_eq!(U256::from_u64(5), U256 { hi: 0, lo: 5 });
    assert_eq!(U256::from_u128(u128::MAX).to_u128(), Some(u128::MAX));
    assert_eq!(U256 { hi: 1, lo: 0 }.to_u128(), None);
}

#[test]
fn header_errors_come_through() {
    // A long length that starts with a zero byte.
    let mut input = vec![0xf8, 0x00];
    input.extend_from_slice(&[0x01; 60]);
    assert_eq!(SpanBatchEip1559TransactionData::decode(&input), Err(RlpError::LeadingZero));
    // A list under 56 bytes with its length in the long form.
    let input = [0xf8, 0x05, 0x01, 0x02, 0x03, 0x80, 0xc0];
    assert_eq!(SpanBatchEip1559TransactionData::decode(&input), Err(RlpError::NonCanonicalSize));
    // Two length bytes announced, one there.
    let input = [0xf9, 0x01];
    assert_eq!(SpanBatchEip1559TransactionData::decode(&input), Err(RlpError::InputTooShort));
    // A payload of 56 bytes announced, 55 there.
    let mut input = vec![0xf8, 0x38];
    input.extend_from_slice(&[0x01; 55]);
    assert_eq!(SpanBatchEip1559TransactionData::decode(&input), Err(RlpError::InputTooShort));
    // A payload of five bytes announced, one there.
    let input = [0xc5, 0x01];
    assert_eq!(SpanBatchEip1559TransactionData::decode(&input), Err(RlpError::InputTooShort));
    // A string of two bytes announced as a number, one there.
    let input = [0xc2, 0x82, 0x01];
    assert_eq!(SpanBatchEip1559TransactionData::decode(&input), Err(RlpError::InputTooShort));
}

#[test]
fn long_headers_are_written_and_read() {
    let record = SpanBatchEip1559TransactionData {
        value: U256::from_u64(0),
        max_fee_per_gas: U256::from_u64(0),
        max_priority_fee_per_gas: U256::from_u64(0),
        data: vec![0xaa; 300],
        access_list: Vec::new(),
    };
    let mut out = Vec::new();
    record.encode(&mut out);
    // Three zeros, a string of 300 bytes behind 0xb9 0x01 0x2c, an empty list.
    assert_eq!(&out[..9], &[0xf9, 0x01, 0x33, 0x80, 0x80, 0x80, 0xb9, 0x01, 0x2c]);
    assert_eq!(out.len(), 3 + 0x133);
    assert_eq!(out[out.len() - 1], 0xc0);
    assert_eq!(SpanBatchEip1559TransactionData::decode(&out), Ok(record));
}

#[test]
fn truncation_is_reported_as_input_too_short() {
    let mut out = Vec::new();
    sample().encode(&mut out);
    for keep in 0..out.len() {
        assert_eq!(
            SpanBatchEip1559TransactionData::decode(&out[..keep]),
            Err(RlpError::InputTooShort)
        );
    }
}

#[test]
fn widest_number_round_trips() {
    let record = SpanBatchEip1559TransactionData {
        value: U256 { hi: u128::MAX, lo: u128::MAX },
        max_fee_per_gas: U256 { hi: 1, lo: 0 },
        max_priority_fee_per_gas: U256 { hi: 0, lo: 1 << 127 },
        data: Vec::new(),
        access_list: Vec::new(),
    };
    let mut out = Vec::new();
    record.encode(&mut out);
    assert_eq!(out.len(), 2 + 33 + 18 + 17 + 1 + 1);
    assert_eq!(&out[..3], &[0xf8, 0x46, 0xa0]);
    assert_eq!(&out[35..38], &[0x91, 0x01, 0x00]);
    assert_eq!(SpanBatchEip1559TransactionData::decode(&out), Ok(record));
}
