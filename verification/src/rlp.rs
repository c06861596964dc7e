//! The recursive-length-prefix byte format: what its encodings are, and the
//! calls that write and read them.

use crate::primitives::U256;
use alloy_rlp::{Decodable, Encodable};
use vstd::prelude::*;

verus! {

/// Why a run of bytes was not read.
#[derive(Clone, Copy, Debug, PartialEq, Eq)]
pub enum RlpError {
    /// A number too large for its type.
    Overflow,
    /// A number written with a leading zero byte.
    LeadingZero,
    /// The input ended too early.
    InputTooShort,
    /// A single byte below 0x80 written with a length prefix.
    NonCanonicalSingleByte,
    /// A short length written in the long form.
    NonCanonicalSize,
    /// A payload of another size than the type has.
    UnexpectedLength,
    /// A string where a list was expected.
    UnexpectedString,
    /// A list where a string was expected.
    UnexpectedList,
    /// A list whose items take another number of bytes than its header says.
    ListLengthMismatch { expected: usize, got: usize },
    /// Any other failure, with its message.
    Custom(&'static str),
}

#[verifier::external_type_specification]
#[verifier::external_body]
pub struct ExRlpError(alloy_rlp::Error);

/// The shortest big-endian form of a number: no bytes for zero.
pub open spec fn be_bytes(n: nat) -> Seq<u8>
    decreases n,
{
    if n == 0 {
        Seq::empty()
    } else {
        be_bytes(n / 256).push((n % 256) as u8)
    }
}

/// The header of an item: one byte for payloads under 56 bytes, else a byte
/// that counts the bytes of the length, and the length in big-endian form.
pub open spec fn header_bytes(list: bool, len: nat) -> Seq<u8> {
    let base: nat = if list { 0xc0 } else { 0x80 };
    if len < 56 {
        seq![(base + len) as u8]
    } else {
        seq![(base + 55 + be_bytes(len).len()) as u8] + be_bytes(len)
    }
}

/// The encoding of a byte string: a single byte under 0x80 stands for itself,
/// any other string follows its header.
pub open spec fn string_bytes(s: Seq<u8>) -> Seq<u8> {
    if s.len() == 1 && s[0] < 0x80 {
        s
    } else {
        header_bytes(false, s.len()) + s
    }
}

/// The encoding of a number: its shortest big-endian form, as a byte string.
pub open spec fn uint_bytes(n: nat) -> Seq<u8> {
    string_bytes(be_bytes(n))
}

/// The message of the error for a payload length that the machine cannot
/// hold.
pub open spec fn input_too_big_message() -> &'static str {
    "Input too big"
}

/// What reading a header in the long form gives, after its first byte: the
/// next `width` bytes are the payload length as a big-endian number without a
/// leading zero, which is at least 56.
#[verifier::opaque]
pub open spec fn long_header_decoding(list: bool, width: nat, after: Seq<u8>) -> Result<
    (bool, nat, Seq<u8>),
    RlpError,
> {
    let digits = after.subrange(0, width as int);
    let rest = after.subrange(width as int, after.len() as int);
    if after.len() < width {
        Err(RlpError::InputTooShort)
    } else if digits[0] == 0 {
        Err(RlpError::LeadingZero)
    } else if be_value(digits) > usize::MAX {
        Err(RlpError::Custom(input_too_big_message()))
    } else if be_value(digits) < 56 {
        Err(RlpError::NonCanonicalSize)
    } else if rest.len() < be_value(digits) {
        Err(RlpError::InputTooShort)
    } else {
        Ok((list, be_value(digits), rest))
    }
}

/// What reading a header from the front of `input` gives: whether it is a
/// list's, the payload length, and the bytes at which the payload starts. A
/// first byte under 0x80 is a string of one byte, itself; 0x80 to 0xb7 is a
/// string of up to 55 bytes; 0xb8 to 0xbf a longer one; 0xc0 to 0xf7 a list
/// of up to 55 bytes; 0xf8 to 0xff a longer one. The payload must be there in
/// full.
#[verifier::opaque]
pub open spec fn header_decoding(input: Seq<u8>) -> Result<(bool, nat, Seq<u8>), RlpError> {
    let first = input[0];
    let after = input.subrange(1, input.len() as int);
    if input.len() == 0 {
        Err(RlpError::InputTooShort)
    } else if first < 0x80 {
        Ok((false, 1nat, input))
    } else if first < 0xb8 {
        let len = (first - 0x80) as nat;
        if len == 1 && after.len() == 0 {
            Err(RlpError::InputTooShort)
        } else if len == 1 && after[0] < 0x80 {
            Err(RlpError::NonCanonicalSingleByte)
        } else if after.len() < len {
            Err(RlpError::InputTooShort)
        } else {
            Ok((false, len, after))
        }
    } else if first < 0xc0 {
        long_header_decoding(false, (first - 0xb7) as nat, after)
    } else if first < 0xf8 {
        let len = (first - 0xc0) as nat;
        if after.len() < len {
            Err(RlpError::InputTooShort)
        } else {
            Ok((true, len, after))
        }
    } else {
        long_header_decoding(true, (first - 0xf7) as nat, after)
    }
}

/// The number that big-endian bytes stand for.
pub open spec fn be_value(s: Seq<u8>) -> nat
    decreases s.len(),
{
    if s.len() == 0 {
        0
    } else {
        be_value(s.drop_last()) * 256 + s.last() as nat
    }
}

/// What reading a byte string from the front of `input` gives: the header
/// must be a string's; the string is the payload and the rest is what follows
/// it.
pub open spec fn bytes_decoding(input: Seq<u8>) -> Result<(Seq<u8>, Seq<u8>), RlpError> {
    match header_decoding(input) {
        Err(e) => Err(e),
        Ok((list, len, rest)) => if list {
            Err(RlpError::UnexpectedList)
        } else if rest.len() < len {
            Err(RlpError::InputTooShort)
        } else {
            Ok((rest.subrange(0, len as int), rest.subrange(len as int, rest.len() as int)))
        },
    }
}

/// What reading a 256-bit number from the front of `input` gives: a byte
/// string without a leading zero and of at most 32 bytes, taken as a
/// big-endian number.
pub open spec fn u256_decoding(input: Seq<u8>) -> Result<(nat, Seq<u8>), RlpError> {
    match bytes_decoding(input) {
        Err(e) => Err(e),
        Ok((s, rest)) => if s.len() > 0 && s[0] == 0 {
            Err(RlpError::LeadingZero)
        } else if s.len() > 32 {
            Err(RlpError::Overflow)
        } else {
            Ok((be_value(s), rest))
        },
    }
}

/// What reading a byte string of exactly `n` bytes from the front of `input`
/// gives.
pub open spec fn fixed_decoding(n: nat, input: Seq<u8>) -> Result<(Seq<u8>, Seq<u8>), RlpError> {
    match bytes_decoding(input) {
        Err(e) => Err(e),
        Ok((s, rest)) => if s.len() != n {
            Err(RlpError::UnexpectedLength)
        } else {
            Ok((s, rest))
        },
    }
}

/// Turns `alloy_rlp::Error` into the library's error, variant by variant.
#[verifier::external_body]
pub(crate) fn rlp_error(e: alloy_rlp::Error) -> RlpError {
    match e {
        alloy_rlp::Error::Overflow => RlpError::Overflow,
        alloy_rlp::Error::LeadingZero => RlpError::LeadingZero,
        alloy_rlp::Error::InputTooShort => RlpError::InputTooShort,
        alloy_rlp::Error::NonCanonicalSingleByte => RlpError::NonCanonicalSingleByte,
        alloy_rlp::Error::NonCanonicalSize => RlpError::NonCanonicalSize,
        alloy_rlp::Error::UnexpectedLength => RlpError::UnexpectedLength,
        alloy_rlp::Error::UnexpectedString => RlpError::UnexpectedString,
        alloy_rlp::Error::UnexpectedList => RlpError::UnexpectedList,
        alloy_rlp::Error::ListLengthMismatch { expected, got } => RlpError::ListLengthMismatch { expected, got },
        alloy_rlp::Error::Custom(m) => RlpError::Custom(m),
    }
}

/// Calls `alloy_rlp::Header::encode`. Claims that it appends the header of an
/// item with the given kind and payload length, as `header_bytes` states it.
#[verifier::external_body]
pub(crate) fn put_header(out: &mut Vec<u8>, list: bool, payload_length: usize)
    ensures
        final(out)@ == old(out)@ + header_bytes(list, payload_length as nat),
{
    alloy_rlp::Header { list, payload_length }.encode(out)
}

/// Calls the `alloy_rlp::Encodable::encode` of `ruint::Uint<256, 4>`. Claims
/// that it appends the number's shortest big-endian form as a byte string.
#[verifier::external_body]
pub(crate) fn put_u256(out: &mut Vec<u8>, v: &U256)
    ensures
        final(out)@ == old(out)@ + uint_bytes(v.value()),
{
    let mut be = [0u8; 32];
    be[..16].copy_from_slice(&v.hi.to_be_bytes());
    be[16..].copy_from_slice(&v.lo.to_be_bytes());
    alloy_primitives::U256::from_be_bytes(be).encode(out)
}

/// Calls the `alloy_rlp::Encodable::encode` of `[u8]`. Claims that it appends
/// the bytes as a byte string.
#[verifier::external_body]
pub(crate) fn put_bytes(out: &mut Vec<u8>, data: &[u8])
    ensures
        final(out)@ == old(out)@ + string_bytes(data@),
{
    data.encode(out)
}

/// Calls the `alloy_rlp::Encodable::encode` of `alloy_primitives::FixedBytes`.
/// Claims that it appends the bytes as a byte string.
#[verifier::external_body]
pub(crate) fn put_fixed<const N: usize>(out: &mut Vec<u8>, data: &[u8; N])
    ensures
        final(out)@ == old(out)@ + string_bytes(data@),
{
    alloy_primitives::FixedBytes::<N>(*data).encode(out)
}

/// Calls `alloy_rlp::Header::decode`. Claims that it reads the header as
/// `header_decoding` states it, and hands back the bytes at which the payload
/// starts.
#[verifier::external_body]
pub(crate) fn take_header<'a>(buf: &'a [u8]) -> (r: Result<(bool, usize, &'a [u8]), RlpError>)
    ensures
        match r {
            Ok((list, len, rest)) => header_decoding(buf@) == Ok::<(bool, nat, Seq<u8>), RlpError>(
                (list, len as nat, rest@),
            ),
            Err(e) => header_decoding(buf@) == Err::<(bool, nat, Seq<u8>), RlpError>(e),
        },
{
    let mut rest = buf;
    match alloy_rlp::Header::decode(&mut rest) {
        Ok(h) => Ok((h.list, h.payload_length, rest)),
        Err(e) => Err(rlp_error(e)),
    }
}

/// Calls the `alloy_rlp::Decodable::decode` of `ruint::Uint<256, 4>`. Claims
/// that it reads a byte string as `alloy_rlp::Header::decode` frames it,
/// refuses a leading zero byte and more than 32 bytes, and takes the bytes as
/// a big-endian number.
#[verifier::external_body]
pub(crate) fn take_u256<'a>(buf: &'a [u8]) -> (r: Result<(U256, &'a [u8]), RlpError>)
    ensures
        match r {
            Ok((v, rest)) => u256_decoding(buf@) == Ok::<(nat, Seq<u8>), RlpError>(
                (v.value(), rest@),
            ),
            Err(e) => u256_decoding(buf@) == Err::<(nat, Seq<u8>), RlpError>(e),
        },
{
    let mut rest = buf;
    match alloy_primitives::U256::decode(&mut rest) {
        Ok(v) => {
            let be = v.to_be_bytes::<32>();
            let hi = u128::from_be_bytes(be[..16].try_into().unwrap());
            let lo = u128::from_be_bytes(be[16..].try_into().unwrap());
            Ok((U256 { hi, lo }, rest))
        },
        Err(e) => Err(rlp_error(e)),
    }
}

/// Calls the `alloy_rlp::Decodable::decode` of `alloy_rlp::Bytes`. Claims that
/// it reads the header as `alloy_rlp::Header::decode` does, refuses a list,
/// and hands out the payload.
#[verifier::external_body]
pub(crate) fn take_bytes<'a>(buf: &'a [u8]) -> (r: Result<(Vec<u8>, &'a [u8]), RlpError>)
    ensures
        match r {
            Ok((data, rest)) => bytes_decoding(buf@) == Ok::<(Seq<u8>, Seq<u8>), RlpError>(
                (data@, rest@),
            ),
            Err(e) => bytes_decoding(buf@) == Err::<(Seq<u8>, Seq<u8>), RlpError>(e),
        },
{
    let mut rest = buf;
    match alloy_rlp::Bytes::decode(&mut rest) {
        Ok(data) => Ok((data.to_vec(), rest)),
        Err(e) => Err(rlp_error(e)),
    }
}

/// Calls the `alloy_rlp::Decodable::decode` of `alloy_primitives::FixedBytes`.
/// Claims that it reads a byte string as `alloy_rlp::Bytes` is read, and
/// refuses one of another length than `N`.
#[verifier::external_body]
pub(crate) fn take_fixed<'a, const N: usize>(buf: &'a [u8]) -> (r: Result<([u8; N], &'a [u8]), RlpError>)
    ensures
        match r {
            Ok((data, rest)) => fixed_decoding(N as nat, buf@) == Ok::<(Seq<u8>, Seq<u8>), RlpError>(
                (data@, rest@),
            ),
            Err(e) => fixed_decoding(N as nat, buf@) == Err::<(Seq<u8>, Seq<u8>), RlpError>(e),
        },
{
    let mut rest = buf;
    match alloy_primitives::FixedBytes::<N>::decode(&mut rest) {
        Ok(data) => Ok((data.0, rest)),
        Err(e) => Err(rlp_error(e)),
    }
}

/// Whether the header of an item with the given kind and payload length,
/// followed by `rest`, is read as that kind and length, with `rest` left.
pub open spec fn header_reads_back(list: bool, len: nat, rest: Seq<u8>) -> bool {
    header_decoding(header_bytes(list, len) + rest) == Ok::<(bool, nat, Seq<u8>), RlpError>(
        (list, len, rest),
    )
}

/// A header that was read leaves at least its payload, and no more than
/// there was; a list's header takes at least one byte.
pub proof fn lemma_header_decoding_bounds(input: Seq<u8>)
    ensures
        header_decoding(input) is Ok ==> {
            &&& header_decoding(input)->Ok_0.1 <= header_decoding(input)->Ok_0.2.len()
            &&& header_decoding(input)->Ok_0.2.len() <= input.len()
            &&& header_decoding(input)->Ok_0.0 ==> header_decoding(input)->Ok_0.2.len()
                < input.len()
        },
{
    reveal(header_decoding);
    reveal(long_header_decoding);
}

/// A byte string that was read took at least one byte.
pub proof fn lemma_bytes_decoding_bounds(input: Seq<u8>)
    ensures
        bytes_decoding(input) is Ok ==> bytes_decoding(input)->Ok_0.1.len() < input.len(),
{
    reveal(header_decoding);
    reveal(long_header_decoding);
}

/// A header is read back as it was written.
pub proof fn lemma_header_reads_back(list: bool, len: nat, rest: Seq<u8>)
    requires
        len <= rest.len(),
        len <= usize::MAX,
        list || len != 1 || rest[0] >= 0x80,
    ensures
        header_reads_back(list, len, rest),
{
    reveal(header_decoding);
    reveal(long_header_decoding);
    let input = header_bytes(list, len) + rest;
    let after = input.subrange(1, input.len() as int);
    if len < 56 {
        assert(after =~= rest);
    } else {
        let digits = be_bytes(len);
        reveal_with_fuel(pow256, 9);
        assert(usize::MAX <= 0xffff_ffff_ffff_ffff);
        lemma_be_bytes_len(len, 8);
        lemma_be_bytes_starts_nonzero(len);
        lemma_be_value_of_be_bytes(len);
        assert(after =~= digits + rest);
        assert(after.subrange(0, digits.len() as int) =~= digits);
        assert(after.subrange(digits.len() as int, after.len() as int) =~= rest);
    }
}

/// A list item cut short is not read: the header is missing, or cut, or
/// finds less than the payload it declares.
pub proof fn lemma_cut_list_is_rejected(payload: Seq<u8>, n: nat)
    requires
        payload.len() <= usize::MAX,
        n < (header_bytes(true, payload.len()) + payload).len(),
    ensures
        header_decoding((header_bytes(true, payload.len()) + payload).subrange(0, n as int))
            == Err::<(bool, nat, Seq<u8>), RlpError>(RlpError::InputTooShort),
{
    reveal(header_decoding);
    reveal(long_header_decoding);
    let full = header_bytes(true, payload.len()) + payload;
    let input = full.subrange(0, n as int);
    if n > 0 && payload.len() >= 56 {
        let digits = be_bytes(payload.len());
        reveal_with_fuel(pow256, 9);
        assert(usize::MAX <= 0xffff_ffff_ffff_ffff);
        lemma_be_bytes_len(payload.len(), 8);
        lemma_be_bytes_starts_nonzero(payload.len());
        lemma_be_value_of_be_bytes(payload.len());
        let after = input.subrange(1, input.len() as int);
        if after.len() >= digits.len() {
            assert(after.subrange(0, digits.len() as int) =~= digits);
        }
    }
}

/// 256 to the power `k`.
pub open spec fn pow256(k: nat) -> nat
    decreases k,
{
    if k == 0 {
        1
    } else {
        256 * pow256((k - 1) as nat)
    }
}

/// The shortest big-endian form stands for the number it was made from.
pub proof fn lemma_be_value_of_be_bytes(n: nat)
    ensures
        be_value(be_bytes(n)) == n,
    decreases n,
{
    if n > 0 {
        lemma_be_value_of_be_bytes(n / 256);
        assert(be_bytes(n).drop_last() =~= be_bytes(n / 256));
    }
}

/// The shortest big-endian form of a number that is not zero starts with a
/// byte that is not zero.
pub proof fn lemma_be_bytes_starts_nonzero(n: nat)
    requires
        n > 0,
    ensures
        be_bytes(n).len() > 0,
        be_bytes(n)[0] != 0,
    decreases n,
{
    if n / 256 > 0 {
        lemma_be_bytes_starts_nonzero(n / 256);
    } else {
        assert(be_bytes(n / 256) =~= Seq::<u8>::empty());
    }
}

/// A number under 256 to the power `k` has at most `k` bytes.
pub proof fn lemma_be_bytes_len(n: nat, k: nat)
    requires
        n < pow256(k),
    ensures
        be_bytes(n).len() <= k,
    decreases n,
{
    if n > 0 {
        lemma_be_bytes_len(n / 256, (k - 1) as nat);
    }
}

/// Every 256-bit number is under 256 to the power 32.
pub proof fn lemma_u256_below_pow256(v: U256)
    ensures
        v.value() < pow256(32),
{
    reveal_with_fuel(pow256, 34);
}

/// A byte string is read back as it was written, whatever follows it.
pub proof fn lemma_bytes_read_back(s: Seq<u8>, rest: Seq<u8>)
    requires
        s.len() <= usize::MAX,
    ensures
        bytes_decoding(string_bytes(s) + rest) == Ok::<(Seq<u8>, Seq<u8>), RlpError>((s, rest)),
{
    if s.len() == 1 && s[0] < 0x80 {
        let input = s + rest;
        assert(header_decoding(input) == Ok::<(bool, nat, Seq<u8>), RlpError>(
            (false, 1nat, input),
        )) by {
            reveal(header_decoding);
        }
        assert(input.subrange(0, 1) =~= s);
        assert(input.subrange(1, input.len() as int) =~= rest);
    } else {
        let body = s + rest;
        lemma_header_reads_back(false, s.len(), body);
        assert(string_bytes(s) + rest =~= header_bytes(false, s.len()) + body);
        assert(body.subrange(0, s.len() as int) =~= s);
        assert(body.subrange(s.len() as int, body.len() as int) =~= rest);
    }
}

/// A byte string of the expected length is read back as it was written.
pub proof fn lemma_fixed_read_back(n: nat, s: Seq<u8>, rest: Seq<u8>)
    requires
        s.len() == n,
        n <= 32,
    ensures
        fixed_decoding(n, string_bytes(s) + rest) == Ok::<(Seq<u8>, Seq<u8>), RlpError>((s, rest)),
{
    lemma_bytes_read_back(s, rest);
}

/// A number of 256 bits is read back as it was written.
pub proof fn lemma_u256_read_back(v: nat, rest: Seq<u8>)
    requires
        v < pow256(32),
    ensures
        u256_decoding(uint_bytes(v) + rest) == Ok::<(nat, Seq<u8>), RlpError>((v, rest)),
{
    lemma_be_bytes_len(v, 32);
    lemma_be_value_of_be_bytes(v);
    if v > 0 {
        lemma_be_bytes_starts_nonzero(v);
    }
    lemma_bytes_read_back(be_bytes(v), rest);
}

} // verus!
