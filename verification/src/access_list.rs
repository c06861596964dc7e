//! Access lists: the addresses and storage keys that a transaction declares
//! it will touch, and their byte form.

use crate::rlp::{
    fixed_decoding, header_bytes, header_decoding, lemma_bytes_decoding_bounds,
    lemma_fixed_read_back, lemma_header_decoding_bounds, lemma_header_reads_back, put_fixed,
    put_header, string_bytes, take_fixed, take_header, RlpError,
};
use vstd::prelude::*;
use vstd::slice::slice_subrange;

verus! {

/// One entry of an access list: an account and the storage slots under it.
#[derive(Clone, Debug, PartialEq, Eq)]
pub struct AccessListItem {
    pub address: [u8; 20],
    pub storage_keys: Vec<[u8; 32]>,
}

/// An entry as plain sequences of bytes.
pub ghost struct AccessItemModel {
    pub address: Seq<u8>,
    pub storage_keys: Seq<Seq<u8>>,
}

/// The storage keys as sequences of bytes, in order.
pub open spec fn keys_model(keys: Seq<[u8; 32]>) -> Seq<Seq<u8>> {
    Seq::new(keys.len(), |i: int| keys[i]@)
}

impl View for AccessListItem {
    type V = AccessItemModel;

    open spec fn view(&self) -> AccessItemModel {
        AccessItemModel { address: self.address@, storage_keys: keys_model(self.storage_keys@) }
    }
}

/// The entries of an access list as plain sequences, in order.
pub open spec fn list_model(items: Seq<AccessListItem>) -> Seq<AccessItemModel> {
    Seq::new(items.len(), |i: int| items[i]@)
}

/// A list item: the header for the payload's length, then the payload.
pub open spec fn list_bytes(payload: Seq<u8>) -> Seq<u8> {
    header_bytes(true, payload.len()) + payload
}

/// The storage keys one after another, each as a byte string.
pub open spec fn keys_payload(keys: Seq<Seq<u8>>) -> Seq<u8>
    decreases keys.len(),
{
    if keys.len() == 0 {
        Seq::empty()
    } else {
        keys_payload(keys.drop_last()) + string_bytes(keys.last())
    }
}

/// One entry: the list of its address and the list of its storage keys.
pub open spec fn item_bytes(item: AccessItemModel) -> Seq<u8> {
    list_bytes(string_bytes(item.address) + list_bytes(keys_payload(item.storage_keys)))
}

/// The entries one after another.
pub open spec fn items_payload(items: Seq<AccessItemModel>) -> Seq<u8>
    decreases items.len(),
{
    if items.len() == 0 {
        Seq::empty()
    } else {
        items_payload(items.drop_last()) + item_bytes(items.last())
    }
}

/// A whole access list: the list of its entries.
pub open spec fn access_list_bytes(items: Seq<AccessItemModel>) -> Seq<u8> {
    list_bytes(items_payload(items))
}

/// Reading storage keys until `payload` is used up, after the keys `acc`.
pub open spec fn keys_decoding(payload: Seq<u8>, acc: Seq<Seq<u8>>) -> Result<
    Seq<Seq<u8>>,
    RlpError,
>
    decreases payload.len(),
{
    if payload.len() == 0 {
        Ok(acc)
    } else {
        match fixed_decoding(32, payload) {
            Err(e) => Err(e),
            Ok((key, rest)) => if rest.len() < payload.len() {
                keys_decoding(rest, acc.push(key))
            } else {
                Err(RlpError::InputTooShort)
            },
        }
    }
}

/// Reading a list of storage keys from the front of `input`: the keys and the
/// bytes after the list.
pub open spec fn key_list_decoding(input: Seq<u8>) -> Result<(Seq<Seq<u8>>, Seq<u8>), RlpError> {
    match header_decoding(input) {
        Err(e) => Err(e),
        Ok((list, len, body)) => if !list {
            Err(RlpError::UnexpectedString)
        } else if body.len() < len {
            Err(RlpError::InputTooShort)
        } else {
            match keys_decoding(body.subrange(0, len as int), Seq::empty()) {
                Err(e) => Err(e),
                Ok(keys) => Ok((keys, body.subrange(len as int, body.len() as int))),
            }
        },
    }
}

/// Reading one entry from the front of `input`: a list that holds an address
/// and a list of storage keys and nothing else.
pub open spec fn item_decoding(input: Seq<u8>) -> Result<(AccessItemModel, Seq<u8>), RlpError> {
    match header_decoding(input) {
        Err(e) => Err(e),
        Ok((list, len, body)) => if !list {
            Err(RlpError::UnexpectedString)
        } else if body.len() < len {
            Err(RlpError::InputTooShort)
        } else {
            match fixed_decoding(20, body) {
                Err(e) => Err(e),
                Ok((address, after_address)) => match key_list_decoding(after_address) {
                    Err(e) => Err(e),
                    Ok((storage_keys, rest)) => if rest.len() + len == body.len() {
                        Ok((AccessItemModel { address, storage_keys }, rest))
                    } else {
                        Err(
                            RlpError::ListLengthMismatch {
                                expected: len as usize,
                                got: (body.len() - rest.len()) as usize,
                            },
                        )
                    },
                },
            }
        },
    }
}

/// Reading entries until `payload` is used up, after the entries `acc`.
pub open spec fn items_decoding(payload: Seq<u8>, acc: Seq<AccessItemModel>) -> Result<
    Seq<AccessItemModel>,
    RlpError,
>
    decreases payload.len(),
{
    if payload.len() == 0 {
        Ok(acc)
    } else {
        match item_decoding(payload) {
            Err(e) => Err(e),
            Ok((item, rest)) => if rest.len() < payload.len() {
                items_decoding(rest, acc.push(item))
            } else {
                Err(RlpError::InputTooShort)
            },
        }
    }
}

/// Reading a whole access list from the front of `input`: the entries and the
/// bytes after the list.
pub open spec fn access_list_decoding(input: Seq<u8>) -> Result<
    (Seq<AccessItemModel>, Seq<u8>),
    RlpError,
> {
    match header_decoding(input) {
        Err(e) => Err(e),
        Ok((list, len, body)) => if !list {
            Err(RlpError::UnexpectedString)
        } else if body.len() < len {
            Err(RlpError::InputTooShort)
        } else {
            match items_decoding(body.subrange(0, len as int), Seq::empty()) {
                Err(e) => Err(e),
                Ok(items) => Ok((items, body.subrange(len as int, body.len() as int))),
            }
        },
    }
}

/// Appends `payload` as a list item.
pub fn put_list(out: &mut Vec<u8>, payload: &Vec<u8>)
    ensures
        final(out)@ == old(out)@ + list_bytes(payload@),
{
    put_header(out, true, payload.len());
    out.extend_from_slice(payload.as_slice());
}

/// Appends the storage keys one after another, without a header.
fn put_keys(out: &mut Vec<u8>, keys: &Vec<[u8; 32]>)
    ensures
        final(out)@ == old(out)@ + keys_payload(keys_model(keys@)),
{
    let ghost start = out@;
    let ghost model = keys_model(keys@);
    let mut i: usize = 0;
    while i < keys.len()
        invariant
            i <= keys.len(),
            model == keys_model(keys@),
            out@ == start + keys_payload(model.take(i as int)),
        decreases keys.len() - i,
    {
        proof {
            assert(model.take(i + 1).drop_last() =~= model.take(i as int));
            assert(model.take(i + 1).last() == keys[i as int]@);
        }
        put_fixed(out, &keys[i]);
        i += 1;
    }
    proof {
        assert(model.take(keys.len() as int) =~= model);
    }
}

/// Appends one entry of an access list.
pub fn put_item(out: &mut Vec<u8>, item: &AccessListItem)
    ensures
        final(out)@ == old(out)@ + item_bytes(item@),
{
    let mut keys: Vec<u8> = Vec::new();
    put_keys(&mut keys, &item.storage_keys);
    let mut body: Vec<u8> = Vec::new();
    put_fixed(&mut body, &item.address);
    put_list(&mut body, &keys);
    put_list(out, &body);
}

/// Appends an access list.
pub fn put_access_list(out: &mut Vec<u8>, items: &Vec<AccessListItem>)
    ensures
        final(out)@ == old(out)@ + access_list_bytes(list_model(items@)),
{
    let ghost model = list_model(items@);
    let mut body: Vec<u8> = Vec::new();
    let mut i: usize = 0;
    while i < items.len()
        invariant
            i <= items.len(),
            model == list_model(items@),
            body@ == items_payload(model.take(i as int)),
        decreases items.len() - i,
    {
        proof {
            assert(model.take(i + 1).drop_last() =~= model.take(i as int));
            assert(model.take(i + 1).last() == items[i as int]@);
        }
        put_item(&mut body, &items[i]);
        i += 1;
    }
    proof {
        assert(model.take(items.len() as int) =~= model);
    }
    put_list(out, &body);
}

/// A copy of the storage keys.
fn copy_keys(keys: &Vec<[u8; 32]>) -> (r: Vec<[u8; 32]>)
    ensures
        r@ == keys@,
{
    let mut r: Vec<[u8; 32]> = Vec::new();
    let mut i: usize = 0;
    while i < keys.len()
        invariant
            i <= keys.len(),
            r@ == keys@.take(i as int),
        decreases keys.len() - i,
    {
        let key: [u8; 32] = keys[i];
        r.push(key);
        i += 1;
        proof {
            assert(r@ =~= keys@.take(i as int));
        }
    }
    proof {
        assert(keys@.take(keys.len() as int) =~= keys@);
    }
    r
}

/// A copy of an access list, entry for entry.
pub fn copy_access_list(items: &Vec<AccessListItem>) -> (r: Vec<AccessListItem>)
    ensures
        list_model(r@) == list_model(items@),
{
    let mut r: Vec<AccessListItem> = Vec::new();
    let mut i: usize = 0;
    while i < items.len()
        invariant
            i <= items.len(),
            r@.len() == i,
            forall|j: int| 0 <= j < i ==> r@[j]@ == items@[j]@,
        decreases items.len() - i,
    {
        let item = &items[i];
        r.push(AccessListItem { address: item.address, storage_keys: copy_keys(&item.storage_keys) });
        i += 1;
    }
    proof {
        assert(list_model(r@) =~= list_model(items@));
    }
    r
}

/// Reads a list of storage keys from the front of `buf`.
#[verifier::loop_isolation(false)]
fn take_key_list<'a>(buf: &'a [u8]) -> (r: Result<(Vec<[u8; 32]>, &'a [u8]), RlpError>)
    ensures
        match r {
            Ok((keys, rest)) => key_list_decoding(buf@) == Ok::<(Seq<Seq<u8>>, Seq<u8>), RlpError>(
                (keys_model(keys@), rest@),
            ) && rest@.len() < buf@.len(),
            Err(e) => key_list_decoding(buf@) == Err::<(Seq<Seq<u8>>, Seq<u8>), RlpError>(e),
        },
{
    let (list, len, body) = match take_header(buf) {
        Ok(h) => h,
        Err(e) => { return Err(e); },
    };
    if !list {
        return Err(RlpError::UnexpectedString);
    }
    proof {
        lemma_header_decoding_bounds(buf@);
    }
    let payload = slice_subrange(body, 0, len);
    let rest = slice_subrange(body, len, body.len());
    let mut keys: Vec<[u8; 32]> = Vec::new();
    let mut left = payload;
    proof {
        assert(keys_model(keys@) =~= Seq::empty());
    }
    while left.len() > 0
        invariant
            keys_decoding(payload@, Seq::empty()) == keys_decoding(left@, keys_model(keys@)),
        decreases left@.len(),
    {
        match take_fixed::<32>(left) {
            Err(e) => { return Err(e); },
            Ok((key, after)) => {
                proof {
                    lemma_bytes_decoding_bounds(left@);
                    assert(keys_model(keys@.push(key)) =~= keys_model(keys@).push(key@));
                }
                keys.push(key);
                left = after;
            },
        }
    }
    Ok((keys, rest))
}

/// Reads one entry of an access list from the front of `buf`.
pub fn take_item<'a>(buf: &'a [u8]) -> (r: Result<(AccessListItem, &'a [u8]), RlpError>)
    ensures
        match r {
            Ok((item, rest)) => item_decoding(buf@) == Ok::<(AccessItemModel, Seq<u8>), RlpError>(
                (item@, rest@),
            ) && rest@.len() < buf@.len(),
            Err(e) => item_decoding(buf@) == Err::<(AccessItemModel, Seq<u8>), RlpError>(e),
        },
{
    let (list, len, body) = match take_header(buf) {
        Ok(h) => h,
        Err(e) => { return Err(e); },
    };
    if !list {
        return Err(RlpError::UnexpectedString);
    }
    proof {
        lemma_header_decoding_bounds(buf@);
    }
    let (address, after_address) = match take_fixed::<20>(body) {
        Ok(a) => a,
        Err(e) => { return Err(e); },
    };
    proof {
        lemma_bytes_decoding_bounds(body@);
    }
    let (storage_keys, rest) = match take_key_list(after_address) {
        Ok(k) => k,
        Err(e) => { return Err(e); },
    };
    let consumed: usize = body.len() - rest.len();
    if consumed != len {
        return Err(RlpError::ListLengthMismatch { expected: len, got: consumed });
    }
    Ok((AccessListItem { address, storage_keys }, rest))
}

/// Reads an access list from the front of `buf`.
#[verifier::loop_isolation(false)]
pub fn take_access_list<'a>(buf: &'a [u8]) -> (r: Result<
    (Vec<AccessListItem>, &'a [u8]),
    RlpError,
>)
    ensures
        match r {
            Ok((items, rest)) => access_list_decoding(buf@) == Ok::<
                (Seq<AccessItemModel>, Seq<u8>),
                RlpError,
            >((list_model(items@), rest@)) && rest@.len() < buf@.len(),
            Err(e) => access_list_decoding(buf@) == Err::<
                (Seq<AccessItemModel>, Seq<u8>),
                RlpError,
            >(e),
        },
{
    let (list, len, body) = match take_header(buf) {
        Ok(h) => h,
        Err(e) => { return Err(e); },
    };
    if !list {
        return Err(RlpError::UnexpectedString);
    }
    proof {
        lemma_header_decoding_bounds(buf@);
    }
    let payload = slice_subrange(body, 0, len);
    let rest = slice_subrange(body, len, body.len());
    let mut items: Vec<AccessListItem> = Vec::new();
    let mut left = payload;
    proof {
        assert(list_model(items@) =~= Seq::empty());
    }
    while left.len() > 0
        invariant
            items_decoding(payload@, Seq::empty()) == items_decoding(left@, list_model(items@)),
        decreases left@.len(),
    {
        match take_item(left) {
            Err(e) => { return Err(e); },
            Ok((item, after)) => {
                proof {
                    assert(list_model(items@.push(item)) =~= list_model(items@).push(item@));
                }
                items.push(item);
                left = after;
            },
        }
    }
    Ok((items, rest))
}

/// Whether every storage key has 32 bytes.
pub open spec fn keys_well_formed(keys: Seq<Seq<u8>>) -> bool {
    forall|i: int| 0 <= i < keys.len() ==> (#[trigger] keys[i]).len() == 32
}

/// Whether every address has 20 bytes and every storage key 32.
pub open spec fn items_well_formed(items: Seq<AccessItemModel>) -> bool {
    forall|i: int|
        0 <= i < items.len() ==> (#[trigger] items[i]).address.len() == 20 && keys_well_formed(
            items[i].storage_keys,
        )
}

/// The entries of an access list in memory are well formed.
pub proof fn lemma_list_model_well_formed(items: Seq<AccessListItem>)
    ensures
        items_well_formed(list_model(items)),
{
    assert forall|i: int| 0 <= i < items.len() implies (#[trigger] list_model(
        items,
    )[i]).address.len() == 20 && keys_well_formed(list_model(items)[i].storage_keys) by {
        assert(list_model(items)[i] == items[i]@);
    }
}

/// The keys one after another start with the first key.
proof fn lemma_keys_payload_front(keys: Seq<Seq<u8>>)
    requires
        keys.len() > 0,
    ensures
        keys_payload(keys) == string_bytes(keys[0]) + keys_payload(keys.skip(1)),
    decreases keys.len(),
{
    if keys.len() == 1 {
        assert(keys.drop_last() =~= Seq::<Seq<u8>>::empty());
        assert(keys.skip(1) =~= Seq::<Seq<u8>>::empty());
        assert(keys_payload(keys) =~= string_bytes(keys[0]) + keys_payload(keys.skip(1)));
    } else {
        lemma_keys_payload_front(keys.drop_last());
        assert(keys.skip(1).drop_last() =~= keys.drop_last().skip(1));
        assert(keys_payload(keys) =~= string_bytes(keys[0]) + keys_payload(keys.skip(1)));
    }
}

/// The entries one after another start with the first entry.
proof fn lemma_items_payload_front(items: Seq<AccessItemModel>)
    requires
        items.len() > 0,
    ensures
        items_payload(items) == item_bytes(items[0]) + items_payload(items.skip(1)),
    decreases items.len(),
{
    if items.len() == 1 {
        assert(items.drop_last() =~= Seq::<AccessItemModel>::empty());
        assert(items.skip(1) =~= Seq::<AccessItemModel>::empty());
        assert(items_payload(items) =~= item_bytes(items[0]) + items_payload(items.skip(1)));
    } else {
        lemma_items_payload_front(items.drop_last());
        assert(items.skip(1).drop_last() =~= items.drop_last().skip(1));
        assert(items_payload(items) =~= item_bytes(items[0]) + items_payload(items.skip(1)));
    }
}

/// Storage keys written one after another are read back, after the keys
/// that were read before them.
proof fn lemma_keys_read_back(keys: Seq<Seq<u8>>, acc: Seq<Seq<u8>>)
    requires
        keys_well_formed(keys),
    ensures
        keys_decoding(keys_payload(keys), acc) == Ok::<Seq<Seq<u8>>, RlpError>(acc + keys),
    decreases keys.len(),
{
    if keys.len() == 0 {
        assert(acc + keys =~= acc);
    } else {
        let tail = keys.skip(1);
        lemma_keys_payload_front(keys);
        assert(keys[0].len() == 32);
        lemma_fixed_read_back(32, keys[0], keys_payload(tail));
        assert forall|i: int| 0 <= i < tail.len() implies (#[trigger] tail[i]).len() == 32 by {
            assert(tail[i] == keys[i + 1]);
        }
        lemma_keys_read_back(tail, acc.push(keys[0]));
        assert(acc.push(keys[0]) + tail =~= acc + keys);
    }
}

/// A list of storage keys is read back as it was written.
proof fn lemma_key_list_read_back(keys: Seq<Seq<u8>>, rest: Seq<u8>)
    requires
        keys_well_formed(keys),
        keys_payload(keys).len() <= usize::MAX,
    ensures
        key_list_decoding(list_bytes(keys_payload(keys)) + rest) == Ok::<
            (Seq<Seq<u8>>, Seq<u8>),
            RlpError,
        >((keys, rest)),
{
    let payload = keys_payload(keys);
    let body = payload + rest;
    lemma_header_reads_back(true, payload.len(), body);
    assert(list_bytes(payload) + rest =~= header_bytes(true, payload.len()) + body);
    assert(body.subrange(0, payload.len() as int) =~= payload);
    assert(body.subrange(payload.len() as int, body.len() as int) =~= rest);
    lemma_keys_read_back(keys, Seq::empty());
    assert(Seq::<Seq<u8>>::empty() + keys =~= keys);
}

/// An entry of an access list is read back as it was written.
proof fn lemma_item_read_back(item: AccessItemModel, rest: Seq<u8>)
    requires
        item.address.len() == 20,
        keys_well_formed(item.storage_keys),
        item_bytes(item).len() <= usize::MAX,
    ensures
        item_decoding(item_bytes(item) + rest) == Ok::<(AccessItemModel, Seq<u8>), RlpError>(
            (item, rest),
        ),
{
    let address = string_bytes(item.address);
    let keys = list_bytes(keys_payload(item.storage_keys));
    let payload = address + keys;
    let body = payload + rest;
    lemma_header_reads_back(true, payload.len(), body);
    assert(item_bytes(item) + rest =~= header_bytes(true, payload.len()) + body);
    assert(body =~= address + (keys + rest));
    lemma_fixed_read_back(20, item.address, keys + rest);
    lemma_key_list_read_back(item.storage_keys, rest);
}

/// Entries written one after another are read back, after the entries
/// that were read before them.
proof fn lemma_items_read_back(items: Seq<AccessItemModel>, acc: Seq<AccessItemModel>)
    requires
        items_well_formed(items),
        items_payload(items).len() <= usize::MAX,
    ensures
        items_decoding(items_payload(items), acc) == Ok::<Seq<AccessItemModel>, RlpError>(
            acc + items,
        ),
    decreases items.len(),
{
    if items.len() == 0 {
        assert(acc + items =~= acc);
    } else {
        let tail = items.skip(1);
        lemma_items_payload_front(items);
        assert(items[0].address.len() == 20);
        lemma_item_read_back(items[0], items_payload(tail));
        assert forall|i: int| 0 <= i < tail.len() implies (#[trigger] tail[i]).address.len() == 20
            && keys_well_formed(tail[i].storage_keys) by {
            assert(tail[i] == items[i + 1]);
        }
        lemma_items_read_back(tail, acc.push(items[0]));
        assert(acc.push(items[0]) + tail =~= acc + items);
    }
}

/// An access list is read back as it was written, whatever follows it.
pub proof fn lemma_access_list_read_back(items: Seq<AccessItemModel>, rest: Seq<u8>)
    ensures
        items_well_formed(items) && items_payload(items).len() <= usize::MAX
            ==> access_list_decoding(access_list_bytes(items) + rest) == Ok::<
            (Seq<AccessItemModel>, Seq<u8>),
            RlpError,
        >((items, rest)),
{
    if items_well_formed(items) && items_payload(items).len() <= usize::MAX {
        let payload = items_payload(items);
        let body = payload + rest;
            lemma_header_reads_back(true, payload.len(), body);
        assert(access_list_bytes(items) + rest =~= header_bytes(true, payload.len()) + body);
        assert(body.subrange(0, payload.len() as int) =~= payload);
        assert(body.subrange(payload.len() as int, body.len() as int) =~= rest);
        lemma_items_read_back(items, Seq::empty());
        assert(Seq::<AccessItemModel>::empty() + items =~= items);
    }
}

} // verus!
