use crate::fault::StorageFault;
use vstd::prelude::*;

verus! {

/// A value type that can be stored: an encoding into bytes, total over the
/// encodable values, and a decoding that may fault on malformed bytes.
///
/// `spec_decode` is the decoder as a function of the bytes alone, so
/// `decode`'s contract forces a fault exactly where that function rejects
/// the buffer: a fault can never be swallowed into a made-up value.
/// Encoding a value and decoding the result round-trips.
pub trait StorageCodec: View + Sized {
    /// Whether the codec can encode a value with view `v` at all (a
    /// collection codec caps the item count).
    spec fn encodable(v: Self::V) -> bool;

    /// The bytes that `encode` produces for a value with view `v`.
    spec fn spec_encode(v: Self::V) -> Seq<u8>;

    /// What decoding a buffer yields: the decoded value's view, or `None`
    /// where the buffer is rejected.
    spec fn spec_decode(bytes: Seq<u8>) -> Option<Self::V>;

    fn encode(&self) -> (r: Vec<u8>)
        requires
            Self::encodable(self@),
        ensures
            r@ == Self::spec_encode(self@),
            Self::spec_decode(r@) == Some(self@),
    ;

    fn decode(bytes: &[u8]) -> (r: Result<Self, StorageFault>)
        ensures
            match r {
                Ok(v) => Self::spec_decode(bytes@) == Some(v@),
                Err(e) => {
                    &&& Self::spec_decode(bytes@) is None
                    &&& e == StorageFault::DecodeFault
                },
            },
    ;
}

/// A collection value whose encoding can be extended with further encoded
/// items without decoding the items already stored.
pub trait EncodeAppend: StorageCodec {
    /// The item the collection holds.
    type Item;

    /// The view of the collection built from `items` alone.
    spec fn from_items(items: Seq<Self::Item>) -> Self::V;

    /// The view of the collection `v` with `items` appended.
    spec fn appended(v: Self::V, items: Seq<Self::Item>) -> Self::V;

    /// How many items the collection `v` holds.
    spec fn item_count(v: Self::V) -> nat;

    /// What the splice returns on a given buffer and item run: `Some` with
    /// the new buffer where it goes through, `None` where it is rejected.
    spec fn spec_splice(existing: Seq<u8>, items: Seq<Self::Item>) -> Option<Seq<u8>>;

    /// Splice `items` onto the encoded buffer `existing`; an empty buffer
    /// stands for the collection with no items.
    fn append_encoded(existing: Vec<u8>, items: &[Self::Item]) -> (r: Result<
        Vec<u8>,
        StorageFault,
    >)
        ensures
            match r {
                Ok(out) => {
                    &&& Self::spec_splice(existing@, items@) == Some(out@)
                    &&& existing@.len() == 0 ==> out@ == Self::spec_encode(
                        Self::from_items(items@),
                    ) && Self::spec_decode(out@) == Some(Self::from_items(items@))
                    &&& forall|s: Self::V|
                        (#[trigger] Self::spec_encode(s)) == existing@ && items@.len()
                            <= u32::MAX ==> out@ == Self::spec_encode(Self::appended(s, items@))
                            && Self::spec_decode(out@) == Some(Self::appended(s, items@))
                },
                Err(e) => {
                    &&& Self::spec_splice(existing@, items@) is None
                    &&& e == StorageFault::AppendSpliceFault
                },
            },
            existing@.len() == 0 && items@.len() <= u32::MAX ==> r is Ok,
            (exists|s: Self::V|
                (#[trigger] Self::spec_encode(s)) == existing@ && Self::item_count(s)
                    + items@.len() <= u32::MAX) ==> r is Ok,
    ;

    /// Build the collection that holds exactly `items`.
    fn collect_items(items: &[Self::Item]) -> (v: Self)
        ensures
            v@ == Self::from_items(items@),
    ;
}

/// A collection value whose stored item count can be read off its encoding
/// without decoding the items, and off the value itself.
///
/// `spec_decode_len` is the length reading as a function of the bytes
/// alone, so `decode_len_raw` faults exactly where that function rejects
/// the buffer (or its count cannot fit the machine): a rejected buffer can
/// never be approximated as a count.
pub trait DecodeLength: StorageCodec {
    /// How many items the collection `v` holds.
    spec fn item_len(v: Self::V) -> nat;

    /// What the length-only reading of a buffer yields: the item count, or
    /// `None` where the buffer's length prefix is rejected.
    spec fn spec_decode_len(bytes: Seq<u8>) -> Option<nat>;

    /// Read the item count from an encoded buffer alone.
    fn decode_len_raw(bytes: &[u8]) -> (r: Result<usize, StorageFault>)
        ensures
            match r {
                Ok(n) => Self::spec_decode_len(bytes@) == Some(n as nat) && (forall|s: Self::V|
                    bytes@ == Self::spec_encode(s) ==> n == Self::item_len(s)),
                Err(e) => (Self::spec_decode_len(bytes@) matches Some(c) ==> c > usize::MAX) && e
                    == StorageFault::DecodeFault,
            },
            (exists|s: Self::V|
                bytes@ == (#[trigger] Self::spec_encode(s)) && Self::item_len(s)
                    <= usize::MAX) ==> r is Ok,
    ;

    /// The item count of the value itself.
    fn len(&self) -> (n: usize)
        ensures
            n == Self::item_len(self@),
    ;
}

/// The bytes that SCALE's `encode` produces for a `Vec<u32>` with the given
/// items: a compact length prefix followed by each item in little-endian.
pub uninterp spec fn scale_encode_u32s(items: Seq<u32>) -> Seq<u8>;

/// What SCALE's `decode` returns for a `Vec<u32>` buffer: `Some` with the
/// decoded items, `None` where the buffer is rejected.  A function of the
/// bytes alone.
pub uninterp spec fn scale_decode_u32s(bytes: Seq<u8>) -> Option<Seq<u32>>;

/// The item count SCALE's length-only decode reads off a `Vec<u32>`
/// buffer's compact prefix: `Some` with the count where the prefix parses,
/// `None` where it is rejected.  A function of the bytes alone.
pub uninterp spec fn scale_len_u32s(bytes: Seq<u8>) -> Option<nat>;

/// What SCALE's append-without-decode returns for a `Vec<u32>` buffer:
/// `Some` with the new buffer where the splice goes through, `None` where
/// the buffer's length prefix is rejected.
pub uninterp spec fn scale_splice_u32s(existing: Seq<u8>, items: Seq<u32>) -> Option<Seq<u8>>;

/// Relies on `parity_scale_codec::Encode::encode` for `Vec<u32>`: the
/// encoding of up to `u32::MAX` items always succeeds, and `decode` of the
/// result returns the items back.  Longer vectors are refused by the
/// format, and their encoding panics, so they are excluded here.
#[verifier::external_body]
fn pc_encode_u32s(v: &Vec<u32>) -> (r: Vec<u8>)
    requires
        v@.len() <= u32::MAX,
    ensures
        r@ == scale_encode_u32s(v@),
        scale_decode_u32s(r@) == Some(v@),
{
    parity_scale_codec::Encode::encode(v)
}

/// Relies on `parity_scale_codec::Decode::decode` for `Vec<u32>`: a
/// deterministic function of the input bytes, returning the decoded items
/// or rejecting the buffer.
#[verifier::external_body]
fn pc_decode_u32s(bytes: &[u8]) -> (r: Result<Vec<u32>, StorageFault>)
    ensures
        match r {
            Ok(v) => scale_decode_u32s(bytes@) == Some(v@),
            Err(e) => {
                &&& scale_decode_u32s(bytes@) is None
                &&& e == StorageFault::DecodeFault
            },
        },
{
    let mut input: &[u8] = bytes;
    match <Vec<u32> as parity_scale_codec::Decode>::decode(&mut input) {
        Ok(v) => Ok(v),
        Err(_) => Err(StorageFault::DecodeFault),
    }
}

/// Relies on `parity_scale_codec::EncodeAppend::append_or_new` for
/// `Vec<u32>`: an empty buffer becomes the encoding of `items` alone; a
/// buffer holding a valid encoding becomes the encoding of the old items
/// followed by the new ones, and either way the result decodes back to
/// those items; the splice is only rejected when the length
/// prefix cannot be read or the item counts overflow 32 bits.  Its one
/// further failure arm doubles the buffer's length, which cannot overflow:
/// a vector's allocation is capped at `isize::MAX` bytes.
#[verifier::external_body]
fn pc_append_u32s(existing: Vec<u8>, items: &[u32]) -> (r: Result<Vec<u8>, StorageFault>)
    ensures
        match r {
            Ok(out) => {
                &&& scale_splice_u32s(existing@, items@) == Some(out@)
                &&& existing@.len() == 0 ==> out@ == scale_encode_u32s(items@)
                    && scale_decode_u32s(out@) == Some(items@)
                &&& forall|s: Seq<u32>|
                    (#[trigger] scale_encode_u32s(s)) == existing@ && items@.len()
                        <= u32::MAX ==> out@ == scale_encode_u32s(s + items@)
                        && scale_decode_u32s(out@) == Some(s + items@)
            },
            Err(e) => {
                &&& scale_splice_u32s(existing@, items@) is None
                &&& e == StorageFault::AppendSpliceFault
            },
        },
        existing@.len() == 0 && items@.len() <= u32::MAX ==> r is Ok,
        (exists|s: Seq<u32>|
            (#[trigger] scale_encode_u32s(s)) == existing@ && s.len() + items@.len()
                <= u32::MAX) ==> r is Ok,
{
    match <Vec<u32> as parity_scale_codec::EncodeAppend>::append_or_new(existing, items.iter()) {
        Ok(out) => Ok(out),
        Err(_) => Err(StorageFault::AppendSpliceFault),
    }
}

/// Relies on `parity_scale_codec::DecodeLength::len` for `Vec<u32>`: it
/// reads the compact length prefix alone, a function of the bytes, and
/// faults exactly where the prefix is rejected or the count cannot fit the
/// machine; on a buffer that `encode` produced the count is the item
/// count.
#[verifier::external_body]
fn pc_decode_len_u32s(bytes: &[u8]) -> (r: Result<usize, StorageFault>)
    ensures
        match r {
            Ok(n) => scale_len_u32s(bytes@) == Some(n as nat) && (forall|s: Seq<u32>|
                bytes@ == scale_encode_u32s(s) ==> n == s.len()),
            Err(e) => (scale_len_u32s(bytes@) matches Some(c) ==> c > usize::MAX) && e
                == StorageFault::DecodeFault,
        },
        (exists|s: Seq<u32>|
            bytes@ == (#[trigger] scale_encode_u32s(s)) && s.len() <= usize::MAX) ==> r is Ok,
{
    match <Vec<u32> as parity_scale_codec::DecodeLength>::len(bytes) {
        Ok(n) => Ok(n),
        Err(_) => Err(StorageFault::DecodeFault),
    }
}

impl StorageCodec for Vec<u32> {
    open spec fn encodable(v: Seq<u32>) -> bool {
        v.len() <= u32::MAX
    }

    open spec fn spec_encode(v: Seq<u32>) -> Seq<u8> {
        scale_encode_u32s(v)
    }

    open spec fn spec_decode(bytes: Seq<u8>) -> Option<Seq<u32>> {
        scale_decode_u32s(bytes)
    }

    fn encode(&self) -> (r: Vec<u8>) {
        pc_encode_u32s(self)
    }

    fn decode(bytes: &[u8]) -> (r: Result<Self, StorageFault>) {
        pc_decode_u32s(bytes)
    }
}

impl EncodeAppend for Vec<u32> {
    type Item = u32;

    open spec fn from_items(items: Seq<u32>) -> Seq<u32> {
        items
    }

    open spec fn appended(v: Seq<u32>, items: Seq<u32>) -> Seq<u32> {
        v + items
    }

    open spec fn item_count(v: Seq<u32>) -> nat {
        v.len()
    }

    open spec fn spec_splice(existing: Seq<u8>, items: Seq<u32>) -> Option<Seq<u8>> {
        scale_splice_u32s(existing, items)
    }

    fn append_encoded(existing: Vec<u8>, items: &[u32]) -> (r: Result<Vec<u8>, StorageFault>) {
        pc_append_u32s(existing, items)
    }

    fn collect_items(items: &[u32]) -> (v: Self) {
        vstd::slice::slice_to_vec(items)
    }
}

impl DecodeLength for Vec<u32> {
    open spec fn item_len(v: Seq<u32>) -> nat {
        v.len()
    }

    open spec fn spec_decode_len(bytes: Seq<u8>) -> Option<nat> {
        scale_len_u32s(bytes)
    }

    fn decode_len_raw(bytes: &[u8]) -> (r: Result<usize, StorageFault>) {
        pc_decode_len_u32s(bytes)
    }

    fn len(&self) -> (n: usize) {
        Vec::len(self)
    }
}

/// The bytes SCALE stores a `u32` as: the four bytes of the value, least
/// significant first.
pub open spec fn u32_le_bytes(v: u32) -> Seq<u8> {
    seq![
        (v & 0xff) as u8,
        ((v >> 8) & 0xff) as u8,
        ((v >> 16) & 0xff) as u8,
        ((v >> 24) & 0xff) as u8,
    ]
}

/// The `u32` held by four little-endian bytes.
pub open spec fn u32_from_le_bytes(bytes: Seq<u8>) -> u32 {
    (bytes[0] as u32) | ((bytes[1] as u32) << 8) | ((bytes[2] as u32) << 16) | ((bytes[3]
        as u32) << 24)
}

impl StorageCodec for u32 {
    open spec fn encodable(v: u32) -> bool {
        true
    }

    open spec fn spec_encode(v: u32) -> Seq<u8> {
        u32_le_bytes(v)
    }

    open spec fn spec_decode(bytes: Seq<u8>) -> Option<u32> {
        if bytes.len() == 4 {
            Some(u32_from_le_bytes(bytes))
        } else {
            None
        }
    }

    fn encode(&self) -> (r: Vec<u8>) {
        let v: u32 = *self;
        let mut r: Vec<u8> = Vec::new();
        r.push((v & 0xff) as u8);
        r.push(((v >> 8) & 0xff) as u8);
        r.push(((v >> 16) & 0xff) as u8);
        r.push(((v >> 24) & 0xff) as u8);
        proof {
            assert(r@ =~= u32_le_bytes(v));
            assert(((v & 0xff) as u8 as u32) | ((((v >> 8) & 0xff) as u8 as u32) << 8) | ((((v
                >> 16) & 0xff) as u8 as u32) << 16) | ((((v >> 24) & 0xff) as u8 as u32) << 24)
                == v) by (bit_vector);
            assert(u32_from_le_bytes(r@) == v);
        }
        r
    }

    fn decode(bytes: &[u8]) -> (r: Result<Self, StorageFault>) {
        if bytes.len() != 4 {
            return Err(StorageFault::DecodeFault);
        }
        let b0 = bytes[0];
        let b1 = bytes[1];
        let b2 = bytes[2];
        let b3 = bytes[3];
        let v: u32 = (b0 as u32) | ((b1 as u32) << 8) | ((b2 as u32) << 16) | ((b3 as u32) << 24);
        proof {
            assert(u32_from_le_bytes(bytes@) == v);
        }
        Ok(v)
    }
}

} // verus!
