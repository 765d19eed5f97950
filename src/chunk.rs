use vstd::prelude::*;
use vstd::string::StringExecFns;
use vstd::slice::slice_subrange;
use vstd::utf8::{decode_utf8, encode_utf8, valid_utf8};

use crate::checksum::{checksum_ieee, crc32_ieee};
use crate::chunk_type::{all_letters, bytes_of_chars, chars_of_bytes, is_tag_text, ChunkType};
use crate::error::Error;
use crate::text::{decimal, push_decimal, string_from_utf8};

verus! {

/// The smallest record: length, type and checksum fields around an empty payload.
pub const MIN_RECORD_LEN: usize = 16;

/// The four bytes of `n`, most significant first.
pub open spec fn be_bytes(n: u32) -> Seq<u8> {
    seq![(n >> 24u32) as u8, (n >> 16u32) as u8, (n >> 8u32) as u8, n as u8]
}

/// The number that four bytes, most significant first, stand for.
pub open spec fn be_value(b: Seq<u8>) -> u32 {
    ((b[0] as u32) << 24u32) | ((b[1] as u32) << 16u32) | ((b[2] as u32) << 8u32) | (b[3] as u32)
}

/// The checksum of a record: over its type bytes followed by its payload.
pub open spec fn record_crc(chunk_type: Seq<u8>, data: Seq<u8>) -> u32 {
    crc32_ieee(chunk_type + data)
}

/// The record on the wire: length, type, payload, checksum.
pub open spec fn encode_record(chunk_type: Seq<u8>, data: Seq<u8>) -> Seq<u8> {
    be_bytes(data.len() as u32) + chunk_type + data + be_bytes(record_crc(chunk_type, data))
}

/// The payload length that a buffer declares in its first four bytes.
pub open spec fn declared_length(b: Seq<u8>) -> u32 {
    be_value(b.subrange(0, 4))
}

/// The type field of a buffer: bytes 4 to 8.
pub open spec fn type_field(b: Seq<u8>) -> Seq<u8> {
    b.subrange(4, 8)
}

/// The declared payload and the checksum field after it fit in the buffer.
pub open spec fn length_fits(b: Seq<u8>) -> bool {
    declared_length(b) + 12 <= b.len()
}

/// The payload of a buffer whose declared length fits.
pub open spec fn payload_field(b: Seq<u8>) -> Seq<u8> {
    b.subrange(8, 8 + declared_length(b))
}

/// The checksum that a buffer whose declared length fits declares after its payload.
pub open spec fn crc_field(b: Seq<u8>) -> u32 {
    be_value(b.subrange(8 + declared_length(b), 12 + declared_length(b)))
}

/// The first framing check that a buffer fails, if any: it is shorter than
/// the smallest record, its type field is not four ASCII letters, or its
/// declared payload and checksum run past its end.
pub open spec fn frame_error(b: Seq<u8>) -> Option<Error> {
    if b.len() < MIN_RECORD_LEN {
        Some(Error::InputTooSmall(b.len() as usize))
    } else if !all_letters(type_field(b)) {
        Some(Error::ChunkTypeNotValid)
    } else if !length_fits(b) {
        Some(Error::LengthOutOfBounds(declared_length(b)))
    } else {
        None
    }
}

/// What decoding a buffer gives: the type bytes and payload of the record at
/// its start, or the first check that fails, the checksum coming last.
pub open spec fn decode_record(b: Seq<u8>) -> Result<(Seq<u8>, Seq<u8>), Error> {
    if let Some(e) = frame_error(b) {
        Err(e)
    } else if record_crc(type_field(b), payload_field(b)) != crc_field(b) {
        Err(Error::CrcMismatch(record_crc(type_field(b), payload_field(b)), crc_field(b)))
    } else {
        Ok((type_field(b), payload_field(b)))
    }
}

/// Reading back the four bytes of `n` gives `n`.
pub proof fn lemma_be_round_trip(n: u32)
    ensures
        be_value(be_bytes(n)) == n,
{
    assert(((((n >> 24u32) as u8) as u32) << 24u32) | ((((n >> 16u32) as u8) as u32) << 16u32)
        | ((((n >> 8u32) as u8) as u32) << 8u32) | ((n as u8) as u32) == n) by (bit_vector);
}

/// Four bytes stand for one number only.
pub proof fn lemma_be_injective(x: Seq<u8>, y: Seq<u8>)
    requires
        x.len() == 4,
        y.len() == 4,
        be_value(x) == be_value(y),
    ensures
        x == y,
{
    let (x0, x1, x2, x3) = (x[0], x[1], x[2], x[3]);
    let (y0, y1, y2, y3) = (y[0], y[1], y[2], y[3]);
    assert(((x0 as u32) << 24u32) | ((x1 as u32) << 16u32) | ((x2 as u32) << 8u32) | (x3 as u32)
        == ((y0 as u32) << 24u32) | ((y1 as u32) << 16u32) | ((y2 as u32) << 8u32) | (y3 as u32)
        ==> x0 == y0 && x1 == y1 && x2 == y2 && x3 == y3) by (bit_vector);
    assert(x =~= y);
}

/// `b` with bit `bit` of the byte at `i` flipped.
pub open spec fn flip_bit(b: Seq<u8>, i: int, bit: u8) -> Seq<u8> {
    b.update(i, b[i] ^ (1u8 << bit))
}

proof fn lemma_flip_changes(x: u8, bit: u8)
    requires
        bit < 8,
    ensures
        x ^ (1u8 << bit) != x,
{
    assert(bit < 8 ==> x ^ (1u8 << bit) != x) by (bit_vector);
}

/// The fields of a record's wire form are its length, type, payload and checksum.
proof fn lemma_encode_fields(chunk_type: Seq<u8>, data: Seq<u8>)
    requires
        chunk_type.len() == 4,
        data.len() <= u32::MAX,
    ensures
        ({
            let b = encode_record(chunk_type, data);
            let n = data.len() as int;
            &&& b.len() == n + 12
            &&& declared_length(b) == n
            &&& type_field(b) == chunk_type
            &&& length_fits(b)
            &&& payload_field(b) == data
            &&& b.subrange(8 + n, 12 + n) == be_bytes(record_crc(chunk_type, data))
            &&& crc_field(b) == record_crc(chunk_type, data)
        }),
{
    let b = encode_record(chunk_type, data);
    let n = data.len() as u32;
    let crc = record_crc(chunk_type, data);
    lemma_be_round_trip(n);
    lemma_be_round_trip(crc);
    assert(b.subrange(0, 4) =~= be_bytes(n));
    assert(type_field(b) =~= chunk_type);
    assert(payload_field(b) =~= data);
    assert(b.subrange(8 + n, 12 + n) =~= be_bytes(crc));
}

/// Decoding a buffer that starts with the wire form of a well-formed record
/// gives back its type bytes and payload, whatever follows the record, once
/// the buffer is not shorter than the smallest record.
pub proof fn lemma_decode_encoded_prefix(chunk_type: Seq<u8>, data: Seq<u8>, rest: Seq<u8>)
    requires
        all_letters(chunk_type),
        data.len() <= u32::MAX,
        data.len() + 12 + rest.len() >= MIN_RECORD_LEN,
    ensures
        decode_record(encode_record(chunk_type, data) + rest) == Ok::<
            (Seq<u8>, Seq<u8>),
            Error,
        >((chunk_type, data)),
{
    let b = encode_record(chunk_type, data);
    let x = b + rest;
    let n = data.len() as int;
    lemma_encode_fields(chunk_type, data);
    assert(x.subrange(0, 4) =~= b.subrange(0, 4));
    assert(type_field(x) =~= type_field(b));
    assert(payload_field(x) =~= payload_field(b));
    assert(x.subrange(8 + n, 12 + n) =~= b.subrange(8 + n, 12 + n));
}

/// Decoding the wire form of a well-formed record whose payload has at least
/// four bytes gives back its type bytes and payload, and so its length and
/// checksum, which follow from them. (With a shorter payload the wire form is
/// under the smallest record and is refused as too small.)
pub proof fn lemma_round_trip(chunk_type: Seq<u8>, data: Seq<u8>)
    requires
        all_letters(chunk_type),
        4 <= data.len() <= u32::MAX,
    ensures
        decode_record(encode_record(chunk_type, data)) == Ok::<(Seq<u8>, Seq<u8>), Error>(
            (chunk_type, data),
        ),
{
    lemma_decode_encoded_prefix(chunk_type, data, Seq::<u8>::empty());
    assert(encode_record(chunk_type, data) + Seq::<u8>::empty() =~= encode_record(
        chunk_type,
        data,
    ));
}

/// A 16-byte buffer that holds a record with an empty payload, followed by
/// four bytes of anything, decodes to that type and an empty payload.
pub proof fn lemma_smallest_buffer(chunk_type: Seq<u8>, rest: Seq<u8>)
    requires
        all_letters(chunk_type),
        rest.len() == 4,
    ensures
        (encode_record(chunk_type, Seq::<u8>::empty()) + rest).len() == MIN_RECORD_LEN,
        decode_record(encode_record(chunk_type, Seq::<u8>::empty()) + rest) == Ok::<
            (Seq<u8>, Seq<u8>),
            Error,
        >((chunk_type, Seq::<u8>::empty())),
{
    lemma_encode_fields(chunk_type, Seq::<u8>::empty());
    lemma_decode_encoded_prefix(chunk_type, Seq::<u8>::empty(), rest);
}

/// The checksum of a record is fixed by its type bytes and payload: records
/// built from equal types and payloads carry equal checksums.
pub proof fn lemma_crc_deterministic(a: Chunk, b: Chunk)
    requires
        a.type_bytes() == b.type_bytes(),
        a.payload() == b.payload(),
    ensures
        a.crc_spec() == b.crc_spec(),
{
}

/// Flipping one bit of the declared checksum in the wire form of a record
/// whose payload has at least four bytes makes
/// decoding fail with `CrcMismatch`, naming the checksum of the record and the
/// altered one.
pub proof fn lemma_flipped_crc_rejected(chunk_type: Seq<u8>, data: Seq<u8>, k: int, bit: u8)
    requires
        all_letters(chunk_type),
        4 <= data.len() <= u32::MAX,
        0 <= k < 4,
        bit < 8,
    ensures
        ({
            let x = flip_bit(encode_record(chunk_type, data), 8 + data.len() + k, bit);
            &&& crc_field(x) != record_crc(chunk_type, data)
            &&& decode_record(x) == Err::<(Seq<u8>, Seq<u8>), Error>(
                Error::CrcMismatch(record_crc(chunk_type, data), crc_field(x)),
            )
        }),
{
    let b = encode_record(chunk_type, data);
    let n = data.len() as int;
    let i = 8 + n + k;
    let x = flip_bit(b, i, bit);
    lemma_encode_fields(chunk_type, data);
    lemma_flip_changes(b[i], bit);
    assert(x.subrange(0, 4) =~= b.subrange(0, 4));
    assert(type_field(x) =~= type_field(b));
    assert(payload_field(x) =~= payload_field(b));
    let f = x.subrange(8 + n, 12 + n);
    assert(f[k] != b.subrange(8 + n, 12 + n)[k]);
    if crc_field(x) == record_crc(chunk_type, data) {
        lemma_be_round_trip(record_crc(chunk_type, data));
        lemma_be_injective(f, be_bytes(record_crc(chunk_type, data)));
    }
}

/// Flipping one bit of the payload in the wire form of a record whose payload
/// has at least four bytes alters the payload,
/// and decoding then fails with `CrcMismatch` unless the checksum of the
/// altered payload equals that of the original.
pub proof fn lemma_flipped_payload_rejected(chunk_type: Seq<u8>, data: Seq<u8>, j: int, bit: u8)
    requires
        all_letters(chunk_type),
        4 <= data.len() <= u32::MAX,
        0 <= j < data.len(),
        bit < 8,
    ensures
        ({
            let x = flip_bit(encode_record(chunk_type, data), 8 + j, bit);
            let altered = flip_bit(data, j, bit);
            &&& altered != data
            &&& record_crc(chunk_type, altered) != record_crc(chunk_type, data)
                ==> decode_record(x) == Err::<(Seq<u8>, Seq<u8>), Error>(
                Error::CrcMismatch(
                    record_crc(chunk_type, altered),
                    record_crc(chunk_type, data),
                ),
            )
        }),
{
    let b = encode_record(chunk_type, data);
    let n = data.len() as int;
    let x = flip_bit(b, 8 + j, bit);
    let altered = flip_bit(data, j, bit);
    lemma_encode_fields(chunk_type, data);
    lemma_flip_changes(data[j], bit);
    assert(altered[j] != data[j]);
    assert(x.subrange(0, 4) =~= b.subrange(0, 4));
    assert(type_field(x) =~= type_field(b));
    assert(payload_field(x) =~= altered);
    assert(x.subrange(8 + n, 12 + n) =~= b.subrange(8 + n, 12 + n));
}

/// Reads four bytes at `at`, most significant first.
fn read_be_u32(b: &[u8], at: usize) -> (r: u32)
    requires
        at + 4 <= b@.len(),
    ensures
        r == be_value(b@.subrange(at as int, at + 4)),
{
    ((b[at] as u32) << 24u32) | ((b[at + 1] as u32) << 16u32) | ((b[at + 2] as u32) << 8u32) | (
    b[at + 3] as u32)
}

/// Appends the four bytes of `n`, most significant first.
fn push_be_u32(out: &mut Vec<u8>, n: u32)
    ensures
        final(out)@ == old(out)@ + be_bytes(n),
{
    out.push((n >> 24u32) as u8);
    out.push((n >> 16u32) as u8);
    out.push((n >> 8u32) as u8);
    out.push(n as u8);
    assert(final(out)@ =~= old(out)@ + be_bytes(n));
}

/// Appends the bytes of `src`.
fn push_bytes(out: &mut Vec<u8>, src: &[u8])
    ensures
        final(out)@ == old(out)@ + src@,
{
    let mut i: usize = 0;
    while i < src.len()
        invariant
            0 <= i <= src@.len(),
            out@ =~= old(out)@ + src@.take(i as int),
        decreases src@.len() - i,
    {
        out.push(src[i]);
        i += 1;
        assert(src@.take(i as int) =~= src@.take(i - 1).push(src@[i - 1]));
    }
    assert(src@.take(src@.len() as int) =~= src@);
}

/// The checksum of type bytes followed by payload.
fn compute_crc(chunk_type: &ChunkType, data: &[u8]) -> (r: u32)
    ensures
        r == record_crc(chunk_type@, data@),
{
    let ty = chunk_type.bytes();
    let mut covered: Vec<u8> = Vec::new();
    push_bytes(&mut covered, ty.as_slice());
    push_bytes(&mut covered, data);
    checksum_ieee(covered.as_slice())
}

/// Splits the record at the start of `value` into its type, its payload and
/// the checksum it declares, checking in this order that the buffer holds at
/// least the smallest record, that the type field is four ASCII letters and
/// that the declared payload and checksum fit in the buffer. The checksum
/// itself is not checked here.
pub fn parse_frame(value: &[u8]) -> (r: Result<(ChunkType, &[u8], u32), Error>)
    ensures
        match r {
            Ok((t, data, declared)) => {
                &&& frame_error(value@) is None
                &&& t@ == type_field(value@)
                &&& data@ == payload_field(value@)
                &&& declared == crc_field(value@)
            },
            Err(e) => frame_error(value@) == Some(e),
        },
{
    let len = value.len();
    if len < MIN_RECORD_LEN {
        return Err(Error::InputTooSmall(len));
    }
    let data_length = read_be_u32(value, 0);
    let ty = [value[4], value[5], value[6], value[7]];
    assert(ty@ =~= type_field(value@));
    let chunk_type = match ChunkType::from_bytes(ty) {
        Ok(t) => t,
        Err(_) => return Err(Error::ChunkTypeNotValid),
    };
    let n = data_length as usize;
    if n > len - 12 {
        return Err(Error::LengthOutOfBounds(data_length));
    }
    let data = slice_subrange(value, 8, 8 + n);
    let declared = read_be_u32(value, 8 + n);
    Ok((chunk_type, data, declared))
}

/// A record: a payload of bytes tagged with a chunk type and protected by the
/// checksum of both.
#[derive(Debug)]
pub struct Chunk {
    length: u32,
    chunk_type: ChunkType,
    data: Vec<u8>,
    crc: u32,
}

impl Chunk {
    #[verifier::type_invariant]
    spec fn consistent(&self) -> bool {
        &&& self.length as int == self.data@.len()
        &&& self.crc == record_crc(self.chunk_type@, self.data@)
    }

    /// The type bytes of the record.
    pub closed spec fn type_bytes(&self) -> Seq<u8> {
        self.chunk_type@
    }

    /// The payload of the record.
    pub closed spec fn payload(&self) -> Seq<u8> {
        self.data@
    }

    /// Builds a record from a type and a payload, computing its checksum.
    pub fn new(chunk_type: ChunkType, data: Vec<u8>) -> (r: Chunk)
        requires
            data@.len() <= u32::MAX,
        ensures
            r.type_bytes() == chunk_type@,
            r.payload() == data@,
    {
        let crc = compute_crc(&chunk_type, data.as_slice());
        Chunk { length: data.len() as u32, chunk_type, data, crc }
    }

    /// Decodes and checks one record at the start of `value`; bytes after it
    /// are ignored. The framing is checked first (see `parse_frame`), the
    /// checksum last.
    pub fn try_from_bytes(value: &[u8]) -> (r: Result<Chunk, Error>)
        ensures
            value@.len() < MIN_RECORD_LEN ==> r == Err::<Chunk, Error>(
                Error::InputTooSmall(value@.len() as usize),
            ),
            r matches Ok(c) ==> decode_record(value@) == Ok::<(Seq<u8>, Seq<u8>), Error>(
                (c.type_bytes(), c.payload()),
            ),
            r matches Err(e) ==> decode_record(value@) == Err::<(Seq<u8>, Seq<u8>), Error>(e),
    {
        let (chunk_type, data, declared) = match parse_frame(value) {
            Ok(frame) => frame,
            Err(e) => return Err(e),
        };
        let crc = compute_crc(&chunk_type, data);
        if crc != declared {
            return Err(Error::CrcMismatch(crc, declared));
        }
        let mut owned: Vec<u8> = Vec::new();
        push_bytes(&mut owned, data);
        assert(owned@ =~= data@);
        Ok(Chunk { length: data.len() as u32, chunk_type, data: owned, crc })
    }

    /// The payload length.
    pub fn length(&self) -> (r: u32)
        ensures
            r as int == self.payload().len(),
    {
        proof {
            use_type_invariant(self);
        }
        self.length
    }

    /// The type of the record.
    pub fn chunk_type(&self) -> (r: &ChunkType)
        ensures
            r@ == self.type_bytes(),
    {
        &self.chunk_type
    }

    /// The payload.
    pub fn data(&self) -> (r: &[u8])
        ensures
            r@ == self.payload(),
    {
        self.data.as_slice()
    }

    /// The checksum over type bytes and payload.
    pub fn crc(&self) -> (r: u32)
        ensures
            r == self.crc_spec(),
    {
        proof {
            use_type_invariant(self);
        }
        self.crc
    }

    /// The payload decoded as UTF-8 text; `Utf8DecodeFailure` if it is not
    /// valid UTF-8.
    pub fn data_as_string(&self) -> (r: Result<String, Error>)
        ensures
            valid_utf8(self.payload()) ==> (r matches Ok(s) && s@ == decode_utf8(self.payload())),
            !valid_utf8(self.payload()) ==> r == Err::<String, Error>(Error::Utf8DecodeFailure),
    {
        let mut bytes: Vec<u8> = Vec::new();
        push_bytes(&mut bytes, self.data.as_slice());
        assert(bytes@ =~= self.data@);
        match string_from_utf8(bytes) {
            Some(s) => Ok(s),
            None => Err(Error::Utf8DecodeFailure),
        }
    }

    /// The whole record as it stands on the wire. Where the payload has at
    /// least four bytes, decoding it gives this record back.
    pub fn as_bytes(&self) -> (r: Vec<u8>)
        ensures
            r@ == encode_record(self.type_bytes(), self.payload()),
            self.payload().len() >= 4 ==> decode_record(r@) == Ok::<(Seq<u8>, Seq<u8>), Error>(
                (self.type_bytes(), self.payload()),
            ),
    {
        proof {
            use_type_invariant(self);
        }
        let ty = self.chunk_type.bytes();
        proof {
            if self.payload().len() >= 4 {
                lemma_round_trip(self.type_bytes(), self.payload());
            }
        }
        let mut out: Vec<u8> = Vec::new();
        push_be_u32(&mut out, self.length);
        push_bytes(&mut out, ty.as_slice());
        push_bytes(&mut out, self.data.as_slice());
        push_be_u32(&mut out, self.crc);
        out
    }

    /// A few lines for people to read: length, type, payload size and checksum.
    pub fn to_string(&self) -> (r: String)
        ensures
            r@ == summary_text(self.type_bytes(), self.payload().len(), self.crc_spec()),
    {
        proof {
            use_type_invariant(self);
        }
        let mut s = String::new();
        s.append("Chunk {\n  Length: ");
        push_decimal(&mut s, self.length);
        s.append("\n  Type: ");
        let ty = self.chunk_type.to_string();
        s.append(ty.as_str());
        s.append("\n  Data: ");
        push_decimal(&mut s, self.length);
        s.append(" bytes\n  Crc: ");
        push_decimal(&mut s, self.crc);
        s.append("\n}\n");
        s
    }

    /// The checksum of the record, as `crc` returns it.
    pub open spec fn crc_spec(&self) -> u32 {
        record_crc(self.type_bytes(), self.payload())
    }
}

impl<'a> TryFrom<&'a [u8]> for Chunk {
    type Error = Error;

    /// Decodes and checks one record, as `Chunk::try_from_bytes` does.
    fn try_from(value: &'a [u8]) -> (r: Result<Chunk, Error>)
        ensures
            value@.len() < MIN_RECORD_LEN ==> r == Err::<Chunk, Error>(
                Error::InputTooSmall(value@.len() as usize),
            ),
            r matches Ok(c) ==> decode_record(value@) == Ok::<(Seq<u8>, Seq<u8>), Error>(
                (c.type_bytes(), c.payload()),
            ),
            r matches Err(e) ==> decode_record(value@) == Err::<(Seq<u8>, Seq<u8>), Error>(e),
    {
        Chunk::try_from_bytes(value)
    }
}

/// A decoded record owns a fresh copy of its payload, which no spec value of
/// the input bytes alone can name; so no spec of the result is claimed here,
/// and `try_from` states what it returns in its own `ensures`.
impl<'a> vstd::std_specs::convert::TryFromSpecImpl<&'a [u8]> for Chunk {
    open spec fn obeys_try_from_spec() -> bool {
        false
    }

    open spec fn try_from_spec(value: &'a [u8]) -> Result<Chunk, Error> {
        match decode_record(value@) {
            Err(e) => Err(e),
            Ok(_) => Ok(arbitrary()),
        }
    }
}

/// The text of `Chunk::to_string`.
pub open spec fn summary_text(chunk_type: Seq<u8>, data_len: nat, crc: u32) -> Seq<char> {
    "Chunk {\n  Length: "@ + decimal(data_len) + "\n  Type: "@ + chars_of_bytes(chunk_type)
        + "\n  Data: "@ + decimal(data_len) + " bytes\n  Crc: "@ + decimal(crc as nat)
        + "\n}\n"@
}

/// Builds a record from a type tag given as text and a text payload, stored
/// as its UTF-8 bytes. Fails as `ChunkType::from_str` does on the tag.
pub fn chunk_from_strings(chunk_type: &str, data: &str) -> (r: Result<Chunk, Error>)
    requires
        encode_utf8(data@).len() <= u32::MAX,
    ensures
        chunk_type@.len() != 4 ==> r == Err::<Chunk, Error>(Error::WrongLength),
        chunk_type@.len() == 4 && !is_tag_text(chunk_type@) ==> r == Err::<Chunk, Error>(
            Error::ValueNotInRange,
        ),
        is_tag_text(chunk_type@) ==> (r matches Ok(c) && c.type_bytes() == bytes_of_chars(
            chunk_type@,
        ) && c.payload() == encode_utf8(data@)),
{
    let chunk_type = match ChunkType::from_str(chunk_type) {
        Ok(t) => t,
        Err(e) => return Err(e),
    };
    let mut bytes: Vec<u8> = Vec::new();
    push_bytes(&mut bytes, data.as_bytes());
    Ok(Chunk::new(chunk_type, bytes))
}

} // verus!
