//! The canonical byte layout of a resolution record.
//!
//! ```text
//! market_id            8 bytes, unsigned little-endian
//! outcome              1 byte, 1 if true else 0
//! source_data_len      4 bytes, unsigned little-endian
//! source_data          source_data_len bytes of UTF-8
//! source_data_hash     32 bytes
//! resolution_timestamp 8 bytes, unsigned little-endian
//! media_hash           32 bytes
//! ```

use vstd::prelude::*;
use vstd::string::StringSliceAdditionalSpecFns;
use vstd::utf8::{decode_utf8, encode_utf8, valid_utf8};

verus! {

/// Width of a digest in the layout.
pub const DIGEST_LEN: usize = 32;

/// Bytes of the layout besides the source data.
pub const FIXED_LEN: usize = 85;

/// The eight bytes of a 64-bit value, least significant first.
pub open spec fn u64_le(x: u64) -> Seq<u8> {
    seq![
        (x % 0x100) as u8,
        (x / 0x100 % 0x100) as u8,
        (x / 0x1_0000 % 0x100) as u8,
        (x / 0x100_0000 % 0x100) as u8,
        (x / 0x1_0000_0000 % 0x100) as u8,
        (x / 0x100_0000_0000 % 0x100) as u8,
        (x / 0x1_0000_0000_0000 % 0x100) as u8,
        (x / 0x100_0000_0000_0000 % 0x100) as u8,
    ]
}

/// The four bytes of a 32-bit value, least significant first.
pub open spec fn u32_le(x: u32) -> Seq<u8> {
    seq![
        (x % 0x100) as u8,
        (x / 0x100 % 0x100) as u8,
        (x / 0x1_0000 % 0x100) as u8,
        (x / 0x100_0000 % 0x100) as u8,
    ]
}

/// The value whose little-endian bytes stand at `at`.
#[verifier::opaque]
pub open spec fn u64_at(b: Seq<u8>, at: int) -> int {
    b[at] + b[at + 1] * 0x100 + b[at + 2] * 0x1_0000 + b[at + 3] * 0x100_0000 + b[at + 4]
        * 0x1_0000_0000 + b[at + 5] * 0x100_0000_0000 + b[at + 6] * 0x1_0000_0000_0000 + b[at + 7]
        * 0x100_0000_0000_0000
}

/// The value whose little-endian bytes stand at `at`.
#[verifier::opaque]
pub open spec fn u32_at(b: Seq<u8>, at: int) -> int {
    b[at] + b[at + 1] * 0x100 + b[at + 2] * 0x1_0000 + b[at + 3] * 0x100_0000
}

/// The byte that stands for an outcome.
pub open spec fn outcome_byte(outcome: bool) -> u8 {
    if outcome {
        1
    } else {
        0
    }
}

/// The layout, over the UTF-8 bytes of the source data.
pub open spec fn layout(
    market_id: u64,
    outcome: bool,
    source: Seq<u8>,
    source_data_hash: Seq<u8>,
    timestamp: u64,
    media_hash: Seq<u8>,
) -> Seq<u8> {
    u64_le(market_id) + seq![outcome_byte(outcome)] + u32_le(source.len() as u32) + source
        + source_data_hash + u64_le(timestamp) + media_hash
}

fn push_u64_le(out: &mut Vec<u8>, x: u64)
    ensures
        final(out)@ == old(out)@ + u64_le(x),
{
    assert(x & 0xff == x % 0x100) by (bit_vector);
    assert((x >> 8) & 0xff == x / 0x100 % 0x100) by (bit_vector);
    assert((x >> 16) & 0xff == x / 0x1_0000 % 0x100) by (bit_vector);
    assert((x >> 24) & 0xff == x / 0x100_0000 % 0x100) by (bit_vector);
    assert((x >> 32) & 0xff == x / 0x1_0000_0000 % 0x100) by (bit_vector);
    assert((x >> 40) & 0xff == x / 0x100_0000_0000 % 0x100) by (bit_vector);
    assert((x >> 48) & 0xff == x / 0x1_0000_0000_0000 % 0x100) by (bit_vector);
    assert((x >> 56) & 0xff == x / 0x100_0000_0000_0000 % 0x100) by (bit_vector);
    out.push((x & 0xff) as u8);
    out.push(((x >> 8) & 0xff) as u8);
    out.push(((x >> 16) & 0xff) as u8);
    out.push(((x >> 24) & 0xff) as u8);
    out.push(((x >> 32) & 0xff) as u8);
    out.push(((x >> 40) & 0xff) as u8);
    out.push(((x >> 48) & 0xff) as u8);
    out.push(((x >> 56) & 0xff) as u8);
    assert(out@ =~= old(out)@ + u64_le(x));
}

fn push_u32_le(out: &mut Vec<u8>, x: u32)
    ensures
        final(out)@ == old(out)@ + u32_le(x),
{
    assert(x & 0xff == x % 0x100) by (bit_vector);
    assert((x >> 8) & 0xff == x / 0x100 % 0x100) by (bit_vector);
    assert((x >> 16) & 0xff == x / 0x1_0000 % 0x100) by (bit_vector);
    assert((x >> 24) & 0xff == x / 0x100_0000 % 0x100) by (bit_vector);
    out.push((x & 0xff) as u8);
    out.push(((x >> 8) & 0xff) as u8);
    out.push(((x >> 16) & 0xff) as u8);
    out.push(((x >> 24) & 0xff) as u8);
    assert(out@ =~= old(out)@ + u32_le(x));
}

/// Serializes the fields of a resolution in the canonical layout. The
/// source data must fit the four-byte length field.
pub fn serialize_resolution(
    market_id: u64,
    outcome: bool,
    source_data: &str,
    source_data_hash: &[u8],
    timestamp: u64,
    media_hash: &[u8],
) -> (out: Vec<u8>)
    requires
        encode_utf8(source_data@).len() <= u32::MAX,
    ensures
        out@ == layout(
            market_id,
            outcome,
            encode_utf8(source_data@),
            source_data_hash@,
            timestamp,
            media_hash@,
        ),
{
    let mut serialized: Vec<u8> = Vec::new();
    push_u64_le(&mut serialized, market_id);
    serialized.push(if outcome { 1 } else { 0 });
    let source_bytes = source_data.as_bytes();
    push_u32_le(&mut serialized, source_bytes.len() as u32);
    serialized.extend_from_slice(source_bytes);
    serialized.extend_from_slice(source_data_hash);
    push_u64_le(&mut serialized, timestamp);
    serialized.extend_from_slice(media_hash);
    assert(serialized@ =~= layout(
        market_id,
        outcome,
        encode_utf8(source_data@),
        source_data_hash@,
        timestamp,
        media_hash@,
    ));
    serialized
}

/// The signed payload of a resolution.
#[derive(Debug, Clone, PartialEq, Eq)]
pub struct ResolutionRecord {
    pub market_id: u64,
    pub outcome: bool,
    pub source_data: String,
    pub source_data_hash: [u8; 32],
    pub resolution_timestamp: u64,
    pub media_hash: [u8; 32],
}

/// A resolution record as a mathematical value.
pub struct RecordView {
    pub market_id: u64,
    pub outcome: bool,
    pub source_data: Seq<char>,
    pub source_data_hash: Seq<u8>,
    pub resolution_timestamp: u64,
    pub media_hash: Seq<u8>,
}

impl View for ResolutionRecord {
    type V = RecordView;

    open spec fn view(&self) -> RecordView {
        RecordView {
            market_id: self.market_id,
            outcome: self.outcome,
            source_data: self.source_data@,
            source_data_hash: self.source_data_hash@,
            resolution_timestamp: self.resolution_timestamp,
            media_hash: self.media_hash@,
        }
    }
}

impl RecordView {
    /// Both digests have their width, and the source data fits the length
    /// field.
    pub open spec fn valid(self) -> bool {
        &&& self.source_data_hash.len() == DIGEST_LEN
        &&& self.media_hash.len() == DIGEST_LEN
        &&& encode_utf8(self.source_data).len() <= u32::MAX
    }

    /// The canonical bytes of the record.
    pub open spec fn encoded(self) -> Seq<u8> {
        layout(
            self.market_id,
            self.outcome,
            encode_utf8(self.source_data),
            self.source_data_hash,
            self.resolution_timestamp,
            self.media_hash,
        )
    }
}

/// Why a record cannot be encoded.
#[derive(Debug, Clone, Copy, PartialEq, Eq)]
pub enum EncodeError {
    /// The source data is longer than the four-byte length field can say.
    SourceDataTooLong,
}

/// Why bytes are not the encoding of a record.
#[derive(Debug, Clone, Copy, PartialEq, Eq)]
pub enum DecodeError {
    /// Fewer bytes than the layout and the length field ask for.
    Truncated,
    /// More bytes than the layout and the length field ask for.
    TrailingBytes,
    /// The outcome byte is neither 0 nor 1.
    InvalidOutcome,
    /// The source data is not UTF-8.
    InvalidText,
}

/// The record that bytes encode, or the first reason why they encode none.
pub open spec fn decoded(b: Seq<u8>) -> Result<RecordView, DecodeError> {
    if b.len() < FIXED_LEN || b.len() < FIXED_LEN + u32_at(b, 9) {
        Err(DecodeError::Truncated)
    } else if b.len() > FIXED_LEN + u32_at(b, 9) {
        Err(DecodeError::TrailingBytes)
    } else if b[8] > 1 {
        Err(DecodeError::InvalidOutcome)
    } else {
        let n = u32_at(b, 9);
        let source = b.subrange(13, 13 + n);
        if !valid_utf8(source) {
            Err(DecodeError::InvalidText)
        } else {
            Ok(
                RecordView {
                    market_id: u64_at(b, 0) as u64,
                    outcome: b[8] == 1,
                    source_data: decode_utf8(source),
                    source_data_hash: b.subrange(13 + n, 45 + n),
                    resolution_timestamp: u64_at(b, 45 + n) as u64,
                    media_hash: b.subrange(53 + n, 85 + n),
                },
            )
        }
    }
}

/// Calls `std::str::from_utf8`: the text that the bytes encode, if they are
/// UTF-8.
#[verifier::external_body]
fn text_from_utf8(bytes: &[u8]) -> (out: Option<String>)
    ensures
        out is Some <==> valid_utf8(bytes@),
        out matches Some(s) ==> s@ == decode_utf8(bytes@),
{
    std::str::from_utf8(bytes).ok().map(|s| s.to_owned())
}

fn read_u64_le(b: &[u8], at: usize) -> (out: u64)
    requires
        at + 8 <= b.len(),
    ensures
        out == u64_at(b@, at as int),
{
    reveal(u64_at);
    (b[at] as u64) + (b[at + 1] as u64) * 0x100 + (b[at + 2] as u64) * 0x1_0000 + (b[at + 3] as u64)
        * 0x100_0000 + (b[at + 4] as u64) * 0x1_0000_0000 + (b[at + 5] as u64) * 0x100_0000_0000 + (
    b[at + 6] as u64) * 0x1_0000_0000_0000 + (b[at + 7] as u64) * 0x100_0000_0000_0000
}

fn read_u32_le(b: &[u8], at: usize) -> (out: u32)
    requires
        at + 4 <= b.len(),
    ensures
        out == u32_at(b@, at as int),
{
    reveal(u32_at);
    (b[at] as u32) + (b[at + 1] as u32) * 0x100 + (b[at + 2] as u32) * 0x1_0000 + (b[at + 3] as u32)
        * 0x100_0000
}

pub(crate) fn read_digest(b: &[u8], at: usize) -> (out: [u8; 32])
    requires
        at + 32 <= b.len(),
    ensures
        out@ == b@.subrange(at as int, at + 32),
{
    let mut out = [0u8; 32];
    let mut i: usize = 0;
    while i < 32
        invariant
            i <= 32,
            at + 32 <= b.len(),
            forall|j: int| 0 <= j < i ==> out@[j] == b@[at + j],
        decreases 32 - i,
    {
        out[i] = b[at + i];
        i += 1;
    }
    assert(out@ =~= b@.subrange(at as int, at + 32));
    out
}

impl ResolutionRecord {
    /// Encodes the record in the canonical layout, or rejects source data
    /// that the length field cannot describe.
    pub fn encode(&self) -> (out: Result<Vec<u8>, EncodeError>)
        ensures
            out is Ok <==> encode_utf8(self@.source_data).len() <= u32::MAX,
            out matches Ok(bytes) ==> bytes@ == self@.encoded() && bytes@.len() == FIXED_LEN
                + encode_utf8(self@.source_data).len(),
            out matches Err(e) ==> e == EncodeError::SourceDataTooLong,
    {
        if self.source_data.as_str().as_bytes().len() > u32::MAX as usize {
            return Err(EncodeError::SourceDataTooLong);
        }
        Ok(
            serialize_resolution(
                self.market_id,
                self.outcome,
                self.source_data.as_str(),
                self.source_data_hash.as_slice(),
                self.resolution_timestamp,
                self.media_hash.as_slice(),
            ),
        )
    }

    /// Reads a record back from its canonical bytes.
    pub fn decode(bytes: &[u8]) -> (out: Result<ResolutionRecord, DecodeError>)
        ensures
            out matches Ok(r) ==> decoded(bytes@) == Ok::<RecordView, DecodeError>(r@),
            out matches Err(e) ==> decoded(bytes@) == Err::<RecordView, DecodeError>(e),
    {
        if bytes.len() < FIXED_LEN {
            return Err(DecodeError::Truncated);
        }
        let n = read_u32_le(bytes, 9) as usize;
        if bytes.len() - FIXED_LEN < n {
            return Err(DecodeError::Truncated);
        }
        if bytes.len() - FIXED_LEN > n {
            return Err(DecodeError::TrailingBytes);
        }
        if bytes[8] > 1 {
            return Err(DecodeError::InvalidOutcome);
        }
        let source_data = match text_from_utf8(vstd::slice::slice_subrange(bytes, 13, 13 + n)) {
            Some(s) => s,
            None => {
                return Err(DecodeError::InvalidText);
            },
        };
        let record = ResolutionRecord {
            market_id: read_u64_le(bytes, 0),
            outcome: bytes[8] == 1,
            source_data,
            source_data_hash: read_digest(bytes, 13 + n),
            resolution_timestamp: read_u64_le(bytes, 45 + n),
            media_hash: read_digest(bytes, 53 + n),
        };
        assert(record@.source_data_hash =~= decoded(bytes@)->Ok_0.source_data_hash);
        Ok(record)
    }
}

proof fn lemma_u64_parts(x: u64)
    ensures
        x == (x % 0x100) + (x / 0x100 % 0x100) * 0x100 + (x / 0x1_0000 % 0x100) * 0x1_0000 + (x
            / 0x100_0000 % 0x100) * 0x100_0000 + (x / 0x1_0000_0000 % 0x100) * 0x1_0000_0000 + (x
            / 0x100_0000_0000 % 0x100) * 0x100_0000_0000 + (x / 0x1_0000_0000_0000 % 0x100)
            * 0x1_0000_0000_0000 + (x / 0x100_0000_0000_0000 % 0x100) * 0x100_0000_0000_0000,
{
    assert(x == (x % 0x100) + (x / 0x100 % 0x100) * 0x100 + (x / 0x1_0000 % 0x100) * 0x1_0000 + (x
        / 0x100_0000 % 0x100) * 0x100_0000 + (x / 0x1_0000_0000 % 0x100) * 0x1_0000_0000 + (x
        / 0x100_0000_0000 % 0x100) * 0x100_0000_0000 + (x / 0x1_0000_0000_0000 % 0x100)
        * 0x1_0000_0000_0000 + (x / 0x100_0000_0000_0000 % 0x100) * 0x100_0000_0000_0000)
        by (bit_vector);
}

proof fn lemma_u32_parts(x: u32)
    ensures
        x == (x % 0x100) + (x / 0x100 % 0x100) * 0x100 + (x / 0x1_0000 % 0x100) * 0x1_0000 + (x
            / 0x100_0000 % 0x100) * 0x100_0000,
{
    assert(x == (x % 0x100) + (x / 0x100 % 0x100) * 0x100 + (x / 0x1_0000 % 0x100) * 0x1_0000 + (x
        / 0x100_0000 % 0x100) * 0x100_0000) by (bit_vector);
}

/// Reading back the little-endian bytes of a value gives the value.
pub proof fn lemma_u64_le_round_trip(x: u64, before: Seq<u8>, after: Seq<u8>)
    ensures
        u64_at(before + u64_le(x) + after, before.len() as int) == x,
{
    let b = before + u64_le(x) + after;
    let at = before.len() as int;
    reveal(u64_at);
    lemma_u64_parts(x);
    assert(b[at] == x % 0x100);
    assert(b[at + 1] == x / 0x100 % 0x100);
    assert(b[at + 2] == x / 0x1_0000 % 0x100);
    assert(b[at + 3] == x / 0x100_0000 % 0x100);
    assert(b[at + 4] == x / 0x1_0000_0000 % 0x100);
    assert(b[at + 5] == x / 0x100_0000_0000 % 0x100);
    assert(b[at + 6] == x / 0x1_0000_0000_0000 % 0x100);
    assert(b[at + 7] == x / 0x100_0000_0000_0000 % 0x100);
}

/// Reading back the little-endian bytes of a value gives the value.
pub proof fn lemma_u32_le_round_trip(x: u32, before: Seq<u8>, after: Seq<u8>)
    ensures
        u32_at(before + u32_le(x) + after, before.len() as int) == x,
{
    let b = before + u32_le(x) + after;
    let at = before.len() as int;
    reveal(u32_at);
    lemma_u32_parts(x);
    assert(b[at] == x % 0x100);
    assert(b[at + 1] == x / 0x100 % 0x100);
    assert(b[at + 2] == x / 0x1_0000 % 0x100);
    assert(b[at + 3] == x / 0x100_0000 % 0x100);
}

/// The encoding of a valid record has the length of its fixed fields plus
/// that of its source data.
pub proof fn lemma_encoded_len(r: RecordView)
    requires
        r.valid(),
    ensures
        r.encoded().len() == 8 + 1 + 4 + encode_utf8(r.source_data).len() + 32 + 8 + 32,
{
}

/// Decoding the encoding of a valid record gives the record back.
pub proof fn lemma_decode_encode(r: RecordView)
    requires
        r.valid(),
    ensures
        decoded(r.encoded()) == Ok::<RecordView, DecodeError>(r),
{
    let source = encode_utf8(r.source_data);
    let n = source.len() as int;
    let b = r.encoded();
    let head = u64_le(r.market_id) + seq![outcome_byte(r.outcome)];
    lemma_u64_le_round_trip(
        r.market_id,
        Seq::<u8>::empty(),
        seq![outcome_byte(r.outcome)] + u32_le(n as u32) + source + r.source_data_hash + u64_le(
            r.resolution_timestamp,
        ) + r.media_hash,
    );
    assert(b =~= Seq::<u8>::empty() + u64_le(r.market_id) + (seq![outcome_byte(r.outcome)]
        + u32_le(n as u32) + source + r.source_data_hash + u64_le(r.resolution_timestamp)
        + r.media_hash));
    lemma_u32_le_round_trip(
        n as u32,
        head,
        source + r.source_data_hash + u64_le(r.resolution_timestamp) + r.media_hash,
    );
    assert(b =~= head + u32_le(n as u32) + (source + r.source_data_hash + u64_le(
        r.resolution_timestamp,
    ) + r.media_hash));
    lemma_u64_le_round_trip(
        r.resolution_timestamp,
        head + u32_le(n as u32) + source + r.source_data_hash,
        r.media_hash,
    );
    assert(b =~= (head + u32_le(n as u32) + source + r.source_data_hash) + u64_le(
        r.resolution_timestamp,
    ) + r.media_hash);
    assert(u32_at(b, 9) == n);
    assert(b.subrange(13, 13 + n) =~= source);
    assert(b.subrange(13 + n, 45 + n) =~= r.source_data_hash);
    assert(b.subrange(53 + n, 85 + n) =~= r.media_hash);
    assert(b[8] == outcome_byte(r.outcome));
    vstd::utf8::encode_utf8_valid_utf8(r.source_data);
    vstd::utf8::encode_utf8_decode_utf8(r.source_data);
    assert(decode_utf8(source) =~= r.source_data);
}

/// The encoding is unambiguous: two valid records with the same canonical
/// bytes are the same record.
pub proof fn lemma_encoding_is_injective(a: RecordView, b: RecordView)
    requires
        a.valid(),
        b.valid(),
        a.encoded() == b.encoded(),
    ensures
        a == b,
{
    lemma_decode_encode(a);
    lemma_decode_encode(b);
}

} // verus!
