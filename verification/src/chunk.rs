//! The chunk record: a 4-byte tag, an owned payload, and a CRC-32 checksum
//! over both, together with its wire-format decode and encode.

use crate::chunk_type::ChunkType;
use crate::crc::spec_crc32;
use crate::crc::crc32;
use crate::wire::lemma_u32_from_be_bytes_injective;
use crate::wire::lemma_u32_from_to_be_bytes;
use crate::wire::lemma_u32_to_from_be_bytes;
use crate::wire::spec_u32_from_be_bytes;
use crate::wire::spec_u32_to_be_bytes;
use crate::wire::u32_from_be_bytes;
use crate::wire::u32_to_be_bytes;
use vstd::prelude::*;
use vstd::slice::slice_subrange;
use vstd::slice::slice_to_vec;
use vstd::utf8::decode_utf8;
use vstd::utf8::valid_utf8;

verus! {

/// Why decoding a buffer, or reading a payload as text, failed.
#[derive(Debug, PartialEq, Eq, Structural)]
pub enum ChunkError {
    /// The buffer is shorter than the 12-byte minimal framing.
    BufferTooShort,
    /// The declared length does not match the size of the data region.
    LengthMismatch,
    /// The recomputed CRC-32 differs from the trailing checksum field.
    ChecksumMismatch,
    /// The payload is not valid UTF-8.
    EncodingError,
}

/// The mathematical content of a chunk: its tag bytes, its payload, and its
/// checksum.  The length field of the wire format is not part of the model:
/// it is always the payload length.
#[verifier::ext_equal]
pub ghost struct ChunkModel {
    pub type_bytes: Seq<u8>,
    pub data: Seq<u8>,
    pub crc: u32,
}

/// Whether a model is internally consistent: four tag bytes, a payload that
/// fits the 32-bit length field, and the checksum of tag plus payload.
pub open spec fn chunk_wf(m: ChunkModel) -> bool {
    &&& m.type_bytes.len() == 4
    &&& m.data.len() <= u32::MAX
    &&& m.crc == spec_crc32(m.type_bytes + m.data)
}

/// The wire layout of a chunk: the big-endian payload length, the four tag
/// bytes, the payload, and the big-endian checksum, in that order.
pub open spec fn spec_encode(m: ChunkModel) -> Seq<u8> {
    spec_u32_to_be_bytes(m.data.len() as u32) + m.type_bytes + m.data + spec_u32_to_be_bytes(m.crc)
}

/// What decoding a buffer yields: the model read from a well-formed buffer,
/// or the first error in framing order.  A buffer under 12 bytes cannot hold
/// the fixed fields; then the declared length must equal the size of the data
/// region exactly; then the trailing checksum field must match the CRC-32
/// recomputed over tag and data.  Tag validity is never checked here.
pub open spec fn spec_decode(s: Seq<u8>) -> Result<ChunkModel, ChunkError> {
    if s.len() < 12 {
        Err(ChunkError::BufferTooShort)
    } else if s.len() - 12 != spec_u32_from_be_bytes(s.take(4)) {
        Err(ChunkError::LengthMismatch)
    } else {
        let m = ChunkModel {
            type_bytes: s.subrange(4, 8),
            data: s.subrange(8, s.len() - 4),
            crc: spec_u32_from_be_bytes(s.subrange(s.len() - 4, s.len() as int)),
        };
        if spec_crc32(m.type_bytes + m.data) != m.crc {
            Err(ChunkError::ChecksumMismatch)
        } else {
            Ok(m)
        }
    }
}

/// The bytes of a chunk's one-line summary: the tag bytes and the decimal
/// payload length, as `(tag, length)`.
pub open spec fn spec_summary_bytes(m: ChunkModel) -> Seq<u8> {
    seq![40u8] + m.type_bytes + seq![44u8, 32u8] + crate::text::spec_decimal_bytes(m.data.len())
        + seq![41u8]
}

/// A chunk: a tag, an owned payload, and the checksum over both.  Any value
/// of this type carries the checksum of its own tag and payload, whether it
/// was built fresh or decoded from a buffer.
#[derive(Debug)]
pub struct Chunk {
    chunk_type: ChunkType,
    data: Vec<u8>,
    crc: u32,
}

impl View for Chunk {
    type V = ChunkModel;

    closed spec fn view(&self) -> ChunkModel {
        ChunkModel { type_bytes: self.chunk_type@, data: self.data@, crc: self.crc }
    }
}

/// CRC-32 over the tag bytes followed by the payload.
fn crc32_over(chunk_type: &ChunkType, data: &[u8]) -> (r: u32)
    ensures
        r == spec_crc32(chunk_type@ + data@),
{
    let mut buf: Vec<u8> = Vec::new();
    let tb = chunk_type.bytes();
    buf.push(tb[0]);
    buf.push(tb[1]);
    buf.push(tb[2]);
    buf.push(tb[3]);
    proof {
        chunk_type.lemma_view_len();
        assert(buf@ =~= chunk_type@);
        assert(chunk_type@ + data@.take(0) =~= buf@);
    }
    let mut i: usize = 0;
    while i < data.len()
        invariant
            i <= data.len(),
            buf@ == chunk_type@ + data@.take(i as int),
        decreases data.len() - i,
    {
        buf.push(data[i]);
        proof {
            assert(chunk_type@ + data@.take(i + 1) =~= (chunk_type@ + data@.take(i as int)).push(
                data@[i as int],
            ));
        }
        i = i + 1;
    }
    proof {
        assert(data@.take(data@.len() as int) =~= data@);
    }
    crc32(buf.as_slice())
}

impl Chunk {
    #[verifier::type_invariant]
    spec fn inv(self) -> bool {
        chunk_wf(self@)
    }

    /// Builds a chunk from a tag and a payload, computing the checksum fresh
    /// over tag plus payload; never fails.
    pub fn new(chunk_type: ChunkType, data: Vec<u8>) -> (c: Chunk)
        requires
            data@.len() <= u32::MAX,
        ensures
            c@ == (ChunkModel {
                type_bytes: chunk_type@,
                data: data@,
                crc: spec_crc32(chunk_type@ + data@),
            }),
    {
        let crc = crc32_over(&chunk_type, data.as_slice());
        proof {
            chunk_type.lemma_view_len();
        }
        Chunk { chunk_type, data, crc }
    }

    /// Decodes a chunk from its wire layout.  This is the single validation
    /// gate: framing and checksum errors surface here, exactly as
    /// [`spec_decode`] states; tag validity is advisory and never rejected.
    pub fn try_from(bytes: &[u8]) -> (r: Result<Chunk, ChunkError>)
        ensures
            match r {
                Ok(c) => spec_decode(bytes@) == Ok::<ChunkModel, ChunkError>(c@),
                Err(e) => spec_decode(bytes@) == Err::<ChunkModel, ChunkError>(e),
            },
    {
        if bytes.len() < 12 {
            return Err(ChunkError::BufferTooShort);
        }
        let declared = u32_from_be_bytes(slice_subrange(bytes, 0, 4));
        proof {
            assert(bytes@.subrange(0, 4) =~= bytes@.take(4));
        }
        if bytes.len() - 12 != declared as usize {
            return Err(ChunkError::LengthMismatch);
        }
        let chunk_type = ChunkType::from_bytes([bytes[4], bytes[5], bytes[6], bytes[7]]);
        proof {
            assert(chunk_type@ =~= bytes@.subrange(4, 8));
        }
        let data = slice_to_vec(slice_subrange(bytes, 8, bytes.len() - 4));
        let declared_crc = u32_from_be_bytes(slice_subrange(bytes, bytes.len() - 4, bytes.len()));
        let computed = crc32_over(&chunk_type, data.as_slice());
        if computed != declared_crc {
            return Err(ChunkError::ChecksumMismatch);
        }
        Ok(Chunk { chunk_type, data, crc: declared_crc })
    }

    /// The number of payload bytes.
    pub fn length(&self) -> (r: u32)
        ensures
            r == self@.data.len(),
    {
        proof {
            use_type_invariant(&*self);
        }
        self.data.len() as u32
    }

    /// The tag of the chunk.
    pub fn chunk_type(&self) -> (r: &ChunkType)
        ensures
            r@ == self@.type_bytes,
    {
        &self.chunk_type
    }

    /// The raw payload.
    pub fn data(&self) -> (r: &[u8])
        ensures
            r@ == self@.data,
    {
        self.data.as_slice()
    }

    /// The checksum over tag plus payload.
    pub fn crc(&self) -> (r: u32)
        ensures
            r == self@.crc,
            r == spec_crc32(self@.type_bytes + self@.data),
    {
        proof {
            use_type_invariant(&*self);
        }
        self.crc
    }

    /// Interprets the payload as UTF-8 text; fails exactly when the payload
    /// is not valid UTF-8.
    pub fn data_as_string(&self) -> (r: Result<String, ChunkError>)
        ensures
            match r {
                Ok(s) => valid_utf8(self@.data) && s@ == decode_utf8(self@.data),
                Err(e) => !valid_utf8(self@.data) && e == ChunkError::EncodingError,
            },
    {
        match crate::text::try_from_utf8(self.data.as_slice()) {
            Some(s) => Ok(s.to_owned()),
            None => Err(ChunkError::EncodingError),
        }
    }

    /// Serializes the chunk into its full wire layout, the exact inverse of
    /// [`Chunk::try_from`].
    pub fn as_bytes(&self) -> (r: Vec<u8>)
        ensures
            r@ == spec_encode(self@),
    {
        proof {
            use_type_invariant(&*self);
        }
        let mut out: Vec<u8> = Vec::new();
        let len_bytes = u32_to_be_bytes(self.data.len() as u32);
        out.push(len_bytes[0]);
        out.push(len_bytes[1]);
        out.push(len_bytes[2]);
        out.push(len_bytes[3]);
        proof {
            assert(out@ =~= spec_u32_to_be_bytes(self@.data.len() as u32));
        }
        let tb = self.chunk_type.bytes();
        out.push(tb[0]);
        out.push(tb[1]);
        out.push(tb[2]);
        out.push(tb[3]);
        proof {
            self.chunk_type.lemma_view_len();
            assert(out@ =~= spec_u32_to_be_bytes(self@.data.len() as u32) + self@.type_bytes);
        }
        let ghost header: Seq<u8> = out@;
        let mut i: usize = 0;
        while i < self.data.len()
            invariant
                i <= self.data@.len(),
                out@ == header + self.data@.take(i as int),
            decreases self.data@.len() - i,
        {
            out.push(self.data[i]);
            proof {
                assert(header + self.data@.take(i + 1) =~= (header + self.data@.take(
                    i as int,
                )).push(self.data@[i as int]));
            }
            i = i + 1;
        }
        proof {
            assert(self.data@.take(self.data@.len() as int) =~= self.data@);
        }
        let crc_bytes = u32_to_be_bytes(self.crc);
        out.push(crc_bytes[0]);
        out.push(crc_bytes[1]);
        out.push(crc_bytes[2]);
        out.push(crc_bytes[3]);
        proof {
            assert(out@ =~= spec_encode(self@));
        }
        out
    }

    /// A short human-readable summary, `(tag, length)`, embedding the tag's
    /// own text and the payload length; `None` when the summary bytes are
    /// not valid UTF-8, which can only happen for a tag built through the
    /// permissive raw-byte path.
    pub fn summary(&self) -> (r: Option<String>)
        ensures
            match r {
                Some(s) => valid_utf8(spec_summary_bytes(self@)) && s@ == decode_utf8(
                    spec_summary_bytes(self@),
                ),
                None => !valid_utf8(spec_summary_bytes(self@)),
            },
    {
        proof {
            use_type_invariant(&*self);
        }
        let mut buf: Vec<u8> = Vec::new();
        buf.push(40);
        let tb = self.chunk_type.bytes();
        buf.push(tb[0]);
        buf.push(tb[1]);
        buf.push(tb[2]);
        buf.push(tb[3]);
        buf.push(44);
        buf.push(32);
        proof {
            self.chunk_type.lemma_view_len();
            assert(buf@ =~= seq![40u8] + self@.type_bytes + seq![44u8, 32u8]);
        }
        crate::text::push_decimal(&mut buf, self.data.len() as u64);
        buf.push(41);
        proof {
            assert(buf@ =~= spec_summary_bytes(self@));
        }
        match crate::text::try_from_utf8(buf.as_slice()) {
            Some(s) => Some(s.to_owned()),
            None => None,
        }
    }
}

/// How a well-formed model's encoding splits into its four wire fields.
pub proof fn lemma_encode_framing(m: ChunkModel)
    requires
        m.type_bytes.len() == 4,
        m.data.len() <= u32::MAX,
    ensures
        spec_encode(m).len() == 12 + m.data.len(),
        spec_encode(m).take(4) == spec_u32_to_be_bytes(m.data.len() as u32),
        spec_encode(m).subrange(4, 8) == m.type_bytes,
        spec_encode(m).subrange(8, spec_encode(m).len() - 4) == m.data,
        spec_encode(m).subrange(spec_encode(m).len() - 4, spec_encode(m).len() as int)
            == spec_u32_to_be_bytes(m.crc),
{
    let s = spec_encode(m);
    assert(s.take(4) =~= spec_u32_to_be_bytes(m.data.len() as u32));
    assert(s.subrange(4, 8) =~= m.type_bytes);
    assert(s.subrange(8, s.len() - 4) =~= m.data);
    assert(s.subrange(s.len() - 4, s.len() as int) =~= spec_u32_to_be_bytes(m.crc));
}

/// Law: decoding an encoded chunk yields exactly the record it was built
/// from — the tag, the data, and the freshly computed checksum all
/// round-trip.
pub proof fn lemma_round_trip(t: Seq<u8>, d: Seq<u8>)
    requires
        t.len() == 4,
        d.len() <= u32::MAX,
    ensures
        ({
            let m = ChunkModel { type_bytes: t, data: d, crc: spec_crc32(t + d) };
            spec_decode(spec_encode(m)) == Ok::<ChunkModel, ChunkError>(m)
        }),
{
    let m = ChunkModel { type_bytes: t, data: d, crc: spec_crc32(t + d) };
    let s = spec_encode(m);
    lemma_encode_framing(m);
    lemma_u32_to_from_be_bytes(d.len() as u32);
    lemma_u32_to_from_be_bytes(m.crc);
}

/// Law: a buffer that decodes successfully is reproduced byte-for-byte by
/// re-encoding the decoded record, so a second decode yields the same record
/// again.
pub proof fn lemma_decode_encode(s: Seq<u8>, m: ChunkModel)
    requires
        spec_decode(s) == Ok::<ChunkModel, ChunkError>(m),
    ensures
        spec_encode(m) == s,
        spec_decode(spec_encode(m)) == Ok::<ChunkModel, ChunkError>(m),
{
    lemma_u32_from_to_be_bytes(s.take(4));
    lemma_u32_from_to_be_bytes(s.subrange(s.len() - 4, s.len() as int));
    assert(spec_encode(m) =~= s);
}

/// Law: corrupting the checksum field of a buffer that decodes successfully,
/// while leaving the rest of the buffer untouched, makes decoding fail with
/// a checksum mismatch.
pub proof fn lemma_checksum_corruption(s: Seq<u8>, s2: Seq<u8>)
    requires
        spec_decode(s) is Ok,
        s2.len() == s.len(),
        s2.subrange(0, s.len() - 4) == s.subrange(0, s.len() - 4),
        s2.subrange(s.len() - 4, s.len() as int) != s.subrange(s.len() - 4, s.len() as int),
    ensures
        spec_decode(s2) == Err::<ChunkModel, ChunkError>(ChunkError::ChecksumMismatch),
{
    let n = s.len() as int;
    assert forall|i: int| 0 <= i < n - 4 implies s2[i] == s[i] by {
        assert(s2.subrange(0, n - 4)[i] == s2[i]);
        assert(s.subrange(0, n - 4)[i] == s[i]);
    }
    assert(s2.take(4) =~= s.take(4));
    assert(s2.subrange(4, 8) =~= s.subrange(4, 8));
    assert(s2.subrange(8, n - 4) =~= s.subrange(8, n - 4));
    lemma_u32_from_be_bytes_injective(
        s2.subrange(n - 4, n),
        s.subrange(n - 4, n),
    );
}

/// Law: flipping any single bit of the checksum field of a buffer that
/// decodes successfully makes decoding fail with a checksum mismatch.
pub proof fn lemma_checksum_bit_flip(s: Seq<u8>, i: int, k: u8)
    requires
        spec_decode(s) is Ok,
        s.len() - 4 <= i < s.len(),
        k < 8,
    ensures
        spec_decode(s.update(i, (s[i] ^ (1u8 << k)) as u8)) == Err::<ChunkModel, ChunkError>(
            ChunkError::ChecksumMismatch,
        ),
{
    let n = s.len() as int;
    let b = s[i];
    assert(((b ^ (1u8 << k)) as u8) != b) by (bit_vector)
        requires
            k < 8,
    ;
    let s2 = s.update(i, (b ^ (1u8 << k)) as u8);
    assert(s2.subrange(0, n - 4) =~= s.subrange(0, n - 4));
    assert(s2.subrange(n - 4, n)[i - (n - 4)] != s.subrange(n - 4, n)[i - (n - 4)]);
    lemma_checksum_corruption(s, s2);
}

/// Law: a data region shorter or longer than the declared length makes
/// decoding fail with a length mismatch, whatever checksum the buffer
/// carries.
pub proof fn lemma_length_corruption(t: Seq<u8>, d: Seq<u8>, c: u32, d2: Seq<u8>)
    requires
        t.len() == 4,
        d.len() <= u32::MAX,
        d2.len() != d.len(),
    ensures
        spec_decode(spec_u32_to_be_bytes(d.len() as u32) + t + d2 + spec_u32_to_be_bytes(c))
            == Err::<ChunkModel, ChunkError>(ChunkError::LengthMismatch),
{
    let s = spec_u32_to_be_bytes(d.len() as u32) + t + d2 + spec_u32_to_be_bytes(c);
    assert(s.len() == 12 + d2.len());
    assert(s.take(4) =~= spec_u32_to_be_bytes(d.len() as u32));
    lemma_u32_to_from_be_bytes(d.len() as u32);
}

} // verus!
