//! Chunk records: a block of connection and message records, possibly
//! compressed.
use vstd::prelude::*;
use crate::cursor::{Cursor, block_fits, block_at, block_end};
use crate::error::Error;
use crate::msg_iter::{MessageRecordsIterator, MAX_CHUNK_LEN};
use super::header::{RecordKind, FieldValue, SlotValue, Slots, header_slots, read_header};

verus! {

/// Compression scheme of a chunk's payload.
#[derive(Debug, Clone, Copy, PartialEq, Eq, Structural)]
#[non_exhaustive]
pub enum Compression {
    /// Bzip2 compression.
    Bzip2,
    /// LZ4 frame compression.
    Lz4,
    /// No compression.
    Uncompressed,
}

/// What bzip2 decompression makes of a compressed stream: the decompressed
/// bytes, or the text of the codec's error.
pub uninterp spec fn bzip2_outcome(b: Seq<u8>) -> Result<Seq<u8>, Seq<char>>;

/// What LZ4 frame decompression makes of a compressed stream: the
/// decompressed bytes, or the text of the codec's error.
pub uninterp spec fn lz4_outcome(b: Seq<u8>) -> Result<Seq<u8>, Seq<char>>;

/// Relies on `bzip2::read::BzDecoder`, read to its end: whether it succeeds,
/// the decompressed stream it then gives, and otherwise its error's text,
/// depend on the compressed bytes alone.
#[verifier::external_body]
fn bzip2_expand(p: &[u8]) -> (r: Result<Vec<u8>, String>)
    ensures
        match bzip2_outcome(p@) {
            Ok(d) => r matches Ok(v) && v@ == d,
            Err(m) => r matches Err(s) && s@ == m,
        },
{
    let mut out = Vec::new();
    match std::io::Read::read_to_end(&mut bzip2::read::BzDecoder::new(p), &mut out) {
        Ok(_) => Ok(out),
        Err(e) => Err(e.to_string()),
    }
}

/// Relies on `lz4::Decoder`, read out with `std::io::copy`: whether it
/// succeeds, the decompressed frame it then gives, and otherwise its error's
/// text, depend on the compressed bytes alone.
#[verifier::external_body]
fn lz4_expand(p: &[u8]) -> (r: Result<Vec<u8>, String>)
    ensures
        match lz4_outcome(p@) {
            Ok(d) => r matches Ok(v) && v@ == d,
            Err(m) => r matches Err(s) && s@ == m,
        },
{
    let mut decoder = match lz4::Decoder::new(p) {
        Ok(d) => d,
        Err(e) => return Err(e.to_string()),
    };
    let mut out = Vec::new();
    match std::io::copy(&mut decoder, &mut out) {
        Ok(_) => Ok(out),
        Err(e) => Err(e.to_string()),
    }
}

/// What the codec of `c` makes of the payload `p`.
pub open spec fn codec_outcome(c: Compression, p: Seq<u8>) -> Result<Seq<u8>, Seq<char>> {
    match c {
        Compression::Uncompressed => Ok(p),
        Compression::Bzip2 => bzip2_outcome(p),
        Compression::Lz4 => lz4_outcome(p),
    }
}

/// The payload `p` of a chunk compressed with `c`, decompressed.
pub open spec fn expanded(c: Compression, p: Seq<u8>) -> Seq<u8> {
    codec_outcome(c, p)->Ok_0
}

/// Whether the codec of `c` accepts the payload `p`.
pub open spec fn codec_accepts(c: Compression, p: Seq<u8>) -> bool {
    codec_outcome(c, p) is Ok
}

/// Whether `e` is the error the codec of `c` gives on the payload `p`: the
/// codec's own variant, carrying the codec's message.
pub open spec fn is_codec_error(c: Compression, p: Seq<u8>, e: Error) -> bool {
    match e {
        Error::Bzip2DecompressionError(m) => c == Compression::Bzip2
            && bzip2_outcome(p) == Err::<Seq<u8>, Seq<char>>(m@),
        Error::Lz4DecompressionError(m) => c == Compression::Lz4
            && lz4_outcome(p) == Err::<Seq<u8>, Seq<char>>(m@),
        _ => false,
    }
}

/// A chunk's decompressed payload: borrowed from the bag where it was
/// stored uncompressed, owned where it was decompressed.
#[derive(Debug, Clone, PartialEq, Eq)]
pub enum ChunkData<'a> {
    Borrowed(&'a [u8]),
    Owned(Vec<u8>),
}

impl<'a> View for ChunkData<'a> {
    type V = Seq<u8>;

    open spec fn view(&self) -> Seq<u8> {
        match self {
            ChunkData::Borrowed(s) => s@,
            ChunkData::Owned(v) => v@,
        }
    }
}

impl<'a> ChunkData<'a> {
    /// The bytes.
    pub fn as_slice(&self) -> (r: &[u8])
        ensures
            r@ == self@,
    {
        match self {
            ChunkData::Borrowed(s) => s,
            ChunkData::Owned(v) => v.as_slice(),
        }
    }
}

/// Decompresses the payload `p` of a chunk compressed with `c`.
pub fn decompress<'a>(c: Compression, p: &'a [u8]) -> (r: Result<ChunkData<'a>, Error>)
    ensures
        r is Ok <==> codec_accepts(c, p@),
        r matches Ok(d) ==> d@ == expanded(c, p@),
        r matches Err(e) ==> is_codec_error(c, p@, e),
        c == Compression::Uncompressed ==> (r matches Ok(ChunkData::Borrowed(s)) && s@ == p@),
{
    match c {
        Compression::Bzip2 => match bzip2_expand(p) {
            Ok(v) => Ok(ChunkData::Owned(v)),
            Err(m) => Err(Error::Bzip2DecompressionError(m)),
        },
        Compression::Lz4 => match lz4_expand(p) {
            Ok(v) => Ok(ChunkData::Owned(v)),
            Err(m) => Err(Error::Lz4DecompressionError(m)),
        },
        Compression::Uncompressed => Ok(ChunkData::Borrowed(p)),
    }
}

/// Bulk storage, possibly compressed, of message data and connection records.
#[derive(Debug, Clone, PartialEq, Eq)]
pub struct Chunk<'a> {
    /// Compression scheme the payload was stored with.
    pub compression: Compression,
    /// The decompressed payload.
    data: ChunkData<'a>,
}

/// The content of a `Chunk` record: its compression and its decompressed
/// payload.
pub struct ChunkView {
    pub compression: Compression,
    pub data: Seq<u8>,
}

impl<'a> View for Chunk<'a> {
    type V = ChunkView;

    closed spec fn view(&self) -> ChunkView {
        ChunkView { compression: self.compression, data: self.data@ }
    }
}

/// The compression and declared decompressed size a chunk header gives.
pub open spec fn chunk_header_of(st: Slots) -> Result<(Compression, u32), Error> {
    match (st.0[0], st.0[1]) {
        (Some(SlotValue::Codec(c)), Some(SlotValue::Int32(size))) => if !st.1 {
            Err(Error::InvalidRecord)
        } else {
            Ok((c, size))
        },
        _ => Err(Error::InvalidHeader),
    }
}

/// The body phase of a `Chunk` record whose header gave `st` and whose body,
/// the compressed payload, starts at `q` in `d`, where the codec succeeds.
pub open spec fn chunk_of(st: Slots, d: Seq<u8>, q: int) -> Result<(ChunkView, int), Error> {
    match chunk_header_of(st) {
        Err(e) => Err(e),
        Ok((c, size)) => if !block_fits(d, q) {
            Err(Error::OutOfBounds)
        } else {
            let x = expanded(c, block_at(d, q));
            if x.len() != size {
                Err(Error::InvalidRecord)
            } else {
                Ok((ChunkView { compression: c, data: x }, block_end(d, q)))
            }
        },
    }
}

/// The codec of that chunk, where it rejects the chunk's payload.
pub open spec fn chunk_codec(st: Slots, d: Seq<u8>, q: int) -> Option<Compression> {
    match chunk_header_of(st) {
        Ok((c, _)) => if block_fits(d, q) && !codec_accepts(c, block_at(d, q)) {
            Some(c)
        } else {
            None
        },
        Err(_) => None,
    }
}

/// Whether the header block `h` of a `Chunk` record passes every check made
/// before the body is read (its fields, its opcode); a decode stops without
/// moving the cursor where it does not.
pub open spec fn chunk_reads_body(h: Seq<u8>) -> bool {
    match header_slots(RecordKind::Chunk, h) {
        Ok(st) => chunk_header_of(st) is Ok,
        Err(_) => false,
    }
}

impl<'a> Chunk<'a> {
    /// The decompressed payload.
    pub closed spec fn payload(&self) -> Seq<u8> {
        self.data@
    }

    /// An iterator over the records of the decompressed payload.
    pub fn messages(&self) -> (r: MessageRecordsIterator<'_>)
        requires
            self@.data.len() <= MAX_CHUNK_LEN,
        ensures
            r.wf(),
            r.region() == self@.data,
            r.at() == 0,
    {
        MessageRecordsIterator::new(self.data.as_slice())
    }

    /// A chunk from the outcome of decompressing its payload, checked against
    /// the decompressed size its header declares.
    pub fn from_expanded(compression: Compression, size: u32, expanded: Result<ChunkData<'a>, Error>) -> (r: Result<Self, Error>)
        ensures
            match expanded {
                Err(e) => r matches Err(e2) && e2 == e,
                Ok(d) => if d@.len() == size {
                    r matches Ok(ch) && ch@ == (ChunkView { compression, data: d@ })
                } else {
                    r matches Err(e) && e == Error::InvalidRecord
                },
            },
    {
        match expanded {
            Err(e) => Err(e),
            Ok(data) => {
                if data.as_slice().len() != size as usize {
                    return Err(Error::InvalidRecord);
                }
                Ok(Chunk { compression, data })
            },
        }
    }

    /// Decodes a `Chunk` record with header block `header` whose body starts
    /// at the cursor.
    pub fn read(header: &'a [u8], c: &mut Cursor<'a>) -> (r: Result<Self, Error>)
        requires
            old(c).wf(),
        ensures
            final(c).wf(),
            final(c).data() == old(c).data(),
            !chunk_reads_body(header@) ==> final(c).at() == old(c).at() && r is Err,
            match header_slots(RecordKind::Chunk, header@) {
                Err(e) => r matches Err(e2) && e2 == e,
                Ok(st) => match chunk_codec(st, old(c).data(), old(c).at()) {
                    Some(k) => r matches Err(e) && is_codec_error(k, block_at(old(c).data(), old(c).at()), e),
                    None => match chunk_of(st, old(c).data(), old(c).at()) {
                        Err(e) => r matches Err(e2) && e2 == e,
                        Ok((v, end)) => r matches Ok(x) && x@ == v && final(c).at() == end,
                    },
                },
            },
    {
        let (slots, op_seen) = match read_header(RecordKind::Chunk, header) {
            Ok(t) => t,
            Err(e) => return Err(e),
        };
        assert(slots@.len() == 2);
        let (compression, size) = match (slots[0], slots[1]) {
            (Some(FieldValue::Codec(compression)), Some(FieldValue::Int32(size))) => (compression, size),
            _ => return Err(Error::InvalidHeader),
        };
        if !op_seen {
            return Err(Error::InvalidRecord);
        }
        let payload = match c.next_chunk() {
            Ok(p) => p,
            Err(e) => return Err(Error::from(e)),
        };
        Chunk::from_expanded(compression, size, decompress(compression, payload))
    }
}

} // verus!
