//! Records of every kind, and decoding the record at a cursor.
use vstd::prelude::*;
use vstd::string::StringSliceAdditionalSpecFns;
use crate::bytes::bytes_are;
use crate::cursor::{Cursor, block_fits, block_at, block_end};
use crate::error::Error;
use crate::field_iter::{FieldIterator, parse_field, lemma_parse_field_len, field_entries};
use crate::record_types::header::{RecordKind, Slots, kind_of, op_of, header_slots, field_slot, no_slots,
    lemma_field_slot_bound, lemma_scan_leaves_unset, lemma_scan_wrong_op, field_value};
use crate::record_types::bag_header::{BagHeader, bag_header_of};
use crate::record_types::chunk::{Chunk, ChunkView, Compression, chunk_of, chunk_codec, is_codec_error};
use crate::record_types::connection::{Connection, ConnectionView, connection_of};
use crate::record_types::message_data::{MessageData, MessageDataView, message_data_of};
use crate::record_types::index_data::{IndexData, IndexDataView, index_data_of};
use crate::record_types::chunk_info::{ChunkInfo, ChunkInfoView, chunk_info_of};

verus! {

/// A record of any kind.
#[derive(Debug, Clone, PartialEq, Eq)]
pub enum Record<'a> {
    BagHeader(BagHeader),
    Chunk(Chunk<'a>),
    Connection(Connection<'a>),
    MessageData(MessageData<'a>),
    IndexData(IndexData<'a>),
    ChunkInfo(ChunkInfo<'a>),
}

/// The content of a record of any kind.
pub enum RecordView {
    BagHeader(BagHeader),
    Chunk(ChunkView),
    Connection(ConnectionView),
    MessageData(MessageDataView),
    IndexData(IndexDataView),
    ChunkInfo(ChunkInfoView),
}

impl<'a> View for Record<'a> {
    type V = RecordView;

    open spec fn view(&self) -> RecordView {
        match self {
            Record::BagHeader(x) => RecordView::BagHeader(*x),
            Record::Chunk(x) => RecordView::Chunk(x@),
            Record::Connection(x) => RecordView::Connection(x@),
            Record::MessageData(x) => RecordView::MessageData(x@),
            Record::IndexData(x) => RecordView::IndexData(x@),
            Record::ChunkInfo(x) => RecordView::ChunkInfo(x@),
        }
    }
}

/// The kind of a record.
pub open spec fn kind_of_view(v: RecordView) -> RecordKind {
    match v {
        RecordView::BagHeader(_) => RecordKind::BagHeader,
        RecordView::Chunk(_) => RecordKind::Chunk,
        RecordView::Connection(_) => RecordKind::Connection,
        RecordView::MessageData(_) => RecordKind::MessageData,
        RecordView::IndexData(_) => RecordKind::IndexData,
        RecordView::ChunkInfo(_) => RecordKind::ChunkInfo,
    }
}

/// The name of a kind, as shown to callers.
pub open spec fn kind_name(k: RecordKind) -> &'static str {
    match k {
        RecordKind::BagHeader => "BagHeader",
        RecordKind::Chunk => "Chunk",
        RecordKind::Connection => "Connection",
        RecordKind::MessageData => "MessageData",
        RecordKind::IndexData => "IndexData",
        RecordKind::ChunkInfo => "ChunkInfo",
    }
}

/// The opcode of a header block: the value of its first `op` field, which
/// must be one byte long.
pub open spec fn find_op(h: Seq<u8>) -> Result<u8, Error>
    decreases h.len(),
{
    if h.len() == 0 {
        Err(Error::InvalidRecord)
    } else {
        match parse_field(h) {
            None => Err(Error::InvalidHeader),
            Some((name, val, k)) => if name == "op".spec_bytes() {
                if val.len() == 1 {
                    Ok(val[0])
                } else {
                    Err(Error::InvalidRecord)
                }
            } else if 4 <= k <= h.len() {
                find_op(h.subrange(k, h.len() as int))
            } else {
                Err(Error::InvalidRecord)
            },
        }
    }
}

/// The body phase of a record of `kind` whose header gave `st` and whose body
/// starts at `q` in `d`.
pub open spec fn body_of(kind: RecordKind, st: Slots, d: Seq<u8>, q: int) -> Result<(RecordView, int), Error> {
    match kind {
        RecordKind::BagHeader => match bag_header_of(st, d, q) {
            Ok((v, e)) => Ok((RecordView::BagHeader(v), e)),
            Err(e) => Err(e),
        },
        RecordKind::Chunk => match chunk_of(st, d, q) {
            Ok((v, e)) => Ok((RecordView::Chunk(v), e)),
            Err(e) => Err(e),
        },
        RecordKind::Connection => match connection_of(st, d, q) {
            Ok((v, e)) => Ok((RecordView::Connection(v), e)),
            Err(e) => Err(e),
        },
        RecordKind::MessageData => match message_data_of(st, d, q) {
            Ok((v, e)) => Ok((RecordView::MessageData(v), e)),
            Err(e) => Err(e),
        },
        RecordKind::IndexData => match index_data_of(st, d, q) {
            Ok((v, e)) => Ok((RecordView::IndexData(v), e)),
            Err(e) => Err(e),
        },
        RecordKind::ChunkInfo => match chunk_info_of(st, d, q) {
            Ok((v, e)) => Ok((RecordView::ChunkInfo(v), e)),
            Err(e) => Err(e),
        },
    }
}

/// The record at `p` in `d`, and where the next one starts: a
/// length-prefixed header block, whose opcode picks the kind, then the body.
/// For a chunk, this is the outcome where its codec accepts the payload.
pub open spec fn record_at(d: Seq<u8>, p: int) -> Result<(RecordView, int), Error> {
    if !block_fits(d, p) {
        Err(Error::OutOfBounds)
    } else {
        let h = block_at(d, p);
        match find_op(h) {
            Err(e) => Err(e),
            Ok(op) => match kind_of(op) {
                None => Err(Error::InvalidRecord),
                Some(kind) => match header_slots(kind, h) {
                    Err(e) => Err(e),
                    Ok(st) => body_of(kind, st, d, block_end(d, p)),
                },
            },
        }
    }
}

/// Decoding a record of `kind`: its header block `h`, then its body, which
/// starts at `q` in `d`.
pub open spec fn decode_as(kind: RecordKind, h: Seq<u8>, d: Seq<u8>, q: int) -> Result<(RecordView, int), Error> {
    match header_slots(kind, h) {
        Err(e) => Err(e),
        Ok(st) => body_of(kind, st, d, q),
    }
}

/// A header block of any kind that lacks one of the fields the kind
/// requires (every header field a kind knows is required), and whose `op`
/// fields hold the kind's opcode, is rejected with `InvalidHeader`, whatever
/// the body.
pub proof fn lemma_missing_field_rejected(kind: RecordKind, h: Seq<u8>, name: Seq<u8>, d: Seq<u8>, q: int)
    requires
        field_entries(h) is Some,
        field_slot(kind, name) is Some,
        forall|j: int| 0 <= j < field_entries(h)->Some_0.len() ==> (#[trigger] field_entries(h)->Some_0[j]).0 != name,
        forall|j: int| 0 <= j < field_entries(h)->Some_0.len()
            && (#[trigger] field_entries(h)->Some_0[j]).0 == "op".spec_bytes()
            ==> field_entries(h)->Some_0[j].1 == seq![op_of(kind)],
    ensures
        decode_as(kind, h, d, q) == Err::<(RecordView, int), Error>(Error::InvalidHeader),
{
    lemma_field_slot_bound(kind, name);
    lemma_scan_leaves_unset(kind, h, no_slots(kind), name);
}

/// A header block of any kind whose fields, `op` aside, are distinct, known
/// and well-formed, but which holds an `op` field with another opcode, is
/// rejected with `InvalidRecord`, whatever the body.
pub proof fn lemma_wrong_op_rejected(kind: RecordKind, h: Seq<u8>, d: Seq<u8>, q: int)
    requires
        field_entries(h) is Some,
        forall|j: int| 0 <= j < field_entries(h)->Some_0.len()
            && (#[trigger] field_entries(h)->Some_0[j]).0 != "op".spec_bytes()
            ==> field_slot(kind, field_entries(h)->Some_0[j].0) is Some
                && field_value(field_slot(kind, field_entries(h)->Some_0[j].0)->Some_0.1, field_entries(h)->Some_0[j].1) is Some,
        forall|j1: int, j2: int| 0 <= j1 < field_entries(h)->Some_0.len() && 0 <= j2 < field_entries(h)->Some_0.len()
            && j1 != j2 && (#[trigger] field_entries(h)->Some_0[j1]).0 != "op".spec_bytes()
            ==> field_entries(h)->Some_0[j1].0 != (#[trigger] field_entries(h)->Some_0[j2]).0,
        exists|j: int| 0 <= j < field_entries(h)->Some_0.len()
            && (#[trigger] field_entries(h)->Some_0[j]).0 == "op".spec_bytes()
            && field_entries(h)->Some_0[j].1 != seq![op_of(kind)],
    ensures
        decode_as(kind, h, d, q) == Err::<(RecordView, int), Error>(Error::InvalidRecord),
{
    let es = field_entries(h)->Some_0;
    assert forall|j: int| 0 <= j < es.len() && (#[trigger] es[j]).0 != "op".spec_bytes()
        implies no_slots(kind).0[field_slot(kind, es[j].0)->Some_0.0 as int] is None by {
        lemma_field_slot_bound(kind, es[j].0);
    }
    lemma_scan_wrong_op(kind, h, no_slots(kind));
}

/// The codec of the chunk record at `p` in `d`, where it rejects the
/// chunk's payload, which is the block after the record's header block.
pub open spec fn record_codec(d: Seq<u8>, p: int) -> Option<Compression> {
    if block_fits(d, p) && find_op(block_at(d, p)) == Ok::<u8, Error>(0x05) {
        match header_slots(RecordKind::Chunk, block_at(d, p)) {
            Ok(st) => chunk_codec(st, d, block_end(d, p)),
            Err(_) => None,
        }
    } else {
        None
    }
}

/// The opcode of the header block `header`.
pub fn read_op(header: &[u8]) -> (r: Result<u8, Error>)
    ensures
        r == find_op(header@),
{
    let mut it = FieldIterator::new(header);
    loop
        invariant
            find_op(header@) == find_op(it.rest()),
        decreases it.rest().len(),
    {
        proof {
            if it.rest().len() > 0 && parse_field(it.rest()) is Some {
                lemma_parse_field_len(it.rest());
            }
        }
        match it.next() {
            None => return Err(Error::InvalidRecord),
            Some(Err(e)) => return Err(e),
            Some(Ok((name, val))) => {
                if bytes_are(name, "op") {
                    if val.len() == 1 {
                        return Ok(val[0]);
                    } else {
                        return Err(Error::InvalidRecord);
                    }
                }
            },
        }
    }
}

impl<'a> Record<'a> {
    /// Decodes the record at the cursor and moves past it.
    pub fn next_record(c: &mut Cursor<'a>) -> (r: Result<Self, Error>)
        requires
            old(c).wf(),
        ensures
            final(c).wf(),
            final(c).data() == old(c).data(),
            match record_codec(old(c).data(), old(c).at()) {
                Some(k) => r matches Err(e)
                    && is_codec_error(k, block_at(old(c).data(), block_end(old(c).data(), old(c).at())), e),
                None => match record_at(old(c).data(), old(c).at()) {
                    Err(e) => r matches Err(e2) && e2 == e,
                    Ok((v, end)) => r matches Ok(x) && x@ == v && final(c).at() == end,
                },
            },
    {
        let header = match c.next_chunk() {
            Ok(h) => h,
            Err(e) => return Err(Error::from(e)),
        };
        let op = match read_op(header) {
            Ok(op) => op,
            Err(e) => return Err(e),
        };
        match RecordKind::from_op(op) {
            Some(RecordKind::BagHeader) => match BagHeader::read(header, c) {
                Ok(x) => Ok(Record::BagHeader(x)),
                Err(e) => Err(e),
            },
            Some(RecordKind::Chunk) => match Chunk::read(header, c) {
                Ok(x) => Ok(Record::Chunk(x)),
                Err(e) => Err(e),
            },
            Some(RecordKind::Connection) => match Connection::read(header, c) {
                Ok(x) => Ok(Record::Connection(x)),
                Err(e) => Err(e),
            },
            Some(RecordKind::MessageData) => match MessageData::read(header, c) {
                Ok(x) => Ok(Record::MessageData(x)),
                Err(e) => Err(e),
            },
            Some(RecordKind::IndexData) => match IndexData::read(header, c) {
                Ok(x) => Ok(Record::IndexData(x)),
                Err(e) => Err(e),
            },
            Some(RecordKind::ChunkInfo) => match ChunkInfo::read(header, c) {
                Ok(x) => Ok(Record::ChunkInfo(x)),
                Err(e) => Err(e),
            },
            None => Err(Error::InvalidRecord),
        }
    }

    /// The name of the record's kind.
    pub fn get_type(&self) -> (r: &'static str)
        ensures
            r == kind_name(kind_of_view(self@)),
    {
        match self {
            Record::BagHeader(_) => "BagHeader",
            Record::Chunk(_) => "Chunk",
            Record::Connection(_) => "Connection",
            Record::MessageData(_) => "MessageData",
            Record::IndexData(_) => "IndexData",
            Record::ChunkInfo(_) => "ChunkInfo",
        }
    }
}

} // verus!
