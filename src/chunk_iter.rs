//! Iteration over the chunk section of a bag.
use vstd::prelude::*;
use crate::cursor::{Cursor, block_at, block_end};
use crate::error::Error;
use crate::record::{Record, RecordView, record_at, record_codec, kind_name, kind_of_view};
use crate::record_types::chunk::is_codec_error;
use crate::record_types::chunk::Chunk;
use crate::record_types::index_data::IndexData;

verus! {

/// The records that may stand in the chunk section.
#[derive(Debug, Clone, PartialEq, Eq)]
pub enum ChunkRecord<'a> {
    /// A `Chunk` record.
    Chunk(Chunk<'a>),
    /// An `IndexData` record.
    IndexData(IndexData<'a>),
}

impl<'a> View for ChunkRecord<'a> {
    type V = RecordView;

    open spec fn view(&self) -> RecordView {
        match self {
            ChunkRecord::Chunk(x) => RecordView::Chunk(x@),
            ChunkRecord::IndexData(x) => RecordView::IndexData(x@),
        }
    }
}

/// Whether a record of that content may stand in the chunk section.
pub open spec fn in_chunk_section(v: RecordView) -> bool {
    v is Chunk || v is IndexData
}

/// What decoding the next record of a region yields: the outcome of the
/// record at `p` in `d` (a codec error where the codec of a chunk record
/// there rejects its payload), where `legal` tells the kinds allowed there
/// and `unexpected` names the error for the others; `end` is where the
/// cursor stands afterwards.
pub open spec fn region_step<T: View<V = RecordView>>(
    d: Seq<u8>,
    p: int,
    res: Result<T, Error>,
    end: int,
    legal: spec_fn(RecordView) -> bool,
    unexpected: spec_fn(&'static str) -> Error,
) -> bool {
    match record_codec(d, p) {
        Some(k) => res matches Err(e) && is_codec_error(k, block_at(d, block_end(d, p)), e),
        None => match record_at(d, p) {
            Err(e) => res matches Err(e2) && e2 == e,
            Ok((v, next)) => if legal(v) {
                res matches Ok(x) && x@ == v && end == next
            } else {
                res matches Err(e2) && e2 == unexpected(kind_name(kind_of_view(v)))
            },
        },
    }
}

/// Decoding the record at the same position of a region twice, for instance
/// after seeking back to it, gives the same record where both decodes
/// succeed, and ends at the same place.
pub proof fn lemma_decode_repeatable<T: View<V = RecordView>>(
    d: Seq<u8>,
    p: int,
    r1: Result<T, Error>,
    end1: int,
    r2: Result<T, Error>,
    end2: int,
    legal: spec_fn(RecordView) -> bool,
    unexpected: spec_fn(&'static str) -> Error,
)
    requires
        region_step(d, p, r1, end1, legal, unexpected),
        region_step(d, p, r2, end2, legal, unexpected),
        r1 is Ok,
        r2 is Ok,
    ensures
        r1->Ok_0@ == r2->Ok_0@,
        end1 == end2,
{
}

/// Iterator over the records of the chunk section of a bag.
pub struct ChunkRecordsIterator<'a> {
    cursor: Cursor<'a>,
    offset: u64,
}

impl<'a> ChunkRecordsIterator<'a> {
    pub closed spec fn wf(&self) -> bool {
        &&& self.cursor.wf()
        &&& self.offset + self.cursor.data().len() <= u64::MAX
    }

    /// The bytes of the section.
    pub closed spec fn region(&self) -> Seq<u8> {
        self.cursor.data()
    }

    /// Where the section starts in the bag.
    pub closed spec fn offset(&self) -> int {
        self.offset as int
    }

    /// The position in the section.
    pub closed spec fn at(&self) -> int {
        self.cursor.at()
    }

    /// A well-formed iterator stands inside its region.
    pub proof fn lemma_in_bounds(&self)
        requires
            self.wf(),
        ensures
            0 <= self.at() <= self.region().len(),
    {
        self.cursor.lemma_in_bounds();
    }

    /// An iterator over the section of `bag` from byte `start` up to byte
    /// `end`; fails if that is not a range of `bag`.
    pub fn new(bag: &'a [u8], start: u64, end: u64) -> (r: Result<Self, Error>)
        ensures
            r is Ok <==> start <= end <= bag@.len(),
            r matches Ok(it) ==> it.wf() && it.region() == bag@.subrange(start as int, end as int)
                && it.offset() == start && it.at() == 0,
            r matches Err(e) ==> e == Error::OutOfBounds,
    {
        if start > end || end > bag.len() as u64 {
            return Err(Error::OutOfBounds);
        }
        let region = vstd::slice::slice_subrange(bag, start as usize, end as usize);
        Ok(ChunkRecordsIterator { cursor: Cursor::new(region), offset: start })
    }

    /// Moves to the absolute position `pos` in the bag. Only the start of a
    /// record is worth seeking to: elsewhere the next decode fails.
    pub fn seek(&mut self, pos: u64) -> (r: Result<(), Error>)
        requires
            old(self).wf(),
        ensures
            final(self).wf(),
            final(self).region() == old(self).region(),
            final(self).offset() == old(self).offset(),
            r is Ok <==> old(self).offset() <= pos <= old(self).offset() + old(self).region().len(),
            r is Ok ==> final(self).at() == pos - old(self).offset(),
            r matches Err(e) ==> e == Error::OutOfBounds && final(self).at() == old(self).at(),
    {
        if pos < self.offset {
            return Err(Error::OutOfBounds);
        }
        match self.cursor.seek(pos - self.offset) {
            Ok(()) => Ok(()),
            Err(e) => Err(Error::from(e)),
        }
    }

    /// The next record of the section, or `None` at its end. A record of a
    /// kind other than `Chunk` or `IndexData` is an
    /// `UnexpectedChunkSectionRecord` error.
    pub fn next(&mut self) -> (r: Option<Result<ChunkRecord<'a>, Error>>)
        requires
            old(self).wf(),
        ensures
            final(self).wf(),
            final(self).region() == old(self).region(),
            final(self).offset() == old(self).offset(),
            r is None <==> old(self).at() == old(self).region().len(),
            r is None ==> final(self).at() == old(self).at(),
            old(self).at() < old(self).region().len() ==> (r matches Some(res) && region_step(
                old(self).region(),
                old(self).at(),
                res,
                final(self).at(),
                |v: RecordView| in_chunk_section(v),
                |n: &'static str| Error::UnexpectedChunkSectionRecord(n),
            )),
    {
        proof {
            self.cursor.lemma_in_bounds();
        }
        if self.cursor.left() == 0 {
            return None;
        }
        let res = match Record::next_record(&mut self.cursor) {
            Ok(Record::Chunk(v)) => Ok(ChunkRecord::Chunk(v)),
            Ok(Record::IndexData(v)) => Ok(ChunkRecord::IndexData(v)),
            Ok(v) => Err(Error::UnexpectedChunkSectionRecord(v.get_type())),
            Err(e) => Err(e),
        };
        Some(res)
    }
}

} // verus!
