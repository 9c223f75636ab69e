//! Iteration over the index section of a bag.
use vstd::prelude::*;
use crate::chunk_iter::region_step;
use crate::cursor::Cursor;
use crate::error::Error;
use crate::record::{Record, RecordView};
use crate::record_types::chunk_info::ChunkInfo;
use crate::record_types::connection::Connection;
use crate::record_types::index_data::IndexData;

verus! {

/// The records that may stand in the index section.
#[derive(Debug, Clone, PartialEq, Eq)]
pub enum IndexRecord<'a> {
    /// An `IndexData` record.
    IndexData(IndexData<'a>),
    /// A `Connection` record.
    Connection(Connection<'a>),
    /// A `ChunkInfo` record.
    ChunkInfo(ChunkInfo<'a>),
}

impl<'a> View for IndexRecord<'a> {
    type V = RecordView;

    open spec fn view(&self) -> RecordView {
        match self {
            IndexRecord::IndexData(x) => RecordView::IndexData(x@),
            IndexRecord::Connection(x) => RecordView::Connection(x@),
            IndexRecord::ChunkInfo(x) => RecordView::ChunkInfo(x@),
        }
    }
}

/// Whether a record of that content may stand in the index section.
pub open spec fn in_index_section(v: RecordView) -> bool {
    v is IndexData || v is Connection || v is ChunkInfo
}

/// Iterator over the records of the index section of a bag.
pub struct IndexRecordsIterator<'a> {
    cursor: Cursor<'a>,
    offset: u64,
}

impl<'a> IndexRecordsIterator<'a> {
    pub closed spec fn wf(&self) -> bool {
        &&& self.cursor.wf()
        &&& self.offset + self.cursor.data().len() <= u64::MAX
    }

    /// The bytes of the section.
    pub closed spec fn region(&self) -> Seq<u8> {
        self.cursor.data()
    }

    /// Where the section starts in the bag.
    pub closed spec fn offset(&self) -> int {
        self.offset as int
    }

    /// The position in the section.
    pub closed spec fn at(&self) -> int {
        self.cursor.at()
    }

    /// A well-formed iterator stands inside its region.
    pub proof fn lemma_in_bounds(&self)
        requires
            self.wf(),
        ensures
            0 <= self.at() <= self.region().len(),
    {
        self.cursor.lemma_in_bounds();
    }

    /// An iterator over the section of `bag` from byte `start` to its end;
    /// fails if `start` is past the end.
    pub fn new(bag: &'a [u8], start: u64) -> (r: Result<Self, Error>)
        ensures
            r is Ok <==> start <= bag@.len(),
            r matches Ok(it) ==> it.wf() && it.region() == bag@.subrange(start as int, bag@.len() as int)
                && it.offset() == start && it.at() == 0,
            r matches Err(e) ==> e == Error::OutOfBounds,
    {
        let len = bag.len();
        if start > len as u64 {
            return Err(Error::OutOfBounds);
        }
        let region = vstd::slice::slice_subrange(bag, start as usize, len);
        Ok(IndexRecordsIterator { cursor: Cursor::new(region), offset: start })
    }

    /// Moves to the absolute position `pos` in the bag. Only the start of a
    /// record is worth seeking to: elsewhere the next decode fails.
    pub fn seek(&mut self, pos: u64) -> (r: Result<(), Error>)
        requires
            old(self).wf(),
        ensures
            final(self).wf(),
            final(self).region() == old(self).region(),
            final(self).offset() == old(self).offset(),
            r is Ok <==> old(self).offset() <= pos <= old(self).offset() + old(self).region().len(),
            r is Ok ==> final(self).at() == pos - old(self).offset(),
            r matches Err(e) ==> e == Error::OutOfBounds && final(self).at() == old(self).at(),
    {
        if pos < self.offset {
            return Err(Error::OutOfBounds);
        }
        match self.cursor.seek(pos - self.offset) {
            Ok(()) => Ok(()),
            Err(e) => Err(Error::from(e)),
        }
    }

    /// The next record of the section, or `None` at its end. A record of a
    /// kind other than `IndexData`, `Connection` or `ChunkInfo` is an
    /// `UnexpectedIndexSectionRecord` error.
    pub fn next(&mut self) -> (r: Option<Result<IndexRecord<'a>, Error>>)
        requires
            old(self).wf(),
        ensures
            final(self).wf(),
            final(self).region() == old(self).region(),
            final(self).offset() == old(self).offset(),
            r is None <==> old(self).at() == old(self).region().len(),
            r is None ==> final(self).at() == old(self).at(),
            old(self).at() < old(self).region().len() ==> (r matches Some(res) && region_step(
                old(self).region(),
                old(self).at(),
                res,
                final(self).at(),
                |v: RecordView| in_index_section(v),
                |n: &'static str| Error::UnexpectedIndexSectionRecord(n),
            )),
    {
        proof {
            self.cursor.lemma_in_bounds();
        }
        if self.cursor.left() == 0 {
            return None;
        }
        let res = match Record::next_record(&mut self.cursor) {
            Ok(Record::IndexData(v)) => Ok(IndexRecord::IndexData(v)),
            Ok(Record::Connection(v)) => Ok(IndexRecord::Connection(v)),
            Ok(Record::ChunkInfo(v)) => Ok(IndexRecord::ChunkInfo(v)),
            Ok(v) => Err(Error::UnexpectedIndexSectionRecord(v.get_type())),
            Err(e) => Err(e),
        };
        Some(res)
    }
}

} // verus!
