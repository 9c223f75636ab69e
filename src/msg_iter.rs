//! Iteration over the records inside a chunk's payload.
use vstd::prelude::*;
use crate::chunk_iter::region_step;
use crate::cursor::Cursor;
use crate::error::Error;
use crate::record::{Record, RecordView};
use crate::record_types::connection::Connection;
use crate::record_types::message_data::MessageData;

verus! {

/// The largest payload a chunk can hold.
pub const MAX_CHUNK_LEN: u64 = 0x1_0000_0000;

/// The records that may stand in a chunk's payload.
#[derive(Debug, Clone, PartialEq, Eq)]
pub enum MessageRecord<'a> {
    /// A `MessageData` record.
    MessageData(MessageData<'a>),
    /// A `Connection` record.
    Connection(Connection<'a>),
}

impl<'a> View for MessageRecord<'a> {
    type V = RecordView;

    open spec fn view(&self) -> RecordView {
        match self {
            MessageRecord::MessageData(x) => RecordView::MessageData(x@),
            MessageRecord::Connection(x) => RecordView::Connection(x@),
        }
    }
}

/// Whether a record of that content may stand in a chunk's payload.
pub open spec fn in_chunk_payload(v: RecordView) -> bool {
    v is MessageData || v is Connection
}

/// Iterator over the records of a chunk's decompressed payload.
pub struct MessageRecordsIterator<'a> {
    cursor: Cursor<'a>,
}

impl<'a> MessageRecordsIterator<'a> {
    pub closed spec fn wf(&self) -> bool {
        &&& self.cursor.wf()
        &&& self.cursor.data().len() <= MAX_CHUNK_LEN
    }

    /// The bytes of the payload.
    pub closed spec fn region(&self) -> Seq<u8> {
        self.cursor.data()
    }

    /// The position in the payload.
    pub closed spec fn at(&self) -> int {
        self.cursor.at()
    }

    /// A well-formed iterator stands inside its region.
    pub proof fn lemma_in_bounds(&self)
        requires
            self.wf(),
        ensures
            0 <= self.at() <= self.region().len(),
    {
        self.cursor.lemma_in_bounds();
    }

    /// An iterator over the records of the payload `data`.
    pub fn new(data: &'a [u8]) -> (r: Self)
        requires
            data@.len() <= MAX_CHUNK_LEN,
        ensures
            r.wf(),
            r.region() == data@,
            r.at() == 0,
    {
        MessageRecordsIterator { cursor: Cursor::new(data) }
    }

    /// Moves to `offset` bytes from the start of the payload, as recorded in
    /// `IndexData` entries. Only the start of a record is worth seeking to:
    /// elsewhere the next decode fails.
    pub fn seek(&mut self, offset: u32) -> (r: Result<(), Error>)
        requires
            old(self).wf(),
        ensures
            final(self).wf(),
            final(self).region() == old(self).region(),
            r is Ok <==> offset <= old(self).region().len(),
            r is Ok ==> final(self).at() == offset,
            r matches Err(e) ==> e == Error::OutOfBounds && final(self).at() == old(self).at(),
    {
        match self.cursor.seek(offset as u64) {
            Ok(()) => Ok(()),
            Err(e) => Err(Error::from(e)),
        }
    }

    /// The next record of the payload, or `None` at its end. A record of a
    /// kind other than `MessageData` or `Connection` is an
    /// `UnexpectedMessageRecord` error.
    pub fn next(&mut self) -> (r: Option<Result<MessageRecord<'a>, Error>>)
        requires
            old(self).wf(),
        ensures
            final(self).wf(),
            final(self).region() == old(self).region(),
            r is None <==> old(self).at() == old(self).region().len(),
            r is None ==> final(self).at() == old(self).at(),
            old(self).at() < old(self).region().len() ==> (r matches Some(res) && region_step(
                old(self).region(),
                old(self).at(),
                res,
                final(self).at(),
                |v: RecordView| in_chunk_payload(v),
                |n: &'static str| Error::UnexpectedMessageRecord(n),
            )),
    {
        proof {
            self.cursor.lemma_in_bounds();
        }
        if self.cursor.left() == 0 {
            return None;
        }
        let res = match Record::next_record(&mut self.cursor) {
            Ok(Record::MessageData(v)) => Ok(MessageRecord::MessageData(v)),
            Ok(Record::Connection(v)) => Ok(MessageRecord::Connection(v)),
            Ok(v) => Err(Error::UnexpectedMessageRecord(v.get_type())),
            Err(e) => Err(e),
        };
        Some(res)
    }
}

} // verus!
