//! IndexData records: for one connection, the time and in-chunk offset of
//! each of its messages in the chunk just before.
use vstd::prelude::*;
use crate::bytes::{le_u32, time_of};
use crate::bytes::read_u32_le;
use crate::cursor::{Cursor, time_from_bytes};
use crate::error::Error;
use super::header::{RecordKind, FieldValue, SlotValue, Slots, header_slots, read_header};

verus! {

/// The size in bytes of one index entry.
pub const INDEX_ENTRY_LEN: u32 = 12;

/// Index of the messages of the connection `conn_id` in the preceding chunk.
#[derive(Debug, Clone, Copy, PartialEq, Eq)]
pub struct IndexData<'a> {
    /// Format version of the record (only version 1 is read).
    pub ver: u32,
    /// Connection id.
    pub conn_id: u32,
    /// The entries, as stored.
    data: &'a [u8],
}

/// The content of an `IndexData` record.
pub struct IndexDataView {
    pub ver: u32,
    pub conn_id: u32,
    pub data: Seq<u8>,
}

/// An index entry: a message's time and its offset in the chunk's payload.
#[derive(Debug, Clone, Copy, Default, PartialEq, Eq, Structural)]
pub struct IndexDataEntry {
    /// Time the message was received, in nanoseconds since the UNIX epoch.
    pub time: u64,
    /// Offset of the message's record in the decompressed chunk payload.
    pub offset: u32,
}

/// The index entry stored at byte `p` of `d`.
pub open spec fn index_entry_at(d: Seq<u8>, p: int) -> IndexDataEntry {
    IndexDataEntry {
        time: time_of(d.subrange(p, p + 8)) as u64,
        offset: le_u32(d.subrange(p + 8, p + 12)) as u32,
    }
}

/// The whole index entries stored in `d` from byte `p` on, in order.
pub open spec fn index_entries_from(d: Seq<u8>, p: int) -> Seq<IndexDataEntry> {
    Seq::new(((d.len() - p) / 12) as nat, |i: int| index_entry_at(d, p + 12 * i))
}

/// The index entries stored in `d`.
pub open spec fn index_entries(d: Seq<u8>) -> Seq<IndexDataEntry> {
    index_entries_from(d, 0)
}

impl<'a> View for IndexData<'a> {
    type V = IndexDataView;

    closed spec fn view(&self) -> IndexDataView {
        IndexDataView { ver: self.ver, conn_id: self.conn_id, data: self.data@ }
    }
}

/// The body phase of an `IndexData` record whose header gave `st` and whose
/// body starts at `q` in `d`: a `u32` byte length, a whole number of
/// entries that agrees with the header's `count`, then the entries.
pub open spec fn index_data_of(st: Slots, d: Seq<u8>, q: int) -> Result<(IndexDataView, int), Error> {
    match (st.0[0], st.0[1], st.0[2]) {
        (Some(SlotValue::Int32(ver)), Some(SlotValue::Int32(conn_id)), Some(SlotValue::Int32(count))) => if !st.1 {
            Err(Error::InvalidRecord)
        } else if ver != 1 {
            Err(Error::UnsupportedVersion)
        } else if q + 4 > d.len() {
            Err(Error::OutOfBounds)
        } else {
            let n = le_u32(d.subrange(q, q + 4));
            if n % 12 != 0 || n / 12 != count {
                Err(Error::InvalidRecord)
            } else if q + 4 + n > d.len() {
                Err(Error::OutOfBounds)
            } else {
                Ok((IndexDataView { ver, conn_id, data: d.subrange(q + 4, q + 4 + n) }, q + 4 + n))
            }
        },
        _ => Err(Error::InvalidHeader),
    }
}

/// A well-formed `IndexData` body holds exactly as many entries as the header's
/// `count` field says.
pub proof fn lemma_index_data_entry_count(st: Slots, d: Seq<u8>, q: int)
    requires
        0 <= q,
        st.0.len() == 3,
        index_data_of(st, d, q) is Ok,
    ensures
        st.0[2] matches Some(SlotValue::Int32(count)) && index_entries(index_data_of(st, d, q)->Ok_0.0.data).len() == count,
{
    let n = crate::bytes::le_u32(d.subrange(q, q + 4));
    assert(index_data_of(st, d, q)->Ok_0.0.data.len() == n);
}

/// Whether the header block `h` of a `IndexData` record passes every check made
/// before the body is read (its fields, its opcode, its version); a decode stops without
/// moving the cursor where it does not.
pub open spec fn index_data_reads_body(h: Seq<u8>) -> bool {
    match header_slots(RecordKind::IndexData, h) {
        Ok(st) => match (st.0[0], st.0[1], st.0[2]) {
            (Some(SlotValue::Int32(ver)), Some(SlotValue::Int32(_)), Some(SlotValue::Int32(_))) => st.1 && ver == 1,
            _ => false,
        },
        Err(_) => false,
    }
}

impl<'a> IndexData<'a> {
    /// Decodes an `IndexData` record with header block `header` whose body
    /// starts at the cursor.
    pub fn read(header: &'a [u8], c: &mut Cursor<'a>) -> (r: Result<Self, Error>)
        requires
            old(c).wf(),
        ensures
            final(c).wf(),
            final(c).data() == old(c).data(),
            !index_data_reads_body(header@) ==> final(c).at() == old(c).at() && r is Err,
            match header_slots(RecordKind::IndexData, header@) {
                Err(e) => r matches Err(e2) && e2 == e,
                Ok(st) => match index_data_of(st, old(c).data(), old(c).at()) {
                    Err(e) => r matches Err(e2) && e2 == e,
                    Ok((v, end)) => r matches Ok(x) && x@ == v && final(c).at() == end,
                },
            },
    {
        let (slots, op_seen) = match read_header(RecordKind::IndexData, header) {
            Ok(t) => t,
            Err(e) => return Err(e),
        };
        assert(slots@.len() == 3);
        match (slots[0], slots[1], slots[2]) {
            (Some(FieldValue::Int32(ver)), Some(FieldValue::Int32(conn_id)), Some(FieldValue::Int32(count))) => {
                if !op_seen {
                    return Err(Error::InvalidRecord);
                }
                if ver != 1 {
                    return Err(Error::UnsupportedVersion);
                }
                let n = match c.next_u32() {
                    Ok(n) => n,
                    Err(e) => return Err(Error::from(e)),
                };
                if n % INDEX_ENTRY_LEN != 0 || n / INDEX_ENTRY_LEN != count {
                    return Err(Error::InvalidRecord);
                }
                match c.next_bytes(n as u64) {
                    Ok(data) => Ok(IndexData { ver, conn_id, data }),
                    Err(e) => Err(Error::from(e)),
                }
            },
            _ => Err(Error::InvalidHeader),
        }
    }

    /// The entries, in the order stored.
    pub closed spec fn entries_view(&self) -> Seq<IndexDataEntry> {
        index_entries(self.data@)
    }

    /// An iterator over the entries.
    pub fn entries(&self) -> (r: IndexDataEntriesIterator<'a>)
        ensures
            r.rest() == self.entries_view(),
            self.entries_view() == index_entries(self@.data),
    {
        let it = IndexDataEntriesIterator { data: self.data, pos: 0 };
        assert(it.rest() =~= self.entries_view());
        it
    }
}

/// Iterator over the entries of an `IndexData` record.
pub struct IndexDataEntriesIterator<'a> {
    data: &'a [u8],
    pos: usize,
}

impl<'a> IndexDataEntriesIterator<'a> {
    /// The entries not yet yielded.
    pub closed spec fn rest(&self) -> Seq<IndexDataEntry> {
        if self.pos <= self.data@.len() {
            index_entries_from(self.data@, self.pos as int)
        } else {
            Seq::empty()
        }
    }

    /// The next entry, or `None` after the last.
    pub fn next(&mut self) -> (r: Option<IndexDataEntry>)
        ensures
            old(self).rest().len() == 0 ==> r is None && final(self).rest() == old(self).rest(),
            old(self).rest().len() > 0 ==> r == Some(old(self).rest()[0])
                && final(self).rest() == old(self).rest().drop_first(),
    {
        let len = self.data.len();
        if self.pos > len || len - self.pos < 12 {
            return None;
        }
        let p = self.pos;
        let time = time_from_bytes(vstd::slice::slice_subrange(self.data, p, p + 8));
        let offset = read_u32_le(vstd::slice::slice_subrange(self.data, p + 8, p + 12));
        self.pos = p + 12;
        let e = IndexDataEntry { time, offset };
        assert(e == index_entry_at(self.data@, p as int));
        assert(self.rest() =~= old(self).rest().drop_first());
        Some(e)
    }
}

} // verus!
