//! ChunkInfo records: where a chunk is, the time span it covers, and how
//! many messages of each connection it holds.
use vstd::prelude::*;
use crate::bytes::{le_u32, read_u32_le};
use crate::cursor::Cursor;
use crate::error::Error;
use super::header::{RecordKind, FieldValue, SlotValue, Slots, header_slots, read_header};

verus! {

/// The size in bytes of one chunk info entry.
pub const CHUNK_INFO_ENTRY_LEN: u32 = 8;

/// Summary of one `Chunk` record.
#[derive(Debug, Clone, Copy, PartialEq, Eq)]
pub struct ChunkInfo<'a> {
    /// Format version of the record (only version 1 is read).
    pub ver: u32,
    /// Offset of the chunk record from the start of the bag file.
    pub chunk_pos: u64,
    /// Time of the earliest message in the chunk, in nanoseconds since the
    /// UNIX epoch.
    pub start_time: u64,
    /// Time of the latest message in the chunk, in nanoseconds since the UNIX
    /// epoch.
    pub end_time: u64,
    /// The entries, as stored.
    data: &'a [u8],
}

/// The content of a `ChunkInfo` record.
pub struct ChunkInfoView {
    pub ver: u32,
    pub chunk_pos: u64,
    pub start_time: u64,
    pub end_time: u64,
    pub data: Seq<u8>,
}

/// The number of messages of the connection `conn_id` in a chunk.
#[derive(Debug, Clone, Copy, Default, PartialEq, Eq, Structural)]
pub struct ChunkInfoEntry {
    /// Connection id.
    pub conn_id: u32,
    /// Number of messages that arrived on the connection in the chunk.
    pub count: u32,
}

/// The chunk info entry stored at byte `p` of `d`.
pub open spec fn chunk_info_entry_at(d: Seq<u8>, p: int) -> ChunkInfoEntry {
    ChunkInfoEntry {
        conn_id: le_u32(d.subrange(p, p + 4)) as u32,
        count: le_u32(d.subrange(p + 4, p + 8)) as u32,
    }
}

/// The whole chunk info entries stored in `d` from byte `p` on, in order.
pub open spec fn chunk_info_entries_from(d: Seq<u8>, p: int) -> Seq<ChunkInfoEntry> {
    Seq::new(((d.len() - p) / 8) as nat, |i: int| chunk_info_entry_at(d, p + 8 * i))
}

/// The chunk info entries stored in `d`.
pub open spec fn chunk_info_entries(d: Seq<u8>) -> Seq<ChunkInfoEntry> {
    chunk_info_entries_from(d, 0)
}

impl<'a> View for ChunkInfo<'a> {
    type V = ChunkInfoView;

    closed spec fn view(&self) -> ChunkInfoView {
        ChunkInfoView {
            ver: self.ver,
            chunk_pos: self.chunk_pos,
            start_time: self.start_time,
            end_time: self.end_time,
            data: self.data@,
        }
    }
}

/// The body phase of a `ChunkInfo` record whose header gave `st` and whose
/// body starts at `q` in `d`: a `u32` byte length, a whole number of
/// entries that agrees with the header's `count`, then the entries.
pub open spec fn chunk_info_of(st: Slots, d: Seq<u8>, q: int) -> Result<(ChunkInfoView, int), Error> {
    match (st.0[0], st.0[1], st.0[2], st.0[3], st.0[4]) {
        (
            Some(SlotValue::Int32(ver)),
            Some(SlotValue::Int64(chunk_pos)),
            Some(SlotValue::Int64(start_time)),
            Some(SlotValue::Int64(end_time)),
            Some(SlotValue::Int32(count)),
        ) => if !st.1 {
            Err(Error::InvalidRecord)
        } else if ver != 1 {
            Err(Error::UnsupportedVersion)
        } else if q + 4 > d.len() {
            Err(Error::OutOfBounds)
        } else {
            let n = le_u32(d.subrange(q, q + 4));
            if n % 8 != 0 || n / 8 != count {
                Err(Error::InvalidRecord)
            } else if q + 4 + n > d.len() {
                Err(Error::OutOfBounds)
            } else {
                Ok((
                    ChunkInfoView { ver, chunk_pos, start_time, end_time, data: d.subrange(q + 4, q + 4 + n) },
                    q + 4 + n,
                ))
            }
        },
        _ => Err(Error::InvalidHeader),
    }
}

/// A well-formed `ChunkInfo` body holds exactly as many entries as the header's
/// `count` field says.
pub proof fn lemma_chunk_info_entry_count(st: Slots, d: Seq<u8>, q: int)
    requires
        0 <= q,
        st.0.len() == 5,
        chunk_info_of(st, d, q) is Ok,
    ensures
        st.0[4] matches Some(SlotValue::Int32(count)) && chunk_info_entries(chunk_info_of(st, d, q)->Ok_0.0.data).len() == count,
{
    let n = crate::bytes::le_u32(d.subrange(q, q + 4));
    assert(chunk_info_of(st, d, q)->Ok_0.0.data.len() == n);
}

/// Whether the header block `h` of a `ChunkInfo` record passes every check made
/// before the body is read (its fields, its opcode, its version); a decode stops without
/// moving the cursor where it does not.
pub open spec fn chunk_info_reads_body(h: Seq<u8>) -> bool {
    match header_slots(RecordKind::ChunkInfo, h) {
        Ok(st) => match (st.0[0], st.0[1], st.0[2], st.0[3], st.0[4]) {
            (
                Some(SlotValue::Int32(ver)),
                Some(SlotValue::Int64(_)),
                Some(SlotValue::Int64(_)),
                Some(SlotValue::Int64(_)),
                Some(SlotValue::Int32(_)),
            ) => st.1 && ver == 1,
            _ => false,
        },
        Err(_) => false,
    }
}

impl<'a> ChunkInfo<'a> {
    /// Decodes a `ChunkInfo` record with header block `header` whose body
    /// starts at the cursor.
    pub fn read(header: &'a [u8], c: &mut Cursor<'a>) -> (r: Result<Self, Error>)
        requires
            old(c).wf(),
        ensures
            final(c).wf(),
            final(c).data() == old(c).data(),
            !chunk_info_reads_body(header@) ==> final(c).at() == old(c).at() && r is Err,
            match header_slots(RecordKind::ChunkInfo, header@) {
                Err(e) => r matches Err(e2) && e2 == e,
                Ok(st) => match chunk_info_of(st, old(c).data(), old(c).at()) {
                    Err(e) => r matches Err(e2) && e2 == e,
                    Ok((v, end)) => r matches Ok(x) && x@ == v && final(c).at() == end,
                },
            },
    {
        let (slots, op_seen) = match read_header(RecordKind::ChunkInfo, header) {
            Ok(t) => t,
            Err(e) => return Err(e),
        };
        assert(slots@.len() == 5);
        match (slots[0], slots[1], slots[2], slots[3], slots[4]) {
            (
                Some(FieldValue::Int32(ver)),
                Some(FieldValue::Int64(chunk_pos)),
                Some(FieldValue::Int64(start_time)),
                Some(FieldValue::Int64(end_time)),
                Some(FieldValue::Int32(count)),
            ) => {
                if !op_seen {
                    return Err(Error::InvalidRecord);
                }
                if ver != 1 {
                    return Err(Error::UnsupportedVersion);
                }
                let n = match c.next_u32() {
                    Ok(n) => n,
                    Err(e) => return Err(Error::from(e)),
                };
                if n % CHUNK_INFO_ENTRY_LEN != 0 || n / CHUNK_INFO_ENTRY_LEN != count {
                    return Err(Error::InvalidRecord);
                }
                match c.next_bytes(n as u64) {
                    Ok(data) => Ok(ChunkInfo { ver, chunk_pos, start_time, end_time, data }),
                    Err(e) => Err(Error::from(e)),
                }
            },
            _ => Err(Error::InvalidHeader),
        }
    }

    /// The entries, in the order stored.
    pub closed spec fn entries_view(&self) -> Seq<ChunkInfoEntry> {
        chunk_info_entries(self.data@)
    }

    /// An iterator over the entries.
    pub fn entries(&self) -> (r: ChunkInfoEntriesIterator<'a>)
        ensures
            r.rest() == self.entries_view(),
            self.entries_view() == chunk_info_entries(self@.data),
    {
        let it = ChunkInfoEntriesIterator { data: self.data, pos: 0 };
        assert(it.rest() =~= self.entries_view());
        it
    }
}

/// Iterator over the entries of a `ChunkInfo` record.
pub struct ChunkInfoEntriesIterator<'a> {
    data: &'a [u8],
    pos: usize,
}

impl<'a> ChunkInfoEntriesIterator<'a> {
    /// The entries not yet yielded.
    pub closed spec fn rest(&self) -> Seq<ChunkInfoEntry> {
        if self.pos <= self.data@.len() {
            chunk_info_entries_from(self.data@, self.pos as int)
        } else {
            Seq::empty()
        }
    }

    /// The next entry, or `None` after the last.
    pub fn next(&mut self) -> (r: Option<ChunkInfoEntry>)
        ensures
            old(self).rest().len() == 0 ==> r is None && final(self).rest() == old(self).rest(),
            old(self).rest().len() > 0 ==> r == Some(old(self).rest()[0])
                && final(self).rest() == old(self).rest().drop_first(),
    {
        let len = self.data.len();
        if self.pos > len || len - self.pos < 8 {
            return None;
        }
        let p = self.pos;
        let conn_id = read_u32_le(vstd::slice::slice_subrange(self.data, p, p + 4));
        let count = read_u32_le(vstd::slice::slice_subrange(self.data, p + 4, p + 8));
        self.pos = p + 8;
        let e = ChunkInfoEntry { conn_id, count };
        assert(e == chunk_info_entry_at(self.data@, p as int));
        assert(self.rest() =~= old(self).rest().drop_first());
        Some(e)
    }
}

} // verus!
