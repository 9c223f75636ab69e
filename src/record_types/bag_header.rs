//! BagHeader records: where the index section starts, and how much the file
//! holds.
use vstd::prelude::*;
use crate::cursor::{Cursor, block_fits, block_end};
use crate::error::Error;
use super::header::{RecordKind, FieldValue, SlotValue, Slots, header_slots, read_header};

verus! {

/// The record at the head of a bag file.
#[derive(Debug, Clone, Copy, PartialEq, Eq, Structural)]
pub struct BagHeader {
    /// Offset of the first record after the chunk section.
    pub index_pos: u64,
    /// Number of distinct connections in the file.
    pub conn_count: u32,
    /// Number of chunk records in the file.
    pub chunk_count: u32,
}

/// The body phase of a `BagHeader` record whose header gave `st` and whose
/// body (padding, passed over) starts at `q` in `d`.
pub open spec fn bag_header_of(st: Slots, d: Seq<u8>, q: int) -> Result<(BagHeader, int), Error> {
    match (st.0[0], st.0[1], st.0[2]) {
        (Some(SlotValue::Int64(index_pos)), Some(SlotValue::Int32(conn_count)), Some(SlotValue::Int32(chunk_count))) => if !st.1 {
            Err(Error::InvalidRecord)
        } else if !block_fits(d, q) {
            Err(Error::OutOfBounds)
        } else {
            Ok((BagHeader { index_pos, conn_count, chunk_count }, block_end(d, q)))
        },
        _ => Err(Error::InvalidHeader),
    }
}

/// Whether the header block `h` of a `BagHeader` record passes every check made
/// before the body is read (its fields, its opcode); a decode stops without
/// moving the cursor where it does not.
pub open spec fn bag_header_reads_body(h: Seq<u8>) -> bool {
    match header_slots(RecordKind::BagHeader, h) {
        Ok(st) => match (st.0[0], st.0[1], st.0[2]) {
            (Some(SlotValue::Int64(_)), Some(SlotValue::Int32(_)), Some(SlotValue::Int32(_))) => st.1,
            _ => false,
        },
        Err(_) => false,
    }
}

impl BagHeader {
    /// Decodes a `BagHeader` record with header block `header` whose body
    /// starts at the cursor.
    pub fn read<'a>(header: &'a [u8], c: &mut Cursor<'a>) -> (r: Result<Self, Error>)
        requires
            old(c).wf(),
        ensures
            final(c).wf(),
            final(c).data() == old(c).data(),
            !bag_header_reads_body(header@) ==> final(c).at() == old(c).at() && r is Err,
            match header_slots(RecordKind::BagHeader, header@) {
                Err(e) => r matches Err(e2) && e2 == e,
                Ok(st) => match bag_header_of(st, old(c).data(), old(c).at()) {
                    Err(e) => r matches Err(e2) && e2 == e,
                    Ok((v, end)) => r matches Ok(b) && b == v && final(c).at() == end,
                },
            },
    {
        let (slots, op_seen) = match read_header(RecordKind::BagHeader, header) {
            Ok(t) => t,
            Err(e) => return Err(e),
        };
        assert(slots@.len() == 3);
        match (slots[0], slots[1], slots[2]) {
            (Some(FieldValue::Int64(index_pos)), Some(FieldValue::Int32(conn_count)), Some(FieldValue::Int32(chunk_count))) => {
                if !op_seen {
                    return Err(Error::InvalidRecord);
                }
                match c.next_chunk() {
                    Ok(_) => Ok(BagHeader { index_pos, conn_count, chunk_count }),
                    Err(e) => Err(Error::from(e)),
                }
            },
            _ => Err(Error::InvalidHeader),
        }
    }
}

} // verus!
