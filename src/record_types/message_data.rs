//! MessageData records: one opaque, time-stamped payload.
use vstd::prelude::*;
use crate::cursor::{Cursor, block_fits, block_at, block_end};
use crate::error::Error;
use super::header::{RecordKind, FieldValue, SlotValue, Slots, header_slots, read_header};

verus! {

/// Message data for the connection with id `conn_id`.
#[derive(Debug, Clone, Copy, PartialEq, Eq)]
pub struct MessageData<'a> {
    /// Id of the connection the message arrived on.
    pub conn_id: u32,
    /// Time the message was received, in nanoseconds since the UNIX epoch.
    pub time: u64,
    /// The serialized message.
    pub data: &'a [u8],
}

/// The content of a `MessageData` record.
pub struct MessageDataView {
    pub conn_id: u32,
    pub time: u64,
    pub data: Seq<u8>,
}

impl<'a> View for MessageData<'a> {
    type V = MessageDataView;

    open spec fn view(&self) -> MessageDataView {
        MessageDataView { conn_id: self.conn_id, time: self.time, data: self.data@ }
    }
}

/// The body phase of a `MessageData` record whose header gave `st` and whose
/// body starts at `q` in `d`: the record, and where the next one starts.
pub open spec fn message_data_of(st: Slots, d: Seq<u8>, q: int) -> Result<(MessageDataView, int), Error> {
    match (st.0[0], st.0[1]) {
        (Some(SlotValue::Int32(conn_id)), Some(SlotValue::Int64(time))) => if !st.1 {
            Err(Error::InvalidRecord)
        } else if !block_fits(d, q) {
            Err(Error::OutOfBounds)
        } else {
            Ok((MessageDataView { conn_id, time, data: block_at(d, q) }, block_end(d, q)))
        },
        _ => Err(Error::InvalidHeader),
    }
}

/// Whether the header block `h` of a `MessageData` record passes every check made
/// before the body is read (its fields, its opcode); a decode stops without
/// moving the cursor where it does not.
pub open spec fn message_data_reads_body(h: Seq<u8>) -> bool {
    match header_slots(RecordKind::MessageData, h) {
        Ok(st) => match (st.0[0], st.0[1]) {
            (Some(SlotValue::Int32(_)), Some(SlotValue::Int64(_))) => st.1,
            _ => false,
        },
        Err(_) => false,
    }
}

impl<'a> MessageData<'a> {
    /// Decodes a `MessageData` record with header block `header` whose body
    /// starts at the cursor.
    pub fn read(header: &'a [u8], c: &mut Cursor<'a>) -> (r: Result<Self, Error>)
        requires
            old(c).wf(),
        ensures
            final(c).wf(),
            final(c).data() == old(c).data(),
            !message_data_reads_body(header@) ==> final(c).at() == old(c).at() && r is Err,
            match header_slots(RecordKind::MessageData, header@) {
                Err(e) => r matches Err(e2) && e2 == e,
                Ok(st) => match message_data_of(st, old(c).data(), old(c).at()) {
                    Err(e) => r matches Err(e2) && e2 == e,
                    Ok((v, end)) => r matches Ok(m) && m@ == v && final(c).at() == end,
                },
            },
    {
        let (slots, op_seen) = match read_header(RecordKind::MessageData, header) {
            Ok(t) => t,
            Err(e) => return Err(e),
        };
        assert(slots@.len() == 2);
        match (slots[0], slots[1]) {
            (Some(FieldValue::Int32(conn_id)), Some(FieldValue::Int64(time))) => {
                if !op_seen {
                    return Err(Error::InvalidRecord);
                }
                match c.next_chunk() {
                    Ok(data) => Ok(MessageData { conn_id, time, data }),
                    Err(e) => Err(Error::from(e)),
                }
            },
            _ => Err(Error::InvalidHeader),
        }
    }
}

} // verus!
