//! Decoding of ROS bag files: the length-prefixed, self-indexing container
//! of time-stamped message streams.
//!
//! Records borrow their bytes from the caller's buffer; only a chunk payload
//! that had to be decompressed is owned by its `Chunk`.
use vstd::prelude::*;
use vstd::string::StringSliceAdditionalSpecFns;

pub mod bytes;
pub mod cursor;
pub mod error;
pub mod field_iter;
pub mod record_types;
pub mod record;
pub mod chunk_iter;
pub mod index_iter;
pub mod msg_iter;

pub use chunk_iter::{ChunkRecord, ChunkRecordsIterator};
pub use cursor::{Cursor, OutOfBounds};
pub use error::Error;
pub use index_iter::{IndexRecord, IndexRecordsIterator};
pub use msg_iter::{MessageRecord, MessageRecordsIterator};
pub use field_iter::FieldIterator;
pub use record::Record;
pub use record_types::header::RecordKind;

use bytes::bytes_are;
use cursor::{block_fits, block_at, block_end};
use record_types::bag_header::{BagHeader, bag_header_of};
use record_types::header::header_slots;

verus! {

/// The text a bag file starts with.
pub const VERSION_STRING: &'static str = "#ROSBAG V2.0\n";

/// The length of `VERSION_STRING`.
pub const VERSION_LEN: u64 = 13;

/// The head of a bag file `d`: where its chunk section starts, and its
/// `BagHeader` record, which follows the version text.
pub open spec fn bag_start(d: Seq<u8>) -> Result<(u64, BagHeader), Error> {
    if d.len() < VERSION_LEN {
        Err(Error::OutOfBounds)
    } else if d.subrange(0, VERSION_LEN as int) != VERSION_STRING.spec_bytes() {
        Err(Error::InvalidHeader)
    } else if !block_fits(d, VERSION_LEN as int) {
        Err(Error::OutOfBounds)
    } else {
        match header_slots(RecordKind::BagHeader, block_at(d, VERSION_LEN as int)) {
            Err(e) => Err(e),
            Ok(st) => match bag_header_of(st, d, block_end(d, VERSION_LEN as int)) {
                Err(e) => Err(e),
                Ok((b, end)) => Ok((end as u64, b)),
            },
        }
    }
}

/// Reads the head of the bag file `data`: the version text, then the
/// `BagHeader` record. Gives where the chunk section starts, and the record.
pub fn parse_bag_header(data: &[u8]) -> (r: Result<(u64, BagHeader), Error>)
    ensures
        r == bag_start(data@),
{
    let mut cursor = Cursor::new(data);
    let marker = match cursor.next_bytes(VERSION_LEN) {
        Ok(m) => m,
        Err(e) => return Err(Error::from(e)),
    };
    if !bytes_are(marker, VERSION_STRING) {
        return Err(Error::InvalidHeader);
    }
    let header = match cursor.next_chunk() {
        Ok(h) => h,
        Err(e) => return Err(Error::from(e)),
    };
    match BagHeader::read(header, &mut cursor) {
        Ok(b) => Ok((cursor.pos(), b)),
        Err(e) => Err(e),
    }
}

} // verus!
