//! The record kinds of the format and their decoding.
pub mod header;
pub mod chunk;
pub mod message_data;
pub mod bag_header;
pub mod index_data;
pub mod chunk_info;
pub mod connection;

pub use self::bag_header::BagHeader;
pub use self::chunk::{Chunk, ChunkData, Compression};
pub use self::chunk_info::{ChunkInfo, ChunkInfoEntriesIterator, ChunkInfoEntry};
pub use self::connection::Connection;
pub use self::index_data::{IndexData, IndexDataEntriesIterator, IndexDataEntry};
pub use self::message_data::MessageData;
