//! A compact binary container for typed, variable-length fields, read in
//! place: a reader validates the header of a byte buffer and decodes a field
//! only when asked.
//!
//! ```text
//! let mut writer = MemBufferWriter::new();
//! writer.add_entry("Very long value");
//! let bytes = writer.finalize();
//! let reader = MemBufferReader::new(&bytes).unwrap();
//! assert_eq!(reader.load_entry::<&str>(0).unwrap(), "Very long value");
//! ```
pub mod codec;
pub mod laws;
pub mod layout;
pub mod native;
pub mod reader;
pub mod types;
pub mod writer;

pub use codec::{MemBufferDeserialize, MemBufferSerialize};
pub use reader::MemBufferReader;
pub use types::{InternPosition, MemBufferError, MemBufferTypes, Position};
pub use writer::MemBufferWriter;
