//! The field type tags, positions and errors shared by the reader and the writer.
use vstd::prelude::*;

verus! {

/// A byte range `start..end` in the payload of a buffer.
#[derive(Debug, Clone, Copy, PartialEq, Eq, Structural)]
pub struct Position {
    pub start: i32,
    pub end: i32,
}

/// The built-in field types. A host application numbers its own types from
/// `LastPreDefienedValue` upwards.
#[derive(Debug, Clone, Copy, PartialEq, Eq, Structural)]
pub enum MemBufferTypes {
    Text,
    Integer32,
    VectorU8,
    VectorU32,
    VectorU64,
    MemBuffer,
    LastPreDefienedValue,
}

/// The integer that stands for a type in a buffer's header.
pub open spec fn type_tag(t: MemBufferTypes) -> i32 {
    match t {
        MemBufferTypes::Text => 0,
        MemBufferTypes::Integer32 => 1,
        MemBufferTypes::VectorU8 => 2,
        MemBufferTypes::VectorU32 => 3,
        MemBufferTypes::VectorU64 => 4,
        MemBufferTypes::MemBuffer => 5,
        MemBufferTypes::LastPreDefienedValue => 6,
    }
}

impl MemBufferTypes {
    /// The tag of this type.
    pub fn tag(self) -> (r: i32)
        ensures
            r == type_tag(self),
    {
        match self {
            MemBufferTypes::Text => 0,
            MemBufferTypes::Integer32 => 1,
            MemBufferTypes::VectorU8 => 2,
            MemBufferTypes::VectorU32 => 3,
            MemBufferTypes::VectorU64 => 4,
            MemBufferTypes::MemBuffer => 5,
            MemBufferTypes::LastPreDefienedValue => 6,
        }
    }
}

impl From<MemBufferTypes> for i32 {
    fn from(t: MemBufferTypes) -> (r: i32) {
        t.tag()
    }
}

impl vstd::std_specs::convert::FromSpecImpl<MemBufferTypes> for i32 {
    open spec fn obeys_from_spec() -> bool {
        true
    }

    open spec fn from_spec(t: MemBufferTypes) -> i32 {
        type_tag(t)
    }
}

/// What can go wrong when a buffer is read.
#[derive(Debug, Clone, Copy, PartialEq, Eq, Structural)]
pub enum MemBufferError {
    /// The field has the first type and the caller asked for the second.
    FieldTypeError(i32, i32),
    /// The bytes are not a buffer, or not a value of the requested type.
    WrongFormat,
}

/// One header entry: where a field's bytes lie, and its type tag.
#[derive(Debug, Clone, Copy, PartialEq, Eq, Structural)]
pub struct InternPosition {
    pub pos: Position,
    pub variable_type: i32,
}

} // verus!
