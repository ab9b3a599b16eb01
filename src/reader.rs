//! Reading a finalized buffer in place.
use crate::codec::{load_outcome, MemBufferDeserialize, MemBufferSerialize};
use crate::layout::{
    entries_of, entry_count, header_field, header_size, payload_of, position_ok, stored_checksum,
    well_formed, CHECKSUM_KEY, ENTRY_SIZE, LEADING_SIZE,
};
use crate::native::ne_i32;
use crate::types::{type_tag, InternPosition, MemBufferError, MemBufferTypes, Position};
use crate::writer::MemBufferWriter;
use byteorder::{NativeEndian, ReadBytesExt};
use vstd::prelude::*;
use vstd::slice::slice_subrange;

verus! {

/// A validated view of a finalized buffer. It borrows the buffer and reads a
/// field only when asked.
#[derive(Debug)]
pub struct MemBufferReader<'a> {
    offsets: Vec<InternPosition>,
    data: &'a [u8],
}

impl<'a> MemBufferReader<'a> {
    /// Every position lies within the payload.
    #[verifier::type_invariant]
    spec fn positions_in_payload(&self) -> bool {
        forall|i: int|
            0 <= i < self.offsets@.len() ==> 0 <= #[trigger] self.offsets@[i].pos.start
                <= self.offsets@[i].pos.end <= self.data@.len()
    }

    /// The fields, in order: each its type tag and its bytes.
    pub closed spec fn entries(&self) -> Seq<(i32, Seq<u8>)> {
        Seq::new(
            self.offsets@.len(),
            |i: int|
                (
                    self.offsets@[i].variable_type,
                    self.data@.subrange(
                        self.offsets@[i].pos.start as int,
                        self.offsets@[i].pos.end as int,
                    ),
                ),
        )
    }

    /// The payload region of the buffer.
    pub closed spec fn payload(&self) -> Seq<u8> {
        self.data@
    }

    /// Relies on byteorder's `ReadBytesExt::read_i32` with `NativeEndian`: the
    /// first four bytes of `buffer` in the host's byte order; it fails, and the
    /// call panics, on fewer than four.
    #[verifier::external_body]
    pub fn deserialize_i32_from(buffer: &[u8]) -> (r: i32)
        requires
            buffer@.len() >= 4,
        ensures
            r == ne_i32(buffer@),
    {
        let mut rest = buffer;
        rest.read_i32::<NativeEndian>().unwrap()
    }

    /// The number of fields.
    pub fn len(&self) -> (r: usize)
        ensures
            r == self.entries().len(),
    {
        self.offsets.len()
    }

    /// The number of bytes after the header.
    pub fn payload_len(&self) -> (r: usize)
        ensures
            r == self.payload().len(),
    {
        self.data.len()
    }

    /// The header entries, in order.
    pub fn offsets(&self) -> (r: &[InternPosition])
        ensures
            r@.len() == self.entries().len(),
            forall|i: int|
                0 <= i < r@.len() ==> {
                    &&& #[trigger] r@[i].variable_type == self.entries()[i].0
                    &&& self.payload().subrange(r@[i].pos.start as int, r@[i].pos.end as int)
                        == self.entries()[i].1
                },
    {
        self.offsets.as_slice()
    }

    /// The bytes of field `key`.
    pub(crate) fn entry_data(&self, key: usize) -> (r: &'a [u8])
        requires
            key < self.entries().len(),
        ensures
            r@ == self.entries()[key as int].1,
    {
        proof {
            use_type_invariant(self);
        }
        let entry = self.offsets[key];
        slice_subrange(self.data, entry.pos.start as usize, entry.pos.end as usize)
    }

    /// Loads field `key` as a value of type `X` if its tag is `expected_type`.
    fn intern_load_entry<X: MemBufferDeserialize<'a>>(&self, key: usize, expected_type: i32) -> (r:
        Result<X, MemBufferError>)
        requires
            key < self.entries().len(),
        ensures
            load_outcome(self.entries()[key as int], expected_type, r),
    {
        proof {
            use_type_invariant(self);
        }
        let entry = self.offsets[key];
        let is_type = entry.variable_type;
        if is_type != expected_type {
            return Err(MemBufferError::FieldTypeError(is_type, expected_type));
        }
        let bytes = slice_subrange(self.data, entry.pos.start as usize, entry.pos.end as usize);
        X::from_mem_buffer(bytes)
    }

    /// Loads field `key` as a value of type `X`. The field must exist.
    pub fn load_entry<X: MemBufferDeserialize<'a> + MemBufferSerialize>(&self, key: usize) -> (r:
        Result<X, MemBufferError>)
        requires
            key < self.entries().len(),
        ensures
            load_outcome(self.entries()[key as int], X::mem_type(), r),
    {
        self.intern_load_entry(key, X::get_mem_buffer_type())
    }

    /// Loads field `key`, a nested buffer, as a reader over the same memory.
    pub fn load_recursive_reader(&self, key: usize) -> (r: Result<MemBufferReader<'a>, MemBufferError>)
        requires
            key < self.entries().len(),
        ensures
            load_outcome(self.entries()[key as int], type_tag(MemBufferTypes::MemBuffer), r),
    {
        self.intern_load_entry(key, MemBufferWriter::get_mem_buffer_type())
    }

    /// Validates the header of `val` and makes a reader over it.
    pub fn new(val: &'a [u8]) -> (r: Result<MemBufferReader<'a>, MemBufferError>)
        ensures
            r is Ok <==> well_formed(val@),
            r matches Ok(rd) ==> {
                &&& rd.entries() == entries_of(val@)
                &&& rd.payload() == payload_of(val@)
            },
            r matches Err(e) ==> e == MemBufferError::WrongFormat,
    {
        if val.len() < LEADING_SIZE {
            return Err(MemBufferError::WrongFormat);
        }
        let count = Self::deserialize_i32_from(slice_subrange(val, 0, 4));
        let checksum = Self::deserialize_i32_from(slice_subrange(val, 4, 8));
        assert(count == entry_count(val@));
        assert(checksum == stored_checksum(val@));
        if count < 0 {
            return Err(MemBufferError::WrongFormat);
        }
        let n = count as usize;
        if (val.len() - LEADING_SIZE) / ENTRY_SIZE < n {
            return Err(MemBufferError::WrongFormat);
        }
        if checksum as i64 + CHECKSUM_KEY as i64 != count as i64 {
            return Err(MemBufferError::WrongFormat);
        }
        let start = LEADING_SIZE + ENTRY_SIZE * n;
        let data = slice_subrange(val, start, val.len());
        assert(data@ == payload_of(val@));
        let mut offsets: Vec<InternPosition> = Vec::new();
        let mut i: usize = 0;
        while i < n
            invariant
                n == entry_count(val@),
                header_size(n as int) == start <= val@.len(),
                data@ == payload_of(val@),
                i <= n,
                offsets@.len() == i,
                forall|j: int|
                    0 <= j < i ==> {
                        &&& #[trigger] position_ok(val@, j)
                        &&& offsets@[j].pos.start == header_field(val@, j, 0)
                        &&& offsets@[j].pos.end == header_field(val@, j, 1)
                        &&& offsets@[j].variable_type == header_field(val@, j, 2)
                    },
            decreases n - i,
        {
            let at = LEADING_SIZE + ENTRY_SIZE * i;
            let s = Self::deserialize_i32_from(slice_subrange(val, at, at + 4));
            let e = Self::deserialize_i32_from(slice_subrange(val, at + 4, at + 8));
            let t = Self::deserialize_i32_from(slice_subrange(val, at + 8, at + 12));
            assert(s == header_field(val@, i as int, 0));
            assert(e == header_field(val@, i as int, 1));
            assert(t == header_field(val@, i as int, 2));
            if s < 0 || s > e || e as usize > data.len() {
                assert(!position_ok(val@, i as int));
                return Err(MemBufferError::WrongFormat);
            }
            offsets.push(InternPosition { pos: Position { start: s, end: e }, variable_type: t });
            i = i + 1;
        }
        assert forall|j: int| 0 <= j < n implies 0 <= #[trigger] offsets@[j].pos.start
            <= offsets@[j].pos.end <= data@.len() by {
            assert(position_ok(val@, j));
        }
        let rd = MemBufferReader { offsets, data };
        assert forall|j: int| 0 <= j < n implies #[trigger] rd.entries()[j] == entries_of(
            val@,
        )[j] by {
            assert(position_ok(val@, j));
        }
        assert(rd.entries() =~= entries_of(val@));
        Ok(rd)
    }
}

impl<'a> MemBufferDeserialize<'a> for MemBufferReader<'a> {
    open spec fn mem_holds(mem: Seq<u8>) -> bool {
        well_formed(mem)
    }

    open spec fn mem_value(mem: Seq<u8>, v: MemBufferReader<'a>) -> bool {
        &&& v.entries() == entries_of(mem)
        &&& v.payload() == payload_of(mem)
    }

    fn from_mem_buffer(mem: &'a [u8]) -> (r: Result<MemBufferReader<'a>, MemBufferError>) {
        MemBufferReader::new(mem)
    }
}

} // verus!
