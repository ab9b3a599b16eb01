//! Collecting fields and laying them out as a finalized buffer.
use crate::codec::{load_outcome, MemBufferDeserialize, MemBufferSerialize};
use crate::layout::{
    encode, entries_of, fits, header_bytes, header_size, lemma_field_end, payload_bytes,
    payload_total, well_formed, CHECKSUM_KEY, ENTRY_SIZE, LEADING_SIZE,
};
use crate::native::ne_bytes_i32;
use crate::reader::MemBufferReader;
use crate::types::{type_tag, MemBufferError, MemBufferTypes};
use byteorder::{NativeEndian, WriteBytesExt};
use vstd::prelude::*;
use vstd::slice::slice_to_vec;

verus! {

/// Collects typed fields in order and lays them out as one buffer.
pub struct MemBufferWriter {
    fields: Vec<(i32, Vec<u8>)>,
}

impl View for MemBufferWriter {
    /// The fields, in order: each its type tag and its bytes.
    type V = Seq<(i32, Seq<u8>)>;

    closed spec fn view(&self) -> Seq<(i32, Seq<u8>)> {
        Seq::new(self.fields@.len(), |i: int| (self.fields@[i].0, self.fields@[i].1@))
    }
}

impl MemBufferWriter {
    /// An empty writer.
    pub fn new() -> (r: MemBufferWriter)
        ensures
            r@ == Seq::<(i32, Seq<u8>)>::empty(),
    {
        let r = MemBufferWriter { fields: Vec::new() };
        assert(r@ =~= Seq::<(i32, Seq<u8>)>::empty());
        r
    }

    /// A writer that holds the fields of the finalized buffer `raw_memory`,
    /// each copied, so that more can be added.
    pub fn from(raw_memory: &[u8]) -> (r: Result<MemBufferWriter, MemBufferError>)
        ensures
            r is Ok <==> well_formed(raw_memory@),
            r matches Ok(w) ==> w@ == entries_of(raw_memory@),
            r matches Err(e) ==> e == MemBufferError::WrongFormat,
    {
        let reader = MemBufferReader::new(raw_memory)?;
        let positions = reader.offsets();
        let mut fields: Vec<(i32, Vec<u8>)> = Vec::new();
        let mut i: usize = 0;
        while i < positions.len()
            invariant
                positions@.len() == reader.entries().len(),
                forall|j: int|
                    0 <= j < positions@.len() ==> #[trigger] positions@[j].variable_type
                        == reader.entries()[j].0,
                i <= positions@.len(),
                fields@.len() == i,
                forall|j: int|
                    0 <= j < i ==> #[trigger] fields@[j].0 == reader.entries()[j].0
                        && fields@[j].1@ == reader.entries()[j].1,
            decreases positions@.len() - i,
        {
            fields.push((positions[i].variable_type, slice_to_vec(reader.entry_data(i))));
            i = i + 1;
        }
        let w = MemBufferWriter { fields };
        assert(w@ =~= reader.entries());
        Ok(w)
    }

    /// Relies on byteorder's `WriteBytesExt::write_i32` with `NativeEndian`: on
    /// a `Vec<u8>` it appends the four bytes of `val` in the host's byte order
    /// and cannot fail.
    #[verifier::external_body]
    pub fn serialize_i32_to(val: i32, to: &mut Vec<u8>)
        ensures
            final(to)@ == old(to)@ + ne_bytes_i32(val),
    {
        to.write_i32::<NativeEndian>(val).unwrap()
    }

    /// Appends `val` as the next field.
    pub fn add_entry<T: MemBufferSerialize>(&mut self, val: T)
        requires
            val.mem_ready(),
        ensures
            final(self)@ == old(self)@.push((T::mem_type(), val.mem_bytes())),
    {
        let slice = val.to_mem_buffer();
        self.fields.push((T::get_mem_buffer_type(), slice));
        assert(final(self)@ =~= old(self)@.push((T::mem_type(), val.mem_bytes())));
    }

    /// Replaces field `index`, type and contents, by `val`.
    pub fn set_entry<T: MemBufferSerialize>(&mut self, val: T, index: usize)
        requires
            index < old(self)@.len(),
            val.mem_ready(),
        ensures
            final(self)@ == old(self)@.update(index as int, (T::mem_type(), val.mem_bytes())),
    {
        let slice = val.to_mem_buffer();
        self.fields.set(index, (T::get_mem_buffer_type(), slice));
        assert(final(self)@ =~= old(self)@.update(
            index as int,
            (T::mem_type(), val.mem_bytes()),
        ));
    }

    /// Loads field `index` as a value of type `T`. The field must exist.
    pub fn load_entry<'a, T: MemBufferDeserialize<'a> + MemBufferSerialize>(&'a self, index: usize) -> (r:
        Result<T, MemBufferError>)
        requires
            index < self@.len(),
        ensures
            load_outcome(self@[index as int], T::mem_type(), r),
    {
        let expected = T::get_mem_buffer_type();
        let field = &self.fields[index];
        if expected != field.0 {
            return Err(MemBufferError::FieldTypeError(field.0, expected));
        }
        T::from_mem_buffer(field.1.as_slice())
    }

    /// The number of fields.
    pub fn len(&self) -> (r: usize)
        ensures
            r == self@.len(),
    {
        self.fields.len()
    }

    /// Whether every offset of the finalized buffer fits the format's 32-bit
    /// fields, which `finalize` needs.
    pub fn fits_format(&self) -> (r: bool)
        ensures
            r == fits(self@),
    {
        let n = self.fields.len();
        if n > (i32::MAX as usize - LEADING_SIZE) / ENTRY_SIZE {
            return false;
        }
        let mut total: usize = LEADING_SIZE + ENTRY_SIZE * n;
        let mut i: usize = 0;
        while i < n
            invariant
                n == self@.len(),
                i <= n,
                total == header_size(n as int) + payload_total(self@.take(i as int)),
                total <= i32::MAX,
            decreases n - i,
        {
            proof {
                lemma_field_end(self@, i as int);
            }
            let len = self.fields[i].1.len();
            if len > i32::MAX as usize - total {
                return false;
            }
            total = total + len;
            i = i + 1;
        }
        assert(self@.take(n as int) =~= self@);
        true
    }

    /// Lays the fields out as one finalized buffer: the count, the checksum,
    /// one header entry per field, then the fields' bytes, all in order.
    pub fn finalize(&self) -> (r: Vec<u8>)
        requires
            fits(self@),
        ensures
            r@ == encode(self@),
    {
        let n = self.fields.len();
        let mut var: Vec<u8> = Vec::new();
        MemBufferWriter::serialize_i32_to(n as i32, &mut var);
        MemBufferWriter::serialize_i32_to(n as i32 - CHECKSUM_KEY, &mut var);
        let ghost lead = var@;
        let mut offset: usize = 0;
        let mut i: usize = 0;
        while i < n
            invariant
                fits(self@),
                n == self@.len(),
                i <= n,
                offset == payload_total(self@.take(i as int)),
                var@ == lead + header_bytes(self@.take(i as int)),
            decreases n - i,
        {
            proof {
                lemma_field_end(self@, i as int);
                assert(self@.take(i + 1).drop_last() =~= self@.take(i as int));
            }
            let len = self.fields[i].1.len();
            MemBufferWriter::serialize_i32_to(offset as i32, &mut var);
            MemBufferWriter::serialize_i32_to((offset + len) as i32, &mut var);
            MemBufferWriter::serialize_i32_to(self.fields[i].0, &mut var);
            offset = offset + len;
            i = i + 1;
        }
        assert(self@.take(n as int) =~= self@);
        let ghost head = var@;
        let mut j: usize = 0;
        while j < n
            invariant
                n == self@.len(),
                j <= n,
                var@ == head + payload_bytes(self@.take(j as int)),
            decreases n - j,
        {
            proof {
                assert(self@.take(j + 1).drop_last() =~= self@.take(j as int));
            }
            let mut bytes = slice_to_vec(self.fields[j].1.as_slice());
            var.append(&mut bytes);
            j = j + 1;
        }
        assert(self@.take(n as int) =~= self@);
        var
    }
}

impl MemBufferSerialize for MemBufferWriter {
    open spec fn mem_bytes(&self) -> Seq<u8> {
        encode(self@)
    }

    open spec fn mem_type() -> i32 {
        type_tag(MemBufferTypes::MemBuffer)
    }

    open spec fn mem_ready(&self) -> bool {
        fits(self@)
    }

    fn to_mem_buffer(&self) -> (r: Vec<u8>) {
        self.finalize()
    }

    fn get_mem_buffer_type() -> (r: i32) {
        MemBufferTypes::MemBuffer.tag()
    }
}

} // verus!
