//! How values become the bytes of a field, and how a field's bytes become a
//! value again. Numbers are stored in the host's byte order.
use crate::native::{
    lemma_ne_bytes_u32_of, lemma_ne_bytes_u64_of, ne_bytes_i32, ne_bytes_u32, ne_bytes_u64, ne_i32,
    ne_u64, read_u32, read_u64, write_u32, write_u64,
};
use crate::reader::MemBufferReader;
use crate::types::{type_tag, MemBufferError, MemBufferTypes};
use crate::writer::MemBufferWriter;
use vstd::prelude::*;
use vstd::slice::{slice_subrange, slice_to_vec};
use vstd::string::StringSliceAdditionalSpecFns;
use vstd::utf8::{encode_utf8, valid_utf8};

verus! {

/// The tag under which a `u64` is stored.
pub const U64_TYPE: i32 = 1021;

/// A value that can be stored as a field.
pub trait MemBufferSerialize {
    /// The bytes that stand for this value in a buffer.
    spec fn mem_bytes(&self) -> Seq<u8>;

    /// The type tag of the field.
    spec fn mem_type() -> i32;

    /// Whether this value can be laid out as bytes.
    spec fn mem_ready(&self) -> bool;

    fn to_mem_buffer(&self) -> (r: Vec<u8>)
        requires
            self.mem_ready(),
        ensures
            r@ == self.mem_bytes(),
    ;

    fn get_mem_buffer_type() -> (r: i32)
        ensures
            r == Self::mem_type(),
    ;
}

/// A value that can be read from a field's bytes, which it may borrow.
pub trait MemBufferDeserialize<'a>: Sized {
    /// Whether `mem` holds a value of this type.
    spec fn mem_holds(mem: Seq<u8>) -> bool;

    /// Whether `v` is the value that `mem` holds.
    spec fn mem_value(mem: Seq<u8>, v: Self) -> bool;

    fn from_mem_buffer(mem: &'a [u8]) -> (r: Result<Self, MemBufferError>)
        ensures
            r is Ok <==> Self::mem_holds(mem@),
            r matches Ok(v) ==> Self::mem_value(mem@, v),
            r matches Err(e) ==> e == MemBufferError::WrongFormat,
    ;
}

/// What loading a field that holds `entry` (its tag and bytes) as a value of
/// type `X` with tag `expected` returns: a type error if the tags differ, else
/// the value that the bytes hold, or `WrongFormat` if they hold none.
pub open spec fn load_outcome<'a, X: MemBufferDeserialize<'a>>(
    entry: (i32, Seq<u8>),
    expected: i32,
    r: Result<X, MemBufferError>,
) -> bool {
    if entry.0 != expected {
        r == Err::<X, MemBufferError>(MemBufferError::FieldTypeError(entry.0, expected))
    } else {
        match r {
            Ok(v) => X::mem_holds(entry.1) && X::mem_value(entry.1, v),
            Err(e) => !X::mem_holds(entry.1) && e == MemBufferError::WrongFormat,
        }
    }
}

/// The bytes of a sequence of `u32`, one after another.
pub open spec fn u32s_bytes(s: Seq<u32>) -> Seq<u8>
    decreases s.len(),
{
    if s.len() == 0 {
        Seq::empty()
    } else {
        u32s_bytes(s.drop_last()) + ne_bytes_u32(s.last())
    }
}

/// The bytes of a sequence of `u64`, one after another.
pub open spec fn u64s_bytes(s: Seq<u64>) -> Seq<u8>
    decreases s.len(),
{
    if s.len() == 0 {
        Seq::empty()
    } else {
        u64s_bytes(s.drop_last()) + ne_bytes_u64(s.last())
    }
}

/// Relies on `std::str::from_utf8`: it accepts exactly the valid UTF-8 byte
/// strings, and returns them as text over the same memory.
#[verifier::external_body]
fn utf8_text<'a>(mem: &'a [u8]) -> (r: Option<&'a str>)
    ensures
        r is Some <==> valid_utf8(mem@),
        r matches Some(s) ==> s.spec_bytes() == mem@,
{
    std::str::from_utf8(mem).ok()
}

fn u32s_to_bytes(s: &[u32]) -> (r: Vec<u8>)
    ensures
        r@ == u32s_bytes(s@),
{
    let mut out: Vec<u8> = Vec::new();
    let mut i: usize = 0;
    while i < s.len()
        invariant
            i <= s@.len(),
            out@ == u32s_bytes(s@.take(i as int)),
        decreases s@.len() - i,
    {
        assert(s@.take(i + 1).drop_last() =~= s@.take(i as int));
        write_u32(&mut out, s[i]);
        i = i + 1;
    }
    assert(s@.take(i as int) =~= s@);
    out
}

fn u64s_to_bytes(s: &[u64]) -> (r: Vec<u8>)
    ensures
        r@ == u64s_bytes(s@),
{
    let mut out: Vec<u8> = Vec::new();
    let mut i: usize = 0;
    while i < s.len()
        invariant
            i <= s@.len(),
            out@ == u64s_bytes(s@.take(i as int)),
        decreases s@.len() - i,
    {
        assert(s@.take(i + 1).drop_last() =~= s@.take(i as int));
        write_u64(&mut out, s[i]);
        i = i + 1;
    }
    assert(s@.take(i as int) =~= s@);
    out
}

fn u32s_from_bytes(mem: &[u8]) -> (r: Vec<u32>)
    requires
        mem@.len() % 4 == 0,
    ensures
        u32s_bytes(r@) == mem@,
{
    let mut out: Vec<u32> = Vec::new();
    let mut at: usize = 0;
    while at < mem.len()
        invariant
            at <= mem@.len(),
            at % 4 == 0,
            mem@.len() % 4 == 0,
            u32s_bytes(out@) == mem@.subrange(0, at as int),
        decreases mem@.len() - at,
    {
        let chunk = slice_subrange(mem, at, at + 4);
        let x = read_u32(chunk);
        proof {
            lemma_ne_bytes_u32_of(chunk@);
            assert(out@.push(x).drop_last() =~= out@);
            assert(mem@.subrange(0, at as int) + chunk@ =~= mem@.subrange(0, at + 4));
        }
        out.push(x);
        at = at + 4;
    }
    assert(mem@.subrange(0, at as int) =~= mem@);
    out
}

fn u64s_from_bytes(mem: &[u8]) -> (r: Vec<u64>)
    requires
        mem@.len() % 8 == 0,
    ensures
        u64s_bytes(r@) == mem@,
{
    let mut out: Vec<u64> = Vec::new();
    let mut at: usize = 0;
    while at < mem.len()
        invariant
            at <= mem@.len(),
            at % 8 == 0,
            mem@.len() % 8 == 0,
            u64s_bytes(out@) == mem@.subrange(0, at as int),
        decreases mem@.len() - at,
    {
        let chunk = slice_subrange(mem, at, at + 8);
        let x = read_u64(chunk);
        proof {
            lemma_ne_bytes_u64_of(chunk@);
            assert(out@.push(x).drop_last() =~= out@);
            assert(mem@.subrange(0, at as int) + chunk@ =~= mem@.subrange(0, at + 8));
        }
        out.push(x);
        at = at + 8;
    }
    assert(mem@.subrange(0, at as int) =~= mem@);
    out
}

impl MemBufferSerialize for &str {
    open spec fn mem_bytes(&self) -> Seq<u8> {
        self.spec_bytes()
    }

    open spec fn mem_type() -> i32 {
        type_tag(MemBufferTypes::Text)
    }

    open spec fn mem_ready(&self) -> bool {
        true
    }

    fn to_mem_buffer(&self) -> (r: Vec<u8>) {
        slice_to_vec(self.as_bytes())
    }

    fn get_mem_buffer_type() -> (r: i32) {
        MemBufferTypes::Text.tag()
    }
}

impl MemBufferSerialize for &String {
    open spec fn mem_bytes(&self) -> Seq<u8> {
        encode_utf8((**self)@)
    }

    open spec fn mem_type() -> i32 {
        type_tag(MemBufferTypes::Text)
    }

    open spec fn mem_ready(&self) -> bool {
        true
    }

    fn to_mem_buffer(&self) -> (r: Vec<u8>) {
        slice_to_vec(self.as_str().as_bytes())
    }

    fn get_mem_buffer_type() -> (r: i32) {
        MemBufferTypes::Text.tag()
    }
}

impl MemBufferSerialize for i32 {
    open spec fn mem_bytes(&self) -> Seq<u8> {
        ne_bytes_i32(*self)
    }

    open spec fn mem_type() -> i32 {
        type_tag(MemBufferTypes::Integer32)
    }

    open spec fn mem_ready(&self) -> bool {
        true
    }

    fn to_mem_buffer(&self) -> (r: Vec<u8>) {
        let mut out: Vec<u8> = Vec::new();
        MemBufferWriter::serialize_i32_to(*self, &mut out);
        out
    }

    fn get_mem_buffer_type() -> (r: i32) {
        MemBufferTypes::Integer32.tag()
    }
}

impl MemBufferSerialize for u64 {
    open spec fn mem_bytes(&self) -> Seq<u8> {
        ne_bytes_u64(*self)
    }

    open spec fn mem_type() -> i32 {
        U64_TYPE
    }

    open spec fn mem_ready(&self) -> bool {
        true
    }

    fn to_mem_buffer(&self) -> (r: Vec<u8>) {
        let mut out: Vec<u8> = Vec::new();
        write_u64(&mut out, *self);
        out
    }

    fn get_mem_buffer_type() -> (r: i32) {
        U64_TYPE
    }
}

impl MemBufferSerialize for &[u8] {
    open spec fn mem_bytes(&self) -> Seq<u8> {
        (*self)@
    }

    open spec fn mem_type() -> i32 {
        type_tag(MemBufferTypes::VectorU8)
    }

    open spec fn mem_ready(&self) -> bool {
        true
    }

    fn to_mem_buffer(&self) -> (r: Vec<u8>) {
        slice_to_vec(*self)
    }

    fn get_mem_buffer_type() -> (r: i32) {
        MemBufferTypes::VectorU8.tag()
    }
}

impl MemBufferSerialize for &[u32] {
    open spec fn mem_bytes(&self) -> Seq<u8> {
        u32s_bytes((*self)@)
    }

    open spec fn mem_type() -> i32 {
        type_tag(MemBufferTypes::VectorU32)
    }

    open spec fn mem_ready(&self) -> bool {
        true
    }

    fn to_mem_buffer(&self) -> (r: Vec<u8>) {
        u32s_to_bytes(*self)
    }

    fn get_mem_buffer_type() -> (r: i32) {
        MemBufferTypes::VectorU32.tag()
    }
}

impl MemBufferSerialize for Vec<u32> {
    open spec fn mem_bytes(&self) -> Seq<u8> {
        u32s_bytes(self@)
    }

    open spec fn mem_type() -> i32 {
        type_tag(MemBufferTypes::VectorU32)
    }

    open spec fn mem_ready(&self) -> bool {
        true
    }

    fn to_mem_buffer(&self) -> (r: Vec<u8>) {
        u32s_to_bytes(self.as_slice())
    }

    fn get_mem_buffer_type() -> (r: i32) {
        MemBufferTypes::VectorU32.tag()
    }
}

impl MemBufferSerialize for &[u64] {
    open spec fn mem_bytes(&self) -> Seq<u8> {
        u64s_bytes((*self)@)
    }

    open spec fn mem_type() -> i32 {
        type_tag(MemBufferTypes::VectorU64)
    }

    open spec fn mem_ready(&self) -> bool {
        true
    }

    fn to_mem_buffer(&self) -> (r: Vec<u8>) {
        u64s_to_bytes(*self)
    }

    fn get_mem_buffer_type() -> (r: i32) {
        MemBufferTypes::VectorU64.tag()
    }
}

impl MemBufferSerialize for Vec<u64> {
    open spec fn mem_bytes(&self) -> Seq<u8> {
        u64s_bytes(self@)
    }

    open spec fn mem_type() -> i32 {
        type_tag(MemBufferTypes::VectorU64)
    }

    open spec fn mem_ready(&self) -> bool {
        true
    }

    fn to_mem_buffer(&self) -> (r: Vec<u8>) {
        u64s_to_bytes(self.as_slice())
    }

    fn get_mem_buffer_type() -> (r: i32) {
        MemBufferTypes::VectorU64.tag()
    }
}

impl<'a> MemBufferDeserialize<'a> for &'a str {
    open spec fn mem_holds(mem: Seq<u8>) -> bool {
        valid_utf8(mem)
    }

    open spec fn mem_value(mem: Seq<u8>, v: &'a str) -> bool {
        v.spec_bytes() == mem
    }

    fn from_mem_buffer(mem: &'a [u8]) -> (r: Result<&'a str, MemBufferError>) {
        match utf8_text(mem) {
            Some(s) => Ok(s),
            None => Err(MemBufferError::WrongFormat),
        }
    }
}

impl<'a> MemBufferDeserialize<'a> for i32 {
    open spec fn mem_holds(mem: Seq<u8>) -> bool {
        mem.len() == 4
    }

    open spec fn mem_value(mem: Seq<u8>, v: i32) -> bool {
        v == ne_i32(mem)
    }

    fn from_mem_buffer(mem: &'a [u8]) -> (r: Result<i32, MemBufferError>) {
        if mem.len() != 4 {
            return Err(MemBufferError::WrongFormat);
        }
        Ok(MemBufferReader::deserialize_i32_from(mem))
    }
}

impl<'a> MemBufferDeserialize<'a> for u64 {
    open spec fn mem_holds(mem: Seq<u8>) -> bool {
        mem.len() == 8
    }

    open spec fn mem_value(mem: Seq<u8>, v: u64) -> bool {
        v == ne_u64(mem)
    }

    fn from_mem_buffer(mem: &'a [u8]) -> (r: Result<u64, MemBufferError>) {
        if mem.len() != 8 {
            return Err(MemBufferError::WrongFormat);
        }
        Ok(read_u64(mem))
    }
}

impl<'a> MemBufferDeserialize<'a> for &'a [u8] {
    open spec fn mem_holds(mem: Seq<u8>) -> bool {
        true
    }

    open spec fn mem_value(mem: Seq<u8>, v: &'a [u8]) -> bool {
        v@ == mem
    }

    fn from_mem_buffer(mem: &'a [u8]) -> (r: Result<&'a [u8], MemBufferError>) {
        Ok(mem)
    }
}

impl<'a> MemBufferDeserialize<'a> for Vec<u32> {
    open spec fn mem_holds(mem: Seq<u8>) -> bool {
        mem.len() % 4 == 0
    }

    open spec fn mem_value(mem: Seq<u8>, v: Vec<u32>) -> bool {
        u32s_bytes(v@) == mem
    }

    fn from_mem_buffer(mem: &'a [u8]) -> (r: Result<Vec<u32>, MemBufferError>) {
        if mem.len() % 4 != 0 {
            return Err(MemBufferError::WrongFormat);
        }
        Ok(u32s_from_bytes(mem))
    }
}

impl<'a> MemBufferDeserialize<'a> for Vec<u64> {
    open spec fn mem_holds(mem: Seq<u8>) -> bool {
        mem.len() % 8 == 0
    }

    open spec fn mem_value(mem: Seq<u8>, v: Vec<u64>) -> bool {
        u64s_bytes(v@) == mem
    }

    fn from_mem_buffer(mem: &'a [u8]) -> (r: Result<Vec<u64>, MemBufferError>) {
        if mem.len() % 8 != 0 {
            return Err(MemBufferError::WrongFormat);
        }
        Ok(u64s_from_bytes(mem))
    }
}

} // verus!
