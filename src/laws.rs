//! What holds of the writer and the reader together, over the layout of
//! `layout` and the loads that `codec::load_outcome` describes.
use crate::codec::{load_outcome, u32s_bytes, u64s_bytes, MemBufferDeserialize, MemBufferSerialize};
use crate::layout::{
    encode, entries_of, entry_count, fits, header_size, lemma_encode_parses, stored_checksum,
    well_formed,
};
use crate::native::{
    lemma_ne_bytes_u32_of, lemma_ne_i32_round_trip, lemma_ne_u32_round_trip,
    lemma_ne_u64_round_trip, ne_bytes_i32, ne_bytes_u32, ne_bytes_u64, ne_i32, ne_u32, ne_u64,
};
use crate::reader::MemBufferReader;
use crate::types::{type_tag, MemBufferError, MemBufferTypes};
use vstd::prelude::*;
use vstd::string::StringSliceAdditionalSpecFns;
use vstd::utf8::{decode_utf8, encode_utf8_decode_utf8, encode_utf8_valid_utf8, valid_utf8};

verus! {

/// Round trip: a value `v` that is the only field of a writer is, in the
/// buffer that the writer finalizes, the only field, and loading it as `v`'s
/// own type returns a value that `v`'s bytes hold whenever they hold one.
pub proof fn lemma_round_trip<'a, T: MemBufferSerialize + MemBufferDeserialize<'a>>(
    v: T,
    r: Result<T, MemBufferError>,
)
    requires
        fits(seq![(T::mem_type(), v.mem_bytes())]),
        load_outcome(entries_of(encode(seq![(T::mem_type(), v.mem_bytes())]))[0], T::mem_type(), r),
    ensures
        well_formed(encode(seq![(T::mem_type(), v.mem_bytes())])),
        entries_of(encode(seq![(T::mem_type(), v.mem_bytes())])).len() == 1,
        r is Ok <==> T::mem_holds(v.mem_bytes()),
        r matches Ok(w) ==> T::mem_value(v.mem_bytes(), w),
{
    lemma_encode_parses(seq![(T::mem_type(), v.mem_bytes())]);
}

/// Text read back from the bytes of a string is that string.
pub proof fn lemma_text_round_trip(v: &str, w: &str)
    ensures
        <&str as MemBufferDeserialize>::mem_holds(v.mem_bytes()),
        <&str as MemBufferDeserialize>::mem_value(v.mem_bytes(), w) ==> w@ == v@,
{
    encode_utf8_valid_utf8(v@);
    encode_utf8_decode_utf8(v@);
    encode_utf8_decode_utf8(w@);
}

/// An `i32` read back from its bytes is itself.
pub proof fn lemma_i32_round_trip(v: i32, w: i32)
    ensures
        <i32 as MemBufferDeserialize>::mem_holds(v.mem_bytes()),
        <i32 as MemBufferDeserialize>::mem_value(v.mem_bytes(), w) ==> w == v,
{
    lemma_ne_i32_round_trip(v);
}

/// A `u64` read back from its bytes is itself.
pub proof fn lemma_u64_round_trip(v: u64, w: u64)
    ensures
        <u64 as MemBufferDeserialize>::mem_holds(v.mem_bytes()),
        <u64 as MemBufferDeserialize>::mem_value(v.mem_bytes(), w) ==> w == v,
{
    lemma_ne_u64_round_trip(v);
}

proof fn lemma_u32s_bytes_len(s: Seq<u32>)
    ensures
        u32s_bytes(s).len() == 4 * s.len(),
    decreases s.len(),
{
    if s.len() > 0 {
        lemma_u32s_bytes_len(s.drop_last());
        lemma_ne_u32_round_trip(s.last());
    }
}

proof fn lemma_u64s_bytes_len(s: Seq<u64>)
    ensures
        u64s_bytes(s).len() == 8 * s.len(),
    decreases s.len(),
{
    if s.len() > 0 {
        lemma_u64s_bytes_len(s.drop_last());
        lemma_ne_u64_round_trip(s.last());
    }
}

proof fn lemma_u32s_bytes_injective(a: Seq<u32>, b: Seq<u32>)
    requires
        u32s_bytes(a) == u32s_bytes(b),
    ensures
        a == b,
    decreases a.len(),
{
    lemma_u32s_bytes_len(a);
    lemma_u32s_bytes_len(b);
    if a.len() > 0 {
        let k = 4 * (a.len() - 1);
        lemma_u32s_bytes_len(a.drop_last());
        lemma_u32s_bytes_len(b.drop_last());
        lemma_ne_u32_round_trip(a.last());
        lemma_ne_u32_round_trip(b.last());
        assert(u32s_bytes(a).subrange(0, k) =~= u32s_bytes(a.drop_last()));
        assert(u32s_bytes(b).subrange(0, k) =~= u32s_bytes(b.drop_last()));
        assert(u32s_bytes(a).subrange(k, k + 4) =~= ne_bytes_u32(a.last()));
        assert(u32s_bytes(b).subrange(k, k + 4) =~= ne_bytes_u32(b.last()));
        lemma_u32s_bytes_injective(a.drop_last(), b.drop_last());
        assert(a =~= a.drop_last().push(a.last()));
        assert(b =~= b.drop_last().push(b.last()));
    } else {
        assert(a =~= b);
    }
}

proof fn lemma_u64s_bytes_injective(a: Seq<u64>, b: Seq<u64>)
    requires
        u64s_bytes(a) == u64s_bytes(b),
    ensures
        a == b,
    decreases a.len(),
{
    lemma_u64s_bytes_len(a);
    lemma_u64s_bytes_len(b);
    if a.len() > 0 {
        let k = 8 * (a.len() - 1);
        lemma_u64s_bytes_len(a.drop_last());
        lemma_u64s_bytes_len(b.drop_last());
        lemma_ne_u64_round_trip(a.last());
        lemma_ne_u64_round_trip(b.last());
        assert(u64s_bytes(a).subrange(0, k) =~= u64s_bytes(a.drop_last()));
        assert(u64s_bytes(b).subrange(0, k) =~= u64s_bytes(b.drop_last()));
        assert(u64s_bytes(a).subrange(k, k + 8) =~= ne_bytes_u64(a.last()));
        assert(u64s_bytes(b).subrange(k, k + 8) =~= ne_bytes_u64(b.last()));
        lemma_u64s_bytes_injective(a.drop_last(), b.drop_last());
        assert(a =~= a.drop_last().push(a.last()));
        assert(b =~= b.drop_last().push(b.last()));
    } else {
        assert(a =~= b);
    }
}

/// A vector of `u32` read back from its bytes has the same elements.
pub proof fn lemma_u32s_round_trip(v: &[u32], w: Vec<u32>)
    ensures
        <Vec<u32> as MemBufferDeserialize>::mem_holds(v.mem_bytes()),
        <Vec<u32> as MemBufferDeserialize>::mem_value(v.mem_bytes(), w) ==> w@ == v@,
{
    lemma_u32s_bytes_len(v@);
    if u32s_bytes(w@) == u32s_bytes(v@) {
        lemma_u32s_bytes_injective(w@, v@);
    }
}

/// A vector of `u64` read back from its bytes has the same elements.
pub proof fn lemma_u64s_round_trip(v: &[u64], w: Vec<u64>)
    ensures
        <Vec<u64> as MemBufferDeserialize>::mem_holds(v.mem_bytes()),
        <Vec<u64> as MemBufferDeserialize>::mem_value(v.mem_bytes(), w) ==> w@ == v@,
{
    lemma_u64s_bytes_len(v@);
    if u64s_bytes(w@) == u64s_bytes(v@) {
        lemma_u64s_bytes_injective(w@, v@);
    }
}

/// Order: in the buffer finalized from the fields `es` (the fields added, in
/// the order of the calls), field `i` is `es[i]`, for every `i`.
pub proof fn lemma_order_preserved(es: Seq<(i32, Seq<u8>)>)
    requires
        fits(es),
    ensures
        well_formed(encode(es)),
        entries_of(encode(es)).len() == es.len(),
        forall|i: int| 0 <= i < es.len() ==> #[trigger] entries_of(encode(es))[i] == es[i],
{
    lemma_encode_parses(es);
}

/// Type mismatch: loading field `i` with a tag other than the one it was
/// added with yields `FieldTypeError(added, requested)`.
pub proof fn lemma_type_mismatch<'a, X: MemBufferDeserialize<'a>>(
    es: Seq<(i32, Seq<u8>)>,
    i: int,
    expected: i32,
    r: Result<X, MemBufferError>,
)
    requires
        fits(es),
        0 <= i < es.len(),
        es[i].0 != expected,
        load_outcome(entries_of(encode(es))[i], expected, r),
    ensures
        r == Err::<X, MemBufferError>(MemBufferError::FieldTypeError(es[i].0, expected)),
{
    lemma_encode_parses(es);
}

proof fn lemma_ne_i32_injective(a: Seq<u8>, b: Seq<u8>)
    requires
        a.len() == 4,
        b.len() == 4,
        ne_i32(a) == ne_i32(b),
    ensures
        a == b,
{
    let x = ne_u32(a);
    let y = ne_u32(b);
    assert(x == y) by (bit_vector)
        requires
            #[verifier::truncate] (x as i32) == #[verifier::truncate] (y as i32),
    ;
    lemma_ne_bytes_u32_of(a);
    lemma_ne_bytes_u32_of(b);
}

/// Corruption of the count: a finalized buffer in which one byte of the
/// entry count is changed is refused.
pub proof fn lemma_count_corruption_detected(es: Seq<(i32, Seq<u8>)>, j: int, x: u8)
    requires
        fits(es),
        0 <= j < 4,
        x != encode(es)[j],
    ensures
        !well_formed(encode(es).update(j, x)),
{
    let b = encode(es);
    let c = b.update(j, x);
    lemma_encode_parses(es);
    assert(c.subrange(4, 8) =~= b.subrange(4, 8));
    assert(stored_checksum(c) == stored_checksum(b));
    if ne_i32(c.subrange(0, 4)) == ne_i32(b.subrange(0, 4)) {
        lemma_ne_i32_injective(c.subrange(0, 4), b.subrange(0, 4));
        assert(c.subrange(0, 4)[j] == b.subrange(0, 4)[j]);
    }
    assert(entry_count(c) != entry_count(b));
}

/// Truncation: a finalized buffer cut short of its header is refused.
pub proof fn lemma_truncation_detected(es: Seq<(i32, Seq<u8>)>, k: int)
    requires
        fits(es),
        0 <= k < header_size(es.len() as int),
    ensures
        !well_formed(encode(es).take(k)),
{
    let b = encode(es);
    lemma_encode_parses(es);
    if k >= 8 {
        assert(b.take(k).subrange(0, 4) =~= b.subrange(0, 4));
        assert(entry_count(b.take(k)) == entry_count(b));
    }
}

/// Idempotent finalize: two finalizations of one unchanged writer give the
/// same bytes.
pub proof fn lemma_finalize_idempotent(es: Seq<(i32, Seq<u8>)>, r1: Seq<u8>, r2: Seq<u8>)
    requires
        r1 == encode(es),
        r2 == encode(es),
    ensures
        r1 == r2,
{
}

/// Extension: a writer rebuilt from a finalized buffer `b` (which holds
/// `entries_of(b)`), with one field added, finalizes to a buffer with one more
/// field, in which the earlier fields are unchanged and the last is the new one.
pub proof fn lemma_extension(b: Seq<u8>, tag: i32, bytes: Seq<u8>)
    requires
        well_formed(b),
        fits(entries_of(b).push((tag, bytes))),
    ensures
        well_formed(encode(entries_of(b).push((tag, bytes)))),
        entries_of(encode(entries_of(b).push((tag, bytes)))).len() == entries_of(b).len() + 1,
        forall|i: int|
            0 <= i < entries_of(b).len() ==> #[trigger] entries_of(
                encode(entries_of(b).push((tag, bytes))),
            )[i] == entries_of(b)[i],
        entries_of(encode(entries_of(b).push((tag, bytes))))[entries_of(b).len() as int] == (
            tag,
            bytes,
        ),
{
    lemma_encode_parses(entries_of(b).push((tag, bytes)));
}

/// Nesting: a field that holds a finalized writer with the fields `inner`,
/// loaded as a nested reader, gives a reader of exactly those fields.
pub proof fn lemma_nested(
    outer: Seq<(i32, Seq<u8>)>,
    i: int,
    inner: Seq<(i32, Seq<u8>)>,
    r: Result<MemBufferReader, MemBufferError>,
)
    requires
        fits(outer),
        fits(inner),
        0 <= i < outer.len(),
        outer[i] == (type_tag(MemBufferTypes::MemBuffer), encode(inner)),
        load_outcome(entries_of(encode(outer))[i], type_tag(MemBufferTypes::MemBuffer), r),
    ensures
        r matches Ok(rd) && rd.entries() == inner,
{
    lemma_encode_parses(outer);
    lemma_encode_parses(inner);
}

} // verus!
