//! Native-endian fixed-width integers: how they look as bytes, and the
//! byteorder calls that read and write them.
use byteorder::{ByteOrder, NativeEndian, WriteBytesExt};
use vstd::endian::{endianness, Endian};
use vstd::prelude::*;

verus! {

/// The four bytes of `v`, least significant first.
pub open spec fn le_bytes_u32(v: u32) -> Seq<u8> {
    seq![
        (v & 0xff) as u8,
        ((v >> 8u32) & 0xff) as u8,
        ((v >> 16u32) & 0xff) as u8,
        ((v >> 24u32) & 0xff) as u8,
    ]
}

/// The value of four bytes, least significant first.
pub open spec fn le_u32(b0: u8, b1: u8, b2: u8, b3: u8) -> u32 {
    (b0 as u32) | ((b1 as u32) << 8u32) | ((b2 as u32) << 16u32) | ((b3 as u32) << 24u32)
}

/// The eight bytes of `v`, least significant first.
pub open spec fn le_bytes_u64(v: u64) -> Seq<u8> {
    seq![
        (v & 0xff) as u8,
        ((v >> 8u64) & 0xff) as u8,
        ((v >> 16u64) & 0xff) as u8,
        ((v >> 24u64) & 0xff) as u8,
        ((v >> 32u64) & 0xff) as u8,
        ((v >> 40u64) & 0xff) as u8,
        ((v >> 48u64) & 0xff) as u8,
        ((v >> 56u64) & 0xff) as u8,
    ]
}

/// The value of eight bytes, least significant first.
pub open spec fn le_u64(b0: u8, b1: u8, b2: u8, b3: u8, b4: u8, b5: u8, b6: u8, b7: u8) -> u64 {
    (b0 as u64) | ((b1 as u64) << 8u64) | ((b2 as u64) << 16u64) | ((b3 as u64) << 24u64) | ((
    b4 as u64) << 32u64) | ((b5 as u64) << 40u64) | ((b6 as u64) << 48u64) | ((b7 as u64)
        << 56u64)
}

/// `b` in the host's byte order, from or to least significant first.
pub open spec fn host_order(b: Seq<u8>) -> Seq<u8> {
    match endianness() {
        Endian::Little => b,
        Endian::Big => b.reverse(),
    }
}

/// How the host stores a `u32`.
pub open spec fn ne_bytes_u32(v: u32) -> Seq<u8> {
    host_order(le_bytes_u32(v))
}

/// The `u32` that the host stores as the first four bytes of `b`.
pub open spec fn ne_u32(b: Seq<u8>) -> u32 {
    let le = host_order(b.take(4));
    le_u32(le[0], le[1], le[2], le[3])
}

/// How the host stores an `i32`.
pub open spec fn ne_bytes_i32(v: i32) -> Seq<u8> {
    ne_bytes_u32(#[verifier::truncate] (v as u32))
}

/// The `i32` that the host stores as the first four bytes of `b`.
pub open spec fn ne_i32(b: Seq<u8>) -> i32 {
    #[verifier::truncate] (ne_u32(b) as i32)
}

/// How the host stores a `u64`.
pub open spec fn ne_bytes_u64(v: u64) -> Seq<u8> {
    host_order(le_bytes_u64(v))
}

/// The `u64` that the host stores as the first eight bytes of `b`.
pub open spec fn ne_u64(b: Seq<u8>) -> u64 {
    let le = host_order(b.take(8));
    le_u64(le[0], le[1], le[2], le[3], le[4], le[5], le[6], le[7])
}

proof fn lemma_le_u32_round_trip(v: u32)
    ensures
        le_u32(le_bytes_u32(v)[0], le_bytes_u32(v)[1], le_bytes_u32(v)[2], le_bytes_u32(v)[3])
            == v,
{
    assert(((v & 0xff) as u8) as u32 | ((((v >> 8u32) & 0xff) as u8) as u32) << 8u32 | ((((v
        >> 16u32) & 0xff) as u8) as u32) << 16u32 | ((((v >> 24u32) & 0xff) as u8) as u32)
        << 24u32 == v) by (bit_vector);
}

proof fn lemma_le_bytes_u32_round_trip(b0: u8, b1: u8, b2: u8, b3: u8)
    ensures
        le_bytes_u32(le_u32(b0, b1, b2, b3)) == seq![b0, b1, b2, b3],
{
    let v = le_u32(b0, b1, b2, b3);
    assert((((b0 as u32) | ((b1 as u32) << 8u32) | ((b2 as u32) << 16u32) | ((b3 as u32)
        << 24u32)) & 0xff) as u8 == b0) by (bit_vector);
    assert(((((b0 as u32) | ((b1 as u32) << 8u32) | ((b2 as u32) << 16u32) | ((b3 as u32)
        << 24u32)) >> 8u32) & 0xff) as u8 == b1) by (bit_vector);
    assert(((((b0 as u32) | ((b1 as u32) << 8u32) | ((b2 as u32) << 16u32) | ((b3 as u32)
        << 24u32)) >> 16u32) & 0xff) as u8 == b2) by (bit_vector);
    assert(((((b0 as u32) | ((b1 as u32) << 8u32) | ((b2 as u32) << 16u32) | ((b3 as u32)
        << 24u32)) >> 24u32) & 0xff) as u8 == b3) by (bit_vector);
    assert(le_bytes_u32(v) =~= seq![b0, b1, b2, b3]);
}

/// Reading back the bytes that the host stores for `v` gives `v`.
pub proof fn lemma_ne_u32_round_trip(v: u32)
    ensures
        ne_bytes_u32(v).len() == 4,
        ne_u32(ne_bytes_u32(v)) == v,
{
    lemma_le_u32_round_trip(v);
    let le = le_bytes_u32(v);
    assert(le.len() == 4);
    match endianness() {
        Endian::Little => {
            assert(ne_bytes_u32(v).take(4) =~= le);
        },
        Endian::Big => {
            assert(ne_bytes_u32(v).take(4) =~= le.reverse());
            assert(le.reverse().reverse() =~= le);
        },
    }
}

/// Reading back the bytes that the host stores for `v` gives `v`.
pub proof fn lemma_ne_i32_round_trip(v: i32)
    ensures
        ne_bytes_i32(v).len() == 4,
        ne_i32(ne_bytes_i32(v)) == v,
{
    let u = #[verifier::truncate] (v as u32);
    lemma_ne_u32_round_trip(u);
    assert(#[verifier::truncate] ((#[verifier::truncate] (v as u32)) as i32) == v) by (bit_vector);
}

/// Four bytes are the host's bytes of the `u32` read from them.
pub proof fn lemma_ne_bytes_u32_of(b: Seq<u8>)
    requires
        b.len() == 4,
    ensures
        ne_bytes_u32(ne_u32(b)) == b,
{
    let le = host_order(b.take(4));
    assert(b.take(4) =~= b);
    match endianness() {
        Endian::Little => {},
        Endian::Big => {
            assert(le.reverse() =~= b);
        },
    }
    lemma_le_bytes_u32_round_trip(le[0], le[1], le[2], le[3]);
    assert(seq![le[0], le[1], le[2], le[3]] =~= le);
}

proof fn lemma_le_u64_round_trip(v: u64)
    ensures
        ({
            let b = le_bytes_u64(v);
            le_u64(b[0], b[1], b[2], b[3], b[4], b[5], b[6], b[7]) == v
        }),
{
    assert(((v & 0xff) as u8) as u64 | ((((v >> 8u64) & 0xff) as u8) as u64) << 8u64 | ((((v
        >> 16u64) & 0xff) as u8) as u64) << 16u64 | ((((v >> 24u64) & 0xff) as u8) as u64)
        << 24u64 | ((((v >> 32u64) & 0xff) as u8) as u64) << 32u64 | ((((v >> 40u64) & 0xff) as u8) as u64)
        << 40u64 | ((((v >> 48u64) & 0xff) as u8) as u64) << 48u64 | ((((v >> 56u64) & 0xff) as u8) as u64)
        << 56u64 == v) by (bit_vector);
}

/// Reading back the bytes that the host stores for `v` gives `v`.
pub proof fn lemma_ne_u64_round_trip(v: u64)
    ensures
        ne_bytes_u64(v).len() == 8,
        ne_u64(ne_bytes_u64(v)) == v,
{
    lemma_le_u64_round_trip(v);
    let le = le_bytes_u64(v);
    match endianness() {
        Endian::Little => {
            assert(ne_bytes_u64(v).take(8) =~= le);
        },
        Endian::Big => {
            assert(ne_bytes_u64(v).take(8) =~= le.reverse());
            assert(le.reverse().reverse() =~= le);
        },
    }
}

proof fn lemma_le_bytes_u64_round_trip(b0: u8, b1: u8, b2: u8, b3: u8, b4: u8, b5: u8, b6: u8, b7: u8)
    ensures
        le_bytes_u64(le_u64(b0, b1, b2, b3, b4, b5, b6, b7)) == seq![b0, b1, b2, b3, b4, b5, b6, b7],
{
    let v = le_u64(b0, b1, b2, b3, b4, b5, b6, b7);
    assert((v & 0xff) as u8 == b0 && ((v >> 8u64) & 0xff) as u8 == b1 && ((v >> 16u64) & 0xff) as u8
        == b2 && ((v >> 24u64) & 0xff) as u8 == b3 && ((v >> 32u64) & 0xff) as u8 == b4 && ((v
        >> 40u64) & 0xff) as u8 == b5 && ((v >> 48u64) & 0xff) as u8 == b6 && ((v >> 56u64)
        & 0xff) as u8 == b7) by (bit_vector)
        requires
            v == (b0 as u64) | ((b1 as u64) << 8u64) | ((b2 as u64) << 16u64) | ((b3 as u64) << 24u64)
                | ((b4 as u64) << 32u64) | ((b5 as u64) << 40u64) | ((b6 as u64) << 48u64) | ((
            b7 as u64) << 56u64),
    ;
    assert(le_bytes_u64(v) =~= seq![b0, b1, b2, b3, b4, b5, b6, b7]);
}

/// Eight bytes are the host's bytes of the `u64` read from them.
pub proof fn lemma_ne_bytes_u64_of(b: Seq<u8>)
    requires
        b.len() == 8,
    ensures
        ne_bytes_u64(ne_u64(b)) == b,
{
    let le = host_order(b.take(8));
    assert(b.take(8) =~= b);
    match endianness() {
        Endian::Little => {},
        Endian::Big => {
            assert(le.reverse() =~= b);
        },
    }
    lemma_le_bytes_u64_round_trip(le[0], le[1], le[2], le[3], le[4], le[5], le[6], le[7]);
    assert(seq![le[0], le[1], le[2], le[3], le[4], le[5], le[6], le[7]] =~= le);
}

/// Relies on byteorder's `NativeEndian::read_u32`: the first four bytes of
/// `b` in the host's byte order (it panics on fewer than four).
#[verifier::external_body]
pub(crate) fn read_u32(b: &[u8]) -> (r: u32)
    requires
        b@.len() >= 4,
    ensures
        r == ne_u32(b@),
{
    NativeEndian::read_u32(b)
}

/// Relies on byteorder's `NativeEndian::read_u64`: the first eight bytes of
/// `b` in the host's byte order (it panics on fewer than eight).
#[verifier::external_body]
pub(crate) fn read_u64(b: &[u8]) -> (r: u64)
    requires
        b@.len() >= 8,
    ensures
        r == ne_u64(b@),
{
    NativeEndian::read_u64(b)
}

/// Relies on byteorder's `WriteBytesExt::write_u32` with `NativeEndian`: on a
/// `Vec<u8>` it appends the four bytes of `v` in the host's order and cannot fail.
#[verifier::external_body]
pub(crate) fn write_u32(out: &mut Vec<u8>, v: u32)
    ensures
        final(out)@ == old(out)@ + ne_bytes_u32(v),
{
    out.write_u32::<NativeEndian>(v).unwrap()
}

/// Relies on byteorder's `WriteBytesExt::write_u64` with `NativeEndian`: on a
/// `Vec<u8>` it appends the eight bytes of `v` in the host's order and cannot fail.
#[verifier::external_body]
pub(crate) fn write_u64(out: &mut Vec<u8>, v: u64)
    ensures
        final(out)@ == old(out)@ + ne_bytes_u64(v),
{
    out.write_u64::<NativeEndian>(v).unwrap()
}

} // verus!
