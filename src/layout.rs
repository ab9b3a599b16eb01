//! The byte layout of a finalized buffer:
//!
//! ```text
//! [entry count: i32][checksum: i32][start: i32, end: i32, tag: i32]* [payload]
//! ```
//!
//! All integers are stored in the host's byte order. The checksum is the entry
//! count minus `CHECKSUM_KEY`; it guards the count, not the payload. A field's
//! bytes are `payload[start..end]`.
//!
//! This is the array-header form of the format: O(1) header validation, with
//! explicit offsets. A header ended by a sentinel value, or one keyed by field
//! name and guarded by a CRC over the whole header, are other valid designs
//! for the same problem; this crate reads and writes neither.
use crate::native::{lemma_ne_i32_round_trip, ne_bytes_i32, ne_i32};
use vstd::prelude::*;

verus! {

/// The constant that the checksum is taken against.
pub const CHECKSUM_KEY: i32 = 0x7AFECAFE;

/// Bytes before the header entries: the count and the checksum.
pub const LEADING_SIZE: usize = 8;

/// Bytes of one header entry.
pub const ENTRY_SIZE: usize = 12;

/// The checksum stored for `n` entries.
pub open spec fn checksum_of(n: int) -> i32 {
    (n - CHECKSUM_KEY) as i32
}

/// Bytes of a header that describes `n` entries.
pub open spec fn header_size(n: int) -> int {
    LEADING_SIZE + ENTRY_SIZE * n
}

/// Total bytes of the fields' contents.
pub open spec fn payload_total(es: Seq<(i32, Seq<u8>)>) -> nat
    decreases es.len(),
{
    if es.len() == 0 {
        0
    } else {
        payload_total(es.drop_last()) + es.last().1.len()
    }
}

/// Where field `i` starts in the payload that the writer lays out.
pub open spec fn field_offset(es: Seq<(i32, Seq<u8>)>, i: int) -> int {
    payload_total(es.take(i)) as int
}

/// The twelve bytes of one header entry.
pub open spec fn entry_bytes(start: int, end: int, tag: i32) -> Seq<u8> {
    ne_bytes_i32(start as i32) + ne_bytes_i32(end as i32) + ne_bytes_i32(tag)
}

/// The header entries for `es`, with the fields laid out one after another.
pub open spec fn header_bytes(es: Seq<(i32, Seq<u8>)>) -> Seq<u8>
    decreases es.len(),
{
    if es.len() == 0 {
        Seq::empty()
    } else {
        let p = es.drop_last();
        header_bytes(p) + entry_bytes(
            payload_total(p) as int,
            (payload_total(p) + es.last().1.len()) as int,
            es.last().0,
        )
    }
}

/// The fields' contents, one after another.
pub open spec fn payload_bytes(es: Seq<(i32, Seq<u8>)>) -> Seq<u8>
    decreases es.len(),
{
    if es.len() == 0 {
        Seq::empty()
    } else {
        payload_bytes(es.drop_last()) + es.last().1
    }
}

/// The finalized buffer that holds the fields `es`, each a type tag and its bytes.
pub open spec fn encode(es: Seq<(i32, Seq<u8>)>) -> Seq<u8> {
    ne_bytes_i32(es.len() as i32) + ne_bytes_i32(checksum_of(es.len() as int)) + header_bytes(es)
        + payload_bytes(es)
}

/// Whether every offset of the buffer for `es` fits the format's 32-bit fields.
pub open spec fn fits(es: Seq<(i32, Seq<u8>)>) -> bool {
    header_size(es.len() as int) + payload_total(es) <= i32::MAX
}

/// The `i32` stored at `at` in `b`.
pub open spec fn i32_at(b: Seq<u8>, at: int) -> i32 {
    ne_i32(b.subrange(at, at + 4))
}

/// The entry count that `b` declares.
pub open spec fn entry_count(b: Seq<u8>) -> i32 {
    i32_at(b, 0)
}

/// The checksum that `b` holds.
pub open spec fn stored_checksum(b: Seq<u8>) -> i32 {
    i32_at(b, 4)
}

/// Field `k` (0: start, 1: end, 2: tag) of header entry `i` of `b`.
pub open spec fn header_field(b: Seq<u8>, i: int, k: int) -> i32 {
    i32_at(b, header_size(i) + 4 * k)
}

/// The payload region of `b`: what follows the header.
pub open spec fn payload_of(b: Seq<u8>) -> Seq<u8> {
    b.skip(header_size(entry_count(b) as int))
}

/// Whether the header of `b` is whole and its checksum matches its count.
pub open spec fn header_ok(b: Seq<u8>) -> bool {
    &&& b.len() >= LEADING_SIZE
    &&& entry_count(b) >= 0
    &&& header_size(entry_count(b) as int) <= b.len()
    &&& stored_checksum(b) + CHECKSUM_KEY == entry_count(b)
}

/// Whether header entry `i` of `b` names a range inside the payload.
pub open spec fn position_ok(b: Seq<u8>, i: int) -> bool {
    0 <= header_field(b, i, 0) <= header_field(b, i, 1) <= payload_of(b).len()
}

/// Whether `b` is a buffer that a reader accepts.
pub open spec fn well_formed(b: Seq<u8>) -> bool {
    &&& header_ok(b)
    &&& forall|i: int| 0 <= i < entry_count(b) ==> #[trigger] position_ok(b, i)
}

/// Field `i` of `b`: its type tag and its bytes.
pub open spec fn entry_of(b: Seq<u8>, i: int) -> (i32, Seq<u8>) {
    (
        header_field(b, i, 2),
        payload_of(b).subrange(header_field(b, i, 0) as int, header_field(b, i, 1) as int),
    )
}

/// The fields of a well-formed buffer `b`, in order.
pub open spec fn entries_of(b: Seq<u8>) -> Seq<(i32, Seq<u8>)> {
    Seq::new(entry_count(b) as nat, |i: int| entry_of(b, i))
}

proof fn lemma_payload_total_step(es: Seq<(i32, Seq<u8>)>, i: int)
    requires
        0 <= i < es.len(),
    ensures
        payload_total(es.take(i + 1)) == payload_total(es.take(i)) + es[i].1.len(),
{
    assert(es.take(i + 1).drop_last() =~= es.take(i));
}

proof fn lemma_payload_total_prefix(es: Seq<(i32, Seq<u8>)>, i: int)
    requires
        0 <= i <= es.len(),
    ensures
        payload_total(es.take(i)) <= payload_total(es),
    decreases es.len() - i,
{
    if i < es.len() {
        lemma_payload_total_step(es, i);
        lemma_payload_total_prefix(es, i + 1);
    } else {
        assert(es.take(i) =~= es);
    }
}

/// Field `i` ends within the payload.
pub proof fn lemma_field_end(es: Seq<(i32, Seq<u8>)>, i: int)
    requires
        0 <= i < es.len(),
    ensures
        field_offset(es, i) + es[i].1.len() == payload_total(es.take(i + 1)),
        field_offset(es, i) + es[i].1.len() <= payload_total(es),
{
    lemma_payload_total_step(es, i);
    lemma_payload_total_prefix(es, i + 1);
}

proof fn lemma_payload_bytes(es: Seq<(i32, Seq<u8>)>)
    ensures
        payload_bytes(es).len() == payload_total(es),
        forall|i: int|
            0 <= i < es.len() ==> #[trigger] payload_bytes(es).subrange(
                field_offset(es, i),
                field_offset(es, i) + es[i].1.len(),
            ) == es[i].1,
    decreases es.len(),
{
    if es.len() > 0 {
        let p = es.drop_last();
        lemma_payload_bytes(p);
        assert forall|i: int| 0 <= i < es.len() implies #[trigger] payload_bytes(es).subrange(
            field_offset(es, i),
            field_offset(es, i) + es[i].1.len(),
        ) == es[i].1 by {
            if i < es.len() - 1 {
                assert(es.take(i) =~= p.take(i));
                lemma_field_end(p, i);
                assert(payload_bytes(es).subrange(
                    field_offset(es, i),
                    field_offset(es, i) + es[i].1.len(),
                ) =~= payload_bytes(p).subrange(
                    field_offset(p, i),
                    field_offset(p, i) + p[i].1.len(),
                ));
            } else {
                assert(es.take(i) =~= p);
                assert(payload_bytes(es).subrange(
                    field_offset(es, i),
                    field_offset(es, i) + es[i].1.len(),
                ) =~= es[i].1);
            }
        }
    }
}

proof fn lemma_header_bytes(es: Seq<(i32, Seq<u8>)>)
    ensures
        header_bytes(es).len() == ENTRY_SIZE * es.len(),
        forall|i: int|
            0 <= i < es.len() ==> #[trigger] header_bytes(es).subrange(
                ENTRY_SIZE * i,
                ENTRY_SIZE * i + ENTRY_SIZE,
            ) == entry_bytes(
                field_offset(es, i),
                field_offset(es, i) + es[i].1.len(),
                es[i].0,
            ),
    decreases es.len(),
{
    if es.len() > 0 {
        let p = es.drop_last();
        lemma_header_bytes(p);
        let last = entry_bytes(
            payload_total(p) as int,
            (payload_total(p) + es.last().1.len()) as int,
            es.last().0,
        );
        lemma_ne_i32_round_trip((payload_total(p) as int) as i32);
        lemma_ne_i32_round_trip(((payload_total(p) + es.last().1.len()) as int) as i32);
        lemma_ne_i32_round_trip(es.last().0);
        assert(last.len() == ENTRY_SIZE);
        assert forall|i: int| 0 <= i < es.len() implies #[trigger] header_bytes(es).subrange(
            ENTRY_SIZE * i,
            ENTRY_SIZE * i + ENTRY_SIZE,
        ) == entry_bytes(
            field_offset(es, i),
            field_offset(es, i) + es[i].1.len(),
            es[i].0,
        ) by {
            if i < es.len() - 1 {
                assert(es.take(i) =~= p.take(i));
                assert(header_bytes(es).subrange(ENTRY_SIZE * i, ENTRY_SIZE * i + ENTRY_SIZE)
                    =~= header_bytes(p).subrange(ENTRY_SIZE * i, ENTRY_SIZE * i + ENTRY_SIZE));
            } else {
                assert(es.take(i) =~= p);
                assert(header_bytes(es).subrange(ENTRY_SIZE * i, ENTRY_SIZE * i + ENTRY_SIZE)
                    =~= last);
            }
        }
    }
}

/// Reading the `i32` at `at` of a buffer that holds `ne_bytes_i32(v)` there gives `v`.
proof fn lemma_i32_at(b: Seq<u8>, at: int, v: i32)
    requires
        0 <= at,
        at + 4 <= b.len(),
        b.subrange(at, at + 4) == ne_bytes_i32(v),
    ensures
        i32_at(b, at) == v,
{
    lemma_ne_i32_round_trip(v);
}

/// The buffer that a writer lays out for `es` is one that a reader accepts,
/// and the reader finds in it the fields `es`, in order, and their bytes
/// one after another as its payload.
pub proof fn lemma_encode_parses(es: Seq<(i32, Seq<u8>)>)
    requires
        fits(es),
    ensures
        well_formed(encode(es)),
        entries_of(encode(es)) == es,
        payload_of(encode(es)) == payload_bytes(es),
{
    let n = es.len() as int;
    let b = encode(es);
    let a0 = ne_bytes_i32(n as i32);
    let a1 = ne_bytes_i32(checksum_of(n));
    let h = header_bytes(es);
    let p = payload_bytes(es);
    lemma_ne_i32_round_trip(n as i32);
    lemma_ne_i32_round_trip(checksum_of(n));
    lemma_header_bytes(es);
    lemma_payload_bytes(es);
    assert(b.subrange(0, 4) =~= a0);
    assert(b.subrange(4, 8) =~= a1);
    lemma_i32_at(b, 0, n as i32);
    lemma_i32_at(b, 4, checksum_of(n));
    assert(entry_count(b) == n);
    assert(payload_of(b) =~= p);
    assert forall|i: int| 0 <= i < n implies #[trigger] position_ok(b, i) && entry_of(b, i)
        == es[i] by {
        let off = field_offset(es, i);
        let end = off + es[i].1.len();
        lemma_field_end(es, i);
        lemma_ne_i32_round_trip(off as i32);
        lemma_ne_i32_round_trip(end as i32);
        lemma_ne_i32_round_trip(es[i].0);
        let e = entry_bytes(off, end, es[i].0);
        assert(h.subrange(ENTRY_SIZE * i, ENTRY_SIZE * i + ENTRY_SIZE) == e);
        let base = header_size(i);
        assert(b.subrange(base, base + 4) =~= e.subrange(0, 4));
        assert(b.subrange(base + 4, base + 8) =~= e.subrange(4, 8));
        assert(b.subrange(base + 8, base + 12) =~= e.subrange(8, 12));
        assert(e.subrange(0, 4) =~= ne_bytes_i32(off as i32));
        assert(e.subrange(4, 8) =~= ne_bytes_i32(end as i32));
        assert(e.subrange(8, 12) =~= ne_bytes_i32(es[i].0));
        lemma_i32_at(b, base, off as i32);
        lemma_i32_at(b, base + 4, end as i32);
        lemma_i32_at(b, base + 8, es[i].0);
        assert(header_field(b, i, 0) == off);
        assert(header_field(b, i, 1) == end);
        assert(header_field(b, i, 2) == es[i].0);
    }
    assert forall|i: int| 0 <= i < n implies entries_of(b)[i] == es[i] by {
        assert(position_ok(b, i));
    }
    assert(entries_of(b) =~= es);
}

} // verus!
