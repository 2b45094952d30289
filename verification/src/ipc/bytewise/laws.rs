//! What holds of writing and reading back.

use crate::ipc::bytewise::buffer::{lemma_padding_bounds, lemma_pow2_positive};
use crate::ipc::bytewise::{
    cursor_fits, item_bytes, padding_spec, read_step, write_step, Cursor, DANGLING_ADDRESS,
};
use vstd::arithmetic::power2::is_pow2;
use vstd::prelude::*;

verus! {

/// Whether two buffers of one length hold the same bytes below `upto`.
pub open spec fn agree_below(a: Seq<u8>, b: Seq<u8>, upto: int) -> bool {
    &&& a.len() == b.len()
    &&& forall|i: int| 0 <= i < upto && i < a.len() ==> a[i] == b[i]
}

/// Whether the buffer `later` starts with the first `upto` bytes of the
/// buffer `written`.
pub open spec fn shows_prefix(later: Seq<u8>, written: Seq<u8>, upto: int) -> bool {
    &&& upto <= later.len()
    &&& upto <= written.len()
    &&& forall|i: int| 0 <= i < upto ==> later[i] == written[i]
}

/// A write keeps the buffer's address and length, moves the position forward,
/// stays inside the buffer, and leaves every byte before the old position as
/// it was.
pub proof fn lemma_write_extends(c: Cursor, origin: Option<usize>, src: Seq<u8>, align: usize)
    requires
        cursor_fits(c),
        write_step(c, origin, src, align) is Ok,
    ensures
        ({
            let next = write_step(c, origin, src, align)->Ok_0;
            &&& next.base == c.base
            &&& next.bytes.len() == c.bytes.len()
            &&& next.pos >= c.pos
            &&& src.len() > 0 ==> next.pos <= c.bytes.len()
            &&& agree_below(next.bytes, c.bytes, c.pos as int)
            &&& cursor_fits(next)
        }),
{
    if src.len() > 0 {
        lemma_pow2_positive(align as int);
        lemma_padding_bounds(c.base + c.pos, align as int);
    }
}

/// Whether a write succeeds or fails, the buffer keeps its address and its
/// length.
pub proof fn lemma_write_extends_or_fails(
    c: Cursor,
    origin: Option<usize>,
    src: Seq<u8>,
    align: usize,
)
    requires
        cursor_fits(c),
    ensures
        write_step(c, origin, src, align) is Ok ==> {
            let next = write_step(c, origin, src, align)->Ok_0;
            &&& next.base == c.base
            &&& next.bytes.len() == c.bytes.len()
            &&& cursor_fits(next)
        },
{
    if write_step(c, origin, src, align) is Ok {
        lemma_write_extends(c, origin, src, align);
    }
}

/// A read hands out as many bytes as were asked for, and moves the position
/// forward over the same buffer.
pub proof fn lemma_read_item(c: Cursor, size: usize, align: usize)
    requires
        cursor_fits(c),
        read_step(c, size, align) is Ok,
    ensures
        ({
            let (raw, next) = read_step(c, size, align)->Ok_0;
            &&& item_bytes(c, raw, size).len() == size
            &&& next.bytes == c.bytes
            &&& next.base == c.base
            &&& next.pos >= c.pos
            &&& cursor_fits(next)
        }),
{
    if size > 0 {
        lemma_pow2_positive(align as int);
        lemma_padding_bounds(c.base + c.pos, align as int);
    }
}

/// Whether a buffer at `rbase` lies as a buffer at `wbase` does, as far as
/// items aligned to `align` are concerned: the two addresses differ by a
/// multiple of `align`.
pub open spec fn same_alignment(wbase: usize, rbase: usize, align: usize) -> bool {
    align > 0 && (rbase - wbase) % (align as int) == 0
}

/// Addresses that differ by a multiple of the alignment ask for the same
/// padding.
pub proof fn lemma_padding_congruent(a1: int, a2: int, align: int)
    requires
        align > 0,
        (a2 - a1) % align == 0,
    ensures
        padding_spec(a1, align) == padding_spec(a2, align),
{
    let d = a2 - a1;
    vstd::arithmetic::div_mod::lemma_fundamental_div_mod(d, align);
    vstd::arithmetic::div_mod::lemma_mod_multiples_vanish(d / align, a1, align);
    assert(align * (d / align) + a1 == a2);
}

/// A power of two divides every power of two that is not smaller.
pub proof fn lemma_pow2_divides(a: int, m: int)
    requires
        is_pow2(a),
        is_pow2(m),
        a <= m,
    ensures
        m % a == 0,
    decreases m,
{
    reveal(is_pow2);
    if a == m {
        vstd::arithmetic::div_mod::lemma_mod_self_0(m);
    } else if a == 1 {
    } else {
        lemma_pow2_divides(a / 2, m / 2);
        let q = (m / 2) / (a / 2);
        vstd::arithmetic::div_mod::lemma_fundamental_div_mod(m / 2, a / 2);
        assert(m == a * q) by (nonlinear_arith)
            requires
                m / 2 == (a / 2) * q,
                m == 2 * (m / 2),
                a == 2 * (a / 2),
        ;
        vstd::arithmetic::div_mod::lemma_mod_multiples_basic(q, a);
        assert(a * q == q * a) by (nonlinear_arith);
    }
}

/// Buffers whose addresses differ by a multiple of a power of two lie alike
/// for every alignment up to that power of two: so do the two mappings of
/// one ring, which both start on a page, for every alignment up to the size
/// of a page.
pub proof fn lemma_page_aligned_lie_alike(wbase: usize, rbase: usize, page: usize, align: usize)
    requires
        is_pow2(page as int),
        is_pow2(align as int),
        align <= page,
        (rbase - wbase) % (page as int) == 0,
    ensures
        same_alignment(wbase, rbase, align),
{
    lemma_pow2_positive(align as int);
    lemma_pow2_divides(align as int, page as int);
    let d = rbase - wbase;
    let p = page as int;
    let a = align as int;
    vstd::arithmetic::div_mod::lemma_fundamental_div_mod(d, p);
    vstd::arithmetic::div_mod::lemma_fundamental_div_mod(p, a);
    assert(d == a * ((p / a) * (d / p))) by (nonlinear_arith)
        requires
            d == p * (d / p),
            p == a * (p / a),
    ;
    vstd::arithmetic::div_mod::lemma_mod_multiples_basic((p / a) * (d / p), a);
    assert(a * ((p / a) * (d / p)) == ((p / a) * (d / p)) * a) by (nonlinear_arith);
}

/// A reader that stands where the writer stood finds what was written: in
/// any buffer that starts as the written one does, up to the end of the
/// item, and lies as the written one did, a read of the same size and alignment
/// returns the item and ends where the write ended.
pub proof fn lemma_read_back(
    c: Cursor,
    origin: Option<usize>,
    src: Seq<u8>,
    align: usize,
    later: Seq<u8>,
    rbase: usize,
)
    requires
        cursor_fits(c),
        rbase + later.len() <= usize::MAX,
        src.len() <= usize::MAX,
        src.len() > 0 ==> same_alignment(c.base, rbase, align),
        write_step(c, origin, src, align) is Ok,
        shows_prefix(
            later,
            write_step(c, origin, src, align)->Ok_0.bytes,
            write_step(c, origin, src, align)->Ok_0.pos as int,
        ),
    ensures
        ({
            let next = write_step(c, origin, src, align)->Ok_0;
            let start = Cursor { bytes: later, base: rbase, pos: c.pos };
            &&& read_step(start, src.len() as usize, align) is Ok
            &&& read_step(start, src.len() as usize, align)->Ok_0.1 == (Cursor {
                bytes: later,
                base: rbase,
                pos: next.pos,
            })
            &&& item_bytes(
                start,
                read_step(start, src.len() as usize, align)->Ok_0.0,
                src.len() as usize,
            ) == src
            &&& src.len() == 0 ==> read_step(start, src.len() as usize, align)->Ok_0.0.addr
                == DANGLING_ADDRESS
        }),
{
    let next = write_step(c, origin, src, align)->Ok_0;
    let start = Cursor { bytes: later, base: rbase, pos: c.pos };
    if src.len() > 0 {
        lemma_pow2_positive(align as int);
        lemma_padding_bounds(c.base + c.pos, align as int);
        lemma_padding_congruent(c.base + c.pos, rbase + c.pos, align as int);
        let padding = padding_spec(c.base + c.pos, align as int);
        let raw = read_step(start, src.len() as usize, align)->Ok_0.0;
        assert(raw.offset == c.pos + padding);
        assert(item_bytes(start, raw, src.len() as usize) =~= src) by {
            assert forall|i: int| 0 <= i < src.len() implies later[raw.offset + i] == src[i] by {
                assert(next.bytes[raw.offset + i] == src[i]);
            }
        }
    } else {
        assert(item_bytes(start, read_step(start, 0, align)->Ok_0.0, 0) =~= src);
    }
}

} // verus!
