//! The ring as a pipe: what a reader is shown is what writers have submitted,
//! in the order in which they submitted it.
//!
//! The laws speak of the data region as a sequence of bytes, and of a span as
//! what the mirrored mapping shows from an offset on: byte `i` of a span at
//! `offset` is byte `(offset + i) % D` of the region. They hold as long as the
//! counters have not wrapped around the end of `usize`; a ring whose capacity
//! divides the range of `usize` keeps its positions across the wrap, any
//! other ring does not.

use crate::ipc::transport::shmem::channel::{ring_inv, used_spec};
use vstd::arithmetic::div_mod::{
    lemma_add_mod_noop_right, lemma_mod_add_multiples_vanish, lemma_mod_bound, lemma_small_mod,
    lemma_sub_mod_noop,
};
use vstd::prelude::*;

verus! {

/// The `len` bytes that the mirrored mapping shows from data offset `offset`
/// on.
pub open spec fn span_bytes(data: Seq<u8>, offset: int, len: int) -> Seq<u8> {
    Seq::new(len as nat, |i: int| data[(offset + i) % (data.len() as int)])
}

/// The data region after `written` has been stored through a span that
/// starts at data offset `offset`.
pub open spec fn store_span(data: Seq<u8>, offset: int, written: Seq<u8>) -> Seq<u8> {
    Seq::new(
        data.len(),
        |j: int|
            if (j - offset) % (data.len() as int) < written.len() {
                written[(j - offset) % (data.len() as int)]
            } else {
                data[j]
            },
    )
}

/// The bytes that a reader is shown: those between the two counters.
pub open spec fn readable(data: Seq<u8>, head: usize, tail: usize) -> Seq<u8> {
    span_bytes(data, (head as int) % (data.len() as int), used_spec(head, tail) as int)
}

/// Whether the counters have not wrapped around, and `more` further bytes
/// do not make them.
pub open spec fn unwrapped(head: usize, tail: usize, more: int) -> bool {
    head <= tail && tail + more <= usize::MAX
}

/// `(x % m + y) % m` is `(x + y) % m`.
proof fn lemma_mod_shift(x: int, y: int, m: int)
    requires
        0 < m,
    ensures
        ((x % m) + y) % m == (x + y) % m,
{
    lemma_add_mod_noop_right(y, x, m);
    assert(y + x % m == x % m + y);
    assert(y + x == x + y);
}

/// A submit appends: after a writer has stored `written` through the span
/// that it was granted and has submitted the first `n` bytes of it, the
/// reader is shown what it was shown before, followed by those `n` bytes.
pub proof fn lemma_submit_appends(
    data: Seq<u8>,
    head: usize,
    tail: usize,
    written: Seq<u8>,
    n: usize,
)
    requires
        data.len() <= usize::MAX,
        ring_inv(head, tail, data.len() as usize),
        written.len() <= data.len() - used_spec(head, tail) - 1,
        n <= written.len(),
        unwrapped(head, tail, n as int),
    ensures
        readable(
            store_span(data, (tail as int) % (data.len() as int), written),
            head,
            (tail + n) as usize,
        ) == readable(data, head, tail) + written.subrange(0, n as int),
{
    let cap = data.len() as int;
    let used = (tail - head) as int;
    let stored = store_span(data, (tail as int) % cap, written);
    let before = readable(data, head, tail);
    let after = readable(stored, head, (tail + n) as usize);
    assert(after.len() == before.len() + n);
    assert forall|i: int| 0 <= i < used + n implies after[i] == (before + written.subrange(
        0,
        n as int,
    ))[i] by {
        let j = (((head as int) % cap) + i) % cap;
        lemma_mod_shift(head as int, i, cap);
        lemma_mod_bound(head + i, cap);
        assert(j == (head + i) % cap);
        // The place of `j` in the span that was written.
        let k = (j - (tail as int) % cap) % cap;
        lemma_sub_mod_noop(head + i, tail as int, cap);
        assert(k == (head + i - tail) % cap);
        if i < used {
            lemma_mod_add_multiples_vanish(head + i - tail, cap);
            lemma_small_mod((cap + head + i - tail) as nat, cap as nat);
            assert(k == cap - (used - i));
            assert(stored[j] == data[j]);
        } else {
            lemma_small_mod((i - used) as nat, cap as nat);
            assert(k == i - used);
            assert(stored[j] == written[i - used]);
        }
    }
    assert(after =~= before + written.subrange(0, n as int));
}

/// A consume drops: after a reader has consumed `n` bytes of what it was
/// shown, it is shown the rest.
pub proof fn lemma_consume_drops(data: Seq<u8>, head: usize, tail: usize, n: usize)
    requires
        data.len() <= usize::MAX,
        ring_inv(head, tail, data.len() as usize),
        n <= used_spec(head, tail),
        unwrapped(head, tail, 0),
    ensures
        readable(data, (head + n) as usize, tail) == readable(data, head, tail).skip(n as int),
{
    let cap = data.len() as int;
    let before = readable(data, head, tail);
    let after = readable(data, (head + n) as usize, tail);
    assert forall|i: int| 0 <= i < after.len() implies after[i] == before.skip(n as int)[i] by {
        lemma_mod_shift(head + n, i, cap);
        lemma_mod_shift(head as int, n + i, cap);
    }
    assert(after =~= before.skip(n as int));
}

/// A span that a party was granted never reaches the bytes that the other
/// side holds: storing through a write span leaves what the reader is shown
/// as it was.
pub proof fn lemma_write_span_spares_readable(
    data: Seq<u8>,
    head: usize,
    tail: usize,
    written: Seq<u8>,
)
    requires
        data.len() <= usize::MAX,
        ring_inv(head, tail, data.len() as usize),
        written.len() <= data.len() - used_spec(head, tail) - 1,
        unwrapped(head, tail, 0),
    ensures
        readable(store_span(data, (tail as int) % (data.len() as int), written), head, tail) == readable(
            data,
            head,
            tail,
        ),
{
    lemma_submit_appends(data, head, tail, written, 0);
    assert(written.subrange(0, 0) =~= Seq::<u8>::empty());
    assert(readable(data, head, tail) + Seq::<u8>::empty() =~= readable(data, head, tail));
}

/// A span is what the mirrored mapping shows: byte `i` of a span at data
/// offset `offset` is the byte of the data region that is seen `offset + i`
/// bytes behind the start of the data region in the mapping.
pub proof fn lemma_span_is_what_the_mapping_shows(
    layout: crate::sys::mmap::MirroredLayout,
    data: Seq<u8>,
    offset: int,
    len: int,
    i: int,
)
    requires
        layout.wf(),
        data.len() == layout.data(),
        0 <= offset < data.len(),
        0 <= i < len <= data.len(),
    ensures
        span_bytes(data, offset, len)[i] == data[layout.backing_spec(layout.resv() + offset + i)
            - layout.resv()],
        layout.resv() + offset + i < layout.span(),
{
    crate::sys::mmap::lemma_span_wraps_around(layout, offset, i);
}

/// Frames arrive in the order in which they were sent: a reader that is
/// shown a frame followed by whatever was submitted behind it decodes that
/// frame, and after it has consumed the frame's length it is shown what was
/// submitted behind the frame.
pub proof fn lemma_frames_arrive_in_order(
    limit: usize,
    data: Seq<u8>,
    head: usize,
    tail: usize,
    payload: Seq<u8>,
    behind: Seq<u8>,
)
    requires
        data.len() <= usize::MAX,
        ring_inv(head, tail, data.len() as usize),
        unwrapped(head, tail, 0),
        crate::ipc::framer::header::FRAME_HEADER_LEN + payload.len() <= limit,
        payload.len() <= u32::MAX,
        readable(data, head, tail) == crate::ipc::framer::header::frame_bytes(payload) + behind,
    ensures
        crate::ipc::framer::header::decode_spec(limit, readable(data, head, tail)) == Ok::<
            Option<(usize, Seq<u8>)>,
            crate::ipc::framer::header::FrameFault,
        >(Some(((crate::ipc::framer::header::FRAME_HEADER_LEN + payload.len()) as usize, payload))),
        crate::ipc::framer::header::FRAME_HEADER_LEN + payload.len() <= used_spec(head, tail),
        readable(
            data,
            (head + crate::ipc::framer::header::FRAME_HEADER_LEN + payload.len()) as usize,
            tail,
        ) == behind,
{
    let frame = crate::ipc::framer::header::frame_bytes(payload);
    crate::ipc::framer::header::lemma_decode_of_encode(limit, payload, behind);
    crate::ipc::framer::header::lemma_frame_len(payload);
    assert(readable(data, head, tail).len() == used_spec(head, tail));
    lemma_consume_drops(data, head, tail, frame.len() as usize);
    assert((frame + behind).skip(frame.len() as int) =~= behind);
}

} // verus!
