//! Layout of a mirrored mapping.
//!
//! A backing object of `R + D` bytes is mapped as `[ R | D | D' ]`, where `D'`
//! shows the same bytes as `D`. Any span of at most `D` bytes that starts in
//! `D` is then contiguous in the mapping, also when it runs past the end of `D`.
//! This module computes the layout and the two fixed windows that realise it;
//! installing them is the caller's part.

use vstd::prelude::*;

verus! {

/// Why a layout or a mapping step is refused.
#[derive(Clone, Copy, Debug, PartialEq, Eq, Structural)]
pub enum MapError {
    /// A length is zero, or the reserved prefix leaves no room for data.
    InvalidArgument,
    /// A fixed window was not placed at the address asked for.
    AddressNotAvailable,
}

/// One fixed window of the backing object inside the reservation.
#[derive(Clone, Copy, Debug, PartialEq, Eq, Structural)]
pub struct MapWindow {
    /// Offset of the window from the start of the reservation.
    pub at: usize,
    /// Length of the window in bytes.
    pub len: usize,
    /// Offset into the backing object at which the window starts.
    pub file_offset: usize,
}

/// Lengths of the three parts of a mirrored mapping.
#[derive(Clone, Copy, Debug, PartialEq, Eq, Structural)]
pub struct MirroredLayout {
    resv_len: usize,
    data_len: usize,
}

impl MirroredLayout {
    /// Length of the reserved prefix.
    pub closed spec fn resv(&self) -> usize {
        self.resv_len
    }

    /// Length of the data region.
    pub closed spec fn data(&self) -> usize {
        self.data_len
    }

    /// Both regions are non-empty and the backing object fits in `usize`.
    pub open spec fn wf(&self) -> bool {
        &&& self.resv() > 0
        &&& self.data() > 0
        &&& self.resv() + self.data() <= usize::MAX
    }

    /// Length of the whole reservation, before capping.
    pub open spec fn span(&self) -> int {
        self.resv() + 2 * self.data()
    }

    /// Length of the reservation, capped at `usize::MAX`.
    pub open spec fn total_len_spec(&self) -> usize {
        if self.span() <= usize::MAX {
            self.span() as usize
        } else {
            usize::MAX
        }
    }

    /// Offset of the data region in the reservation.
    pub open spec fn data_offset_spec(&self) -> int {
        self.resv() as int
    }

    /// Offset of the mirror in the reservation.
    pub open spec fn mirrored_offset_spec(&self) -> int {
        self.resv() + self.data()
    }

    /// The window that shows the whole backing object at the start of the
    /// reservation.
    pub open spec fn primary_window_spec(&self) -> MapWindow {
        MapWindow { at: 0, len: (self.resv() + self.data()) as usize, file_offset: 0 }
    }

    /// The window that shows the data region a second time, right behind the
    /// first.
    pub open spec fn mirror_window_spec(&self) -> MapWindow {
        MapWindow {
            at: (self.resv() + self.data()) as usize,
            len: self.data(),
            file_offset: self.resv(),
        }
    }

    /// The byte of the backing object that is seen at offset `v` of the
    /// reservation.
    pub open spec fn backing_spec(&self, v: int) -> int
        recommends
            0 <= v < self.span(),
    {
        if v < self.resv() + self.data() {
            v
        } else {
            v - self.data()
        }
    }

    /// Splits a backing object of `len` bytes into a reserved prefix of
    /// `resv_len` bytes and the data region that follows it.
    pub fn plan(len: usize, resv_len: usize) -> (r: Result<MirroredLayout, MapError>)
        ensures
            r is Err <==> (resv_len == 0 || resv_len >= len),
            r is Err ==> r == Err::<MirroredLayout, MapError>(MapError::InvalidArgument),
            r is Ok ==> {
                &&& r->Ok_0.wf()
                &&& r->Ok_0.resv() == resv_len
                &&& r->Ok_0.data() == len - resv_len
            },
    {
        if resv_len == 0 {
            return Err(MapError::InvalidArgument);
        }
        if resv_len >= len {
            return Err(MapError::InvalidArgument);
        }
        Ok(MirroredLayout { resv_len, data_len: len - resv_len })
    }

    /// Length of the reserved prefix.
    pub fn reserved_len(&self) -> (n: usize)
        ensures
            n == self.resv(),
    {
        self.resv_len
    }

    /// Length of the data region.
    pub fn data_len(&self) -> (n: usize)
        ensures
            n == self.data(),
    {
        self.data_len
    }

    /// Length of the mirror, which equals that of the data region.
    pub fn mirrored_len(&self) -> (n: usize)
        ensures
            n == self.data(),
    {
        self.data_len
    }

    /// Length of the backing object.
    pub fn file_len(&self) -> (n: usize)
        requires
            self.wf(),
        ensures
            n == self.resv() + self.data(),
    {
        self.resv_len + self.data_len
    }

    /// Length of the reservation, capped at `usize::MAX`.
    pub fn total_len(&self) -> (n: usize)
        ensures
            n == self.total_len_spec(),
    {
        match self.data_len.checked_mul(2) {
            Some(twice) => self.resv_len.saturating_add(twice),
            None => usize::MAX,
        }
    }

    /// Offset of the data region in the reservation.
    pub fn data_offset(&self) -> (n: usize)
        ensures
            n == self.data_offset_spec(),
    {
        self.resv_len
    }

    /// Offset of the mirror in the reservation.
    pub fn mirrored_offset(&self) -> (n: usize)
        requires
            self.wf(),
        ensures
            n == self.mirrored_offset_spec(),
    {
        self.resv_len + self.data_len
    }

    /// The window that shows the whole backing object at the start of the
    /// reservation.
    pub fn primary_window(&self) -> (w: MapWindow)
        requires
            self.wf(),
        ensures
            w == self.primary_window_spec(),
    {
        MapWindow { at: 0, len: self.resv_len + self.data_len, file_offset: 0 }
    }

    /// The window that shows the data region a second time, right behind the
    /// first.
    pub fn mirror_window(&self) -> (w: MapWindow)
        requires
            self.wf(),
        ensures
            w == self.mirror_window_spec(),
    {
        MapWindow {
            at: self.resv_len + self.data_len,
            len: self.data_len,
            file_offset: self.resv_len,
        }
    }

    /// The offset into the backing object at which the mirror window starts,
    /// as the mapping call takes it. Fails if it does not fit a signed 64-bit
    /// offset.
    pub fn mirror_file_offset(&self) -> (r: Result<i64, MapError>)
        ensures
            r == if self.resv() > i64::MAX {
                Err::<i64, MapError>(MapError::InvalidArgument)
            } else {
                Ok::<i64, MapError>(self.resv() as i64)
            },
    {
        if self.resv_len as u64 > 0x7fff_ffff_ffff_ffffu64 {
            return Err(MapError::InvalidArgument);
        }
        Ok(self.resv_len as i64)
    }

    /// The byte of the backing object seen at offset `v` of the reservation.
    pub fn backing_offset(&self, v: usize) -> (b: usize)
        requires
            self.wf(),
            v < self.span(),
        ensures
            b == self.backing_spec(v as int),
            b < self.resv() + self.data(),
    {
        if v < self.resv_len + self.data_len {
            v
        } else {
            v - self.data_len
        }
    }
}

/// Accepts the length of a plain mapping: any but zero.
pub fn check_len(len: usize) -> (r: Result<(), MapError>)
    ensures
        r == if len == 0 {
            Err::<(), MapError>(MapError::InvalidArgument)
        } else {
            Ok::<(), MapError>(())
        },
{
    if len == 0 {
        return Err(MapError::InvalidArgument);
    }
    Ok(())
}

/// Accepts a fixed window only where it was placed at the address asked for.
pub fn check_fixed(requested: usize, placed: usize) -> (r: Result<(), MapError>)
    ensures
        r == if placed == requested {
            Ok::<(), MapError>(())
        } else {
            Err::<(), MapError>(MapError::AddressNotAvailable)
        },
{
    if placed != requested {
        return Err(MapError::AddressNotAvailable);
    }
    Ok(())
}

/// Whether offset `v` of the reservation lies in the window `w`.
pub open spec fn in_window(w: MapWindow, v: int) -> bool {
    w.at <= v < w.at + w.len
}

/// The byte of the backing object that the window `w` shows at offset `v` of
/// the reservation.
pub open spec fn shown_by(w: MapWindow, v: int) -> int
    recommends
        in_window(w, v),
{
    w.file_offset + (v - w.at)
}

/// The two windows realise the layout: they cover the reservation without
/// gap or overlap, each lies inside the backing object, and every offset of
/// the reservation shows, through the window it lies in, the byte that
/// `backing_spec` names.
pub proof fn lemma_windows_realise_backing(layout: MirroredLayout, v: int)
    requires
        layout.wf(),
        0 <= v < layout.span(),
    ensures
        layout.primary_window_spec().at == 0,
        layout.mirror_window_spec().at == layout.primary_window_spec().at
            + layout.primary_window_spec().len,
        layout.mirror_window_spec().at + layout.mirror_window_spec().len == layout.span(),
        layout.primary_window_spec().file_offset + layout.primary_window_spec().len
            == layout.resv() + layout.data(),
        layout.mirror_window_spec().file_offset + layout.mirror_window_spec().len == layout.resv()
            + layout.data(),
        in_window(layout.primary_window_spec(), v) != in_window(layout.mirror_window_spec(), v),
        in_window(layout.primary_window_spec(), v) ==> layout.backing_spec(v) == shown_by(
            layout.primary_window_spec(),
            v,
        ),
        in_window(layout.mirror_window_spec(), v) ==> layout.backing_spec(v) == shown_by(
            layout.mirror_window_spec(),
            v,
        ),
{
}

/// The mapping that is planned for a backing object mirrors its data: where
/// the reservation fits the address space, it is as long as the reserved
/// prefix and twice the data, the mirror starts one data length behind the
/// data, and every byte of the data is seen again at the same offset of the
/// mirror, through the windows that realise the layout.
pub proof fn lemma_planned_mapping_mirrors(layout: MirroredLayout, i: int)
    requires
        layout.wf(),
        layout.span() <= usize::MAX,
        0 <= i < layout.data(),
    ensures
        layout.total_len_spec() == layout.resv() + 2 * layout.data(),
        layout.mirrored_offset_spec() == layout.data_offset_spec() + layout.data(),
        in_window(layout.primary_window_spec(), layout.data_offset_spec() + i),
        in_window(layout.mirror_window_spec(), layout.mirrored_offset_spec() + i),
        shown_by(layout.primary_window_spec(), layout.data_offset_spec() + i) == shown_by(
            layout.mirror_window_spec(),
            layout.mirrored_offset_spec() + i,
        ),
        layout.backing_spec(layout.data_offset_spec() + i) == layout.backing_spec(
            layout.mirrored_offset_spec() + i,
        ),
{
}

/// Every byte of the data region is seen again one data length further on.
pub proof fn lemma_mirror_shows_same_byte(layout: MirroredLayout, i: int)
    requires
        layout.wf(),
        0 <= i < layout.data(),
    ensures
        layout.backing_spec(layout.resv() + i) == layout.backing_spec(
            layout.resv() + layout.data() + i,
        ),
        layout.backing_spec(layout.resv() + i) == layout.resv() + i,
{
}

/// A span that starts in the data region and is no longer than it wraps
/// around: byte `k` of a span at data offset `start` is byte
/// `(start + k) % D` of the data region.
pub proof fn lemma_span_wraps_around(layout: MirroredLayout, start: int, k: int)
    requires
        layout.wf(),
        0 <= start < layout.data(),
        0 <= k < layout.data(),
    ensures
        layout.backing_spec(layout.resv() + start + k) == layout.resv() + (start + k) % (
        layout.data() as int),
{
    let d = layout.data() as int;
    if start + k < d {
        vstd::arithmetic::div_mod::lemma_small_mod((start + k) as nat, d as nat);
    } else {
        vstd::arithmetic::div_mod::lemma_small_mod((start + k - d) as nat, d as nat);
        vstd::arithmetic::div_mod::lemma_mod_sub_multiples_vanish(start + k, d);
    }
}

} // verus!
