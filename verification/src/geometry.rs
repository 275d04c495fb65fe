//! Geometry of the deterministic image preprocessing: shortest-side resize
//! to the model's input size, then a centered crop.

use vstd::prelude::*;

verus! {

/// Side length of the vision model's square input.
pub const CLIP_SIDE: u32 = 224;

/// Dimensions after the shortest-side resize: the short side becomes
/// `CLIP_SIDE` and the long side scales by the same ratio, rounded down.
pub open spec fn spec_resize_dims(w: int, h: int) -> (int, int) {
    if w <= h {
        (CLIP_SIDE as int, CLIP_SIDE as int * h / w)
    } else {
        (CLIP_SIDE as int * w / h, CLIP_SIDE as int)
    }
}

/// Offset of a centered window of size `CLIP_SIDE` in a span of `outer`:
/// `round((outer - CLIP_SIDE) / 2)`, rounding halves up.
pub open spec fn spec_crop_offset(outer: int) -> int {
    (outer - CLIP_SIDE + 1) / 2
}

/// Computes the resize target per `spec_resize_dims`.  `None` when a side
/// is zero or the scaled long side would not fit in a `u32`.
pub fn resize_dimensions(width: u32, height: u32) -> (r: Option<(u32, u32)>)
    ensures
        match r {
            Some(dims) => {
                &&& width >= 1 && height >= 1
                &&& (dims.0 as int, dims.1 as int) == spec_resize_dims(width as int, height as int)
                &&& dims.0 >= CLIP_SIDE && dims.1 >= CLIP_SIDE
            },
            None => width == 0 || height == 0 || (if width <= height {
                spec_resize_dims(width as int, height as int).1 > u32::MAX
            } else {
                spec_resize_dims(width as int, height as int).0 > u32::MAX
            }),
        },
{
    if width == 0 || height == 0 {
        return None;
    }
    let (short, long) = if width <= height {
        (width, height)
    } else {
        (height, width)
    };
    let scaled_wide: u64 = (CLIP_SIDE as u64) * (long as u64) / (short as u64);
    proof {
        assert(scaled_wide as int == CLIP_SIDE as int * long as int / short as int);
        assert(scaled_wide as int >= CLIP_SIDE as int) by (nonlinear_arith)
            requires
                1 <= short as int <= long as int,
                scaled_wide as int == CLIP_SIDE as int * long as int / short as int,
        ;
    }
    if scaled_wide > u32::MAX as u64 {
        return None;
    }
    let scaled: u32 = scaled_wide as u32;
    if width <= height {
        Some((CLIP_SIDE, scaled))
    } else {
        Some((scaled, CLIP_SIDE))
    }
}

/// Offsets of the centered `CLIP_SIDE` square inside a resized image; the
/// window always fits.
pub fn crop_offsets(new_width: u32, new_height: u32) -> (r: (u32, u32))
    requires
        new_width >= CLIP_SIDE,
        new_height >= CLIP_SIDE,
    ensures
        r.0 as int == spec_crop_offset(new_width as int),
        r.1 as int == spec_crop_offset(new_height as int),
        r.0 + CLIP_SIDE <= new_width,
        r.1 + CLIP_SIDE <= new_height,
{
    let left = (new_width - CLIP_SIDE + 1) / 2;
    let top = (new_height - CLIP_SIDE + 1) / 2;
    (left, top)
}

/// An image whose shorter side already equals `CLIP_SIDE` keeps its
/// dimensions: the resize is the identity there, and only the crop acts.
pub proof fn lemma_resize_identity(w: int, h: int)
    requires
        w >= 1,
        h >= 1,
        (if w <= h {
            w
        } else {
            h
        }) == CLIP_SIDE as int,
    ensures
        spec_resize_dims(w, h) == (w, h),
{
    if w <= h {
        assert(CLIP_SIDE as int * h / w == h) by (nonlinear_arith)
            requires
                w == CLIP_SIDE as int,
                h >= 1,
                w >= 1,
        ;
    } else {
        assert(CLIP_SIDE as int * w / h == w) by (nonlinear_arith)
            requires
                h == CLIP_SIDE as int,
                w >= 1,
                h >= 1,
        ;
    }
}

/// An image whose shorter side exceeds `CLIP_SIDE` genuinely shrinks: the
/// resize path is taken, and the result differs from the input dimensions.
pub proof fn lemma_resize_shrinks(w: int, h: int)
    requires
        (if w <= h {
            w
        } else {
            h
        }) > CLIP_SIDE as int,
    ensures
        spec_resize_dims(w, h) != (w, h),
        (if w <= h {
            spec_resize_dims(w, h).0
        } else {
            spec_resize_dims(w, h).1
        }) == CLIP_SIDE as int,
{
}

} // verus!
