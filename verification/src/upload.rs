//! Decisions of the upload handler: the index document id, and the
//! thumbnail plan for the stored original.

use vstd::prelude::*;

use crate::numeric::{i64_to_string, spec_dec_i64};

verus! {

/// Largest thumbnail width.
pub const MAX_WIDTH: u32 = 800;

/// Largest thumbnail height.
pub const MAX_HEIGHT: u32 = 600;

/// The search index's document id for image `id`: its decimal text.
pub fn document_id(id: i64) -> (r: String)
    ensures
        r@ == spec_dec_i64(id as int),
{
    i64_to_string(id)
}

/// How the thumbnail of an upload is produced.
#[derive(Clone, Copy, Debug, PartialEq, Eq, Structural)]
pub enum ThumbnailPlan {
    /// The original already fits the thumbnail bounds: link to it.
    LinkOriginal,
    /// Rescale the original down into the bounds.
    Rescale,
}

/// An original within `MAX_WIDTH` × `MAX_HEIGHT` is linked as its own
/// thumbnail; a larger one is rescaled.
pub fn thumbnail_plan(width: u32, height: u32) -> (p: ThumbnailPlan)
    ensures
        p == ThumbnailPlan::LinkOriginal <==> (width <= MAX_WIDTH && height <= MAX_HEIGHT),
{
    if width <= MAX_WIDTH && height <= MAX_HEIGHT {
        ThumbnailPlan::LinkOriginal
    } else {
        ThumbnailPlan::Rescale
    }
}

/// The Exif orientation of the original, defaulted to 1 (upright) when the
/// tag is absent or out of the defined 1..=8 range.
pub fn normalize_orientation(raw: Option<u32>) -> (o: u32)
    ensures
        1 <= o <= 8,
        match raw {
            Some(v) => o == if 1 <= v <= 8 {
                v
            } else {
                1u32
            },
            None => o == 1,
        },
{
    match raw {
        Some(v) => if 1 <= v && v <= 8 {
            v
        } else {
            1
        },
        None => 1,
    }
}

/// One pixel-level operation undoing an Exif orientation.
#[derive(Clone, Copy, Debug, PartialEq, Eq, Structural)]
pub enum OrientOp {
    FlipHorizontal,
    Rotate90,
    Rotate180,
    Rotate270,
}

/// The operations applied to a rescaled thumbnail for each Exif
/// orientation, in order.
pub open spec fn spec_orientation_ops(o: u32) -> Seq<OrientOp> {
    if o == 2 {
        seq![OrientOp::FlipHorizontal]
    } else if o == 3 {
        seq![OrientOp::Rotate180]
    } else if o == 4 {
        seq![OrientOp::FlipHorizontal]
    } else if o == 5 {
        seq![OrientOp::Rotate90, OrientOp::FlipHorizontal]
    } else if o == 6 {
        seq![OrientOp::Rotate90]
    } else if o == 7 {
        seq![OrientOp::Rotate270, OrientOp::FlipHorizontal]
    } else if o == 8 {
        seq![OrientOp::Rotate270]
    } else {
        Seq::empty()
    }
}

/// The operation list for an orientation, per `spec_orientation_ops`.
pub fn orientation_ops(o: u32) -> (ops: Vec<OrientOp>)
    requires
        1 <= o <= 8,
    ensures
        ops@ == spec_orientation_ops(o),
{
    let mut ops: Vec<OrientOp> = Vec::new();
    if o == 2 {
        ops.push(OrientOp::FlipHorizontal);
    } else if o == 3 {
        ops.push(OrientOp::Rotate180);
    } else if o == 4 {
        ops.push(OrientOp::FlipHorizontal);
    } else if o == 5 {
        ops.push(OrientOp::Rotate90);
        ops.push(OrientOp::FlipHorizontal);
    } else if o == 6 {
        ops.push(OrientOp::Rotate90);
    } else if o == 7 {
        ops.push(OrientOp::Rotate270);
        ops.push(OrientOp::FlipHorizontal);
    } else if o == 8 {
        ops.push(OrientOp::Rotate270);
    }
    proof {
        assert(ops@ =~= spec_orientation_ops(o));
    }
    ops
}

} // verus!
