//! Layout of the image store shared with the web application.

use vstd::prelude::*;
use vstd::string::StringExecFns;

use crate::numeric::{push_dec_i64, spec_dec_i64};

verus! {

/// The path under which image `id` is stored: originals under
/// `storage/images/`, thumbnails under `storage/thumbnails/`, each file
/// named by the decimal id and its format extension.
pub open spec fn spec_image_path(id: int, format: Seq<char>, thumbnail: bool) -> Seq<char> {
    "storage/"@ + (if thumbnail {
        "thumbnails/"@
    } else {
        "images/"@
    }) + spec_dec_i64(id) + "."@ + format
}

/// Renders the conventional path of an image's original or thumbnail.
pub fn get_image_path(id: i64, format: &str, thumbnail: bool) -> (r: String)
    ensures
        r@ == spec_image_path(id as int, format@, thumbnail),
{
    let mut out = String::from_str("storage/");
    if thumbnail {
        out.append("thumbnails/");
    } else {
        out.append("images/");
    }
    push_dec_i64(&mut out, id);
    out.append(".");
    out.append(format);
    proof {
        assert(out@ =~= spec_image_path(id as int, format@, thumbnail));
    }
    out
}

} // verus!
