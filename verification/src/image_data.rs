//! Pixel data of a decoded image, and the deterministic pipeline from it to
//! the vision model's input tensor: resize, center crop, channel-first
//! layout.
//!
//! Decoding and resampling run in the `image` crate behind trusted
//! wrappers; both are pure functions of the pixel bytes and dimensions, so
//! their results carry names (`spec_decode_rgb`, `spec_catmull_resize`) and
//! everything downstream of them is verified against those names.

use vstd::arithmetic::div_mod::lemma_fundamental_div_mod_converse;
use vstd::prelude::*;

use crate::geometry::{
    crop_offsets, resize_dimensions, spec_crop_offset, spec_resize_dims, CLIP_SIDE,
};

verus! {

/// An 8-bit RGB image: rows top to bottom, pixels left to right, three
/// bytes (R, G, B) per pixel.
pub struct RgbImage {
    pub width: u32,
    pub height: u32,
    pub pixels: Vec<u8>,
}

impl RgbImage {
    /// The buffer holds exactly three bytes per pixel.
    pub open spec fn wf(self) -> bool {
        self.pixels@.len() == 3 * self.width as int * self.height as int
    }

    /// Channel `c` of the pixel at column `x`, row `y`.
    pub open spec fn spec_pixel(self, x: int, y: int, c: int) -> u8
        recommends
            0 <= x < self.width,
            0 <= y < self.height,
            0 <= c < 3,
    {
        self.pixels@[(y * self.width as int + x) * 3 + c]
    }
}

/// A `(3, height, width)` tensor of bytes in channel-first order, as the
/// model input is laid out before scaling to floats.
pub struct ChwTensor {
    pub width: u32,
    pub height: u32,
    pub data: Vec<u8>,
}

impl ChwTensor {
    /// The buffer holds the three full planes.
    pub open spec fn wf(self) -> bool {
        self.data@.len() == 3 * self.width as int * self.height as int
    }

    /// Entry of plane `c` at row `y`, column `x`.
    pub open spec fn spec_at(self, c: int, y: int, x: int) -> u8
        recommends
            0 <= c < 3,
            0 <= y < self.height,
            0 <= x < self.width,
    {
        self.data@[c * (self.height as int * self.width as int) + y * self.width as int + x]
    }
}

/// In-bounds row-major pixel indices stay within the buffer.
proof fn lemma_pixel_index_bound(w: int, h: int, x: int, y: int, c: int)
    requires
        0 <= x < w,
        0 <= y < h,
        0 <= c < 3,
    ensures
        0 <= (y * w + x) * 3 + c < 3 * w * h,
        y * w + x < w * h,
    decreases 0int,
{
    assert(0 <= y * w + x < w * h) by (nonlinear_arith)
        requires
            0 <= x < w,
            0 <= y < h,
    ;
    assert(0 <= (y * w + x) * 3 + c < 3 * w * h) by (nonlinear_arith)
        requires
            0 <= y * w + x < w * h,
            0 <= c < 3,
    ;
}

/// Row-major flat indices respect the row-then-column order of filling.
proof fn lemma_crop_flat_lt(wd: int, xx: int, yy: int, cc: int, x: int, y: int)
    requires
        0 <= xx < wd,
        0 <= cc < 3,
        0 <= yy,
        0 <= x <= wd,
        yy < y || (yy == y && xx < x),
    ensures
        (yy * wd + xx) * 3 + cc < 3 * (y * wd + x),
{
    assert((yy * wd + xx) * 3 + cc < 3 * (y * wd + x)) by (nonlinear_arith)
        requires
            0 <= xx < wd,
            0 <= cc < 3,
            0 <= yy,
            0 <= x <= wd,
            yy < y || (yy == y && xx < x),
    ;
}

/// Plane-major flat indices respect the plane, row, column filling order.
proof fn lemma_chw_flat_lt(w: int, h: int, cc: int, yy: int, xx: int, c: int, y: int, x: int)
    requires
        0 <= xx < w,
        0 <= yy < h,
        0 <= cc,
        0 <= x <= w,
        0 <= y <= h,
        cc < c || (cc == c && yy < y) || (cc == c && yy == y && xx < x),
    ensures
        cc * (h * w) + yy * w + xx < c * (h * w) + y * w + x,
{
    assert(cc * (h * w) + yy * w + xx < c * (h * w) + y * w + x) by (nonlinear_arith)
        requires
            0 <= xx < w,
            0 <= yy < h,
            0 <= cc,
            0 <= x <= w,
            0 <= y <= h,
            cc < c || (cc == c && yy < y) || (cc == c && yy == y && xx < x),
    ;
}

impl RgbImage {
    /// The window of `self` that is `cw` columns and `ch` rows starting at
    /// `(left, top)`: every output pixel equals the input pixel it covers.
    pub fn crop(&self, left: u32, top: u32, cw: u32, ch: u32) -> (r: RgbImage)
        requires
            self.wf(),
            left + cw <= self.width,
            top + ch <= self.height,
        ensures
            r.wf(),
            r.width == cw,
            r.height == ch,
            forall|x: int, y: int, c: int|
                0 <= x < cw && 0 <= y < ch && 0 <= c < 3 ==> #[trigger] r.spec_pixel(x, y, c)
                    == self.spec_pixel(x + left, y + top, c),
    {
        let mut data: Vec<u8> = Vec::new();
        let mut y: u32 = 0;
        while y < ch
            invariant
                self.wf(),
                left + cw <= self.width,
                top + ch <= self.height,
                y <= ch,
                data@.len() == 3 * (y as int * cw as int),
                forall|xx: int, yy: int, cc: int|
                    0 <= xx < cw && 0 <= yy < y && 0 <= cc < 3 ==> #[trigger] data@[(yy * cw as int
                        + xx) * 3 + cc] == self.spec_pixel(xx + left, yy + top, cc),
            decreases ch - y,
        {
            let mut x: u32 = 0;
            while x < cw
                invariant
                    self.wf(),
                    left + cw <= self.width,
                    top + ch <= self.height,
                    y < ch,
                    x <= cw,
                    data@.len() == 3 * (y as int * cw as int + x as int),
                    forall|xx: int, yy: int, cc: int|
                        0 <= xx < cw && 0 <= yy < y && 0 <= cc < 3 ==> #[trigger] data@[(yy
                            * cw as int + xx) * 3 + cc] == self.spec_pixel(xx + left, yy + top, cc),
                    forall|xx: int, cc: int|
                        0 <= xx < x && 0 <= cc < 3 ==> #[trigger] data@[(y as int * cw as int + xx)
                            * 3 + cc] == self.spec_pixel(xx + left, y as int + top, cc),
                decreases cw - x,
            {
                proof {
                    lemma_pixel_index_bound(
                        self.width as int,
                        self.height as int,
                        left as int + x as int,
                        top as int + y as int,
                        2,
                    );
                    assert(3 * self.width as int * self.height as int == self.pixels@.len());
                    assert(0 <= self.width as int * self.height as int && self.width as int
                        * self.height as int <= 3 * self.width as int * self.height as int)
                        by (nonlinear_arith);
                    assert(vstd::std_specs::vec::spec_vec_len(&self.pixels)
                        == self.pixels@.len());
                }
                let src: usize = ((top + y) as usize * self.width as usize + (left + x) as usize)
                    * 3;
                let r0 = self.pixels[src];
                let r1 = self.pixels[src + 1];
                let r2 = self.pixels[src + 2];
                let ghost pre = data@;
                data.push(r0);
                data.push(r1);
                data.push(r2);
                proof {
                    assert forall|xx: int, yy: int, cc: int|
                        0 <= xx < cw && 0 <= yy < y && 0 <= cc < 3 implies #[trigger] data@[(yy
                        * cw as int + xx) * 3 + cc] == self.spec_pixel(xx + left, yy + top, cc) by {
                        lemma_crop_flat_lt(cw as int, xx, yy, cc, x as int, y as int);
                        assert(data@[(yy * cw as int + xx) * 3 + cc] == pre[(yy * cw as int + xx)
                            * 3 + cc]);
                    }
                    assert forall|xx: int, cc: int|
                        0 <= xx < x + 1 && 0 <= cc < 3 implies #[trigger] data@[(y as int
                        * cw as int + xx) * 3 + cc] == self.spec_pixel(xx + left, y as int + top, cc)
                        by {
                        if xx < x {
                            lemma_crop_flat_lt(cw as int, xx, y as int, cc, x as int, y as int);
                            assert(data@[(y as int * cw as int + xx) * 3 + cc] == pre[(y as int
                                * cw as int + xx) * 3 + cc]);
                        } else {
                            assert((y as int * cw as int + xx) * 3 + cc == pre.len() + cc);
                        }
                    }
                }
                x = x + 1;
            }
            proof {
                assert(3 * ((y as int + 1) * cw as int) == 3 * (y as int * cw as int) + 3
                    * cw as int) by (nonlinear_arith);
            }
            y = y + 1;
        }
        let r = RgbImage { width: cw, height: ch, pixels: data };
        proof {
            assert forall|x: int, y2: int, c: int|
                0 <= x < cw && 0 <= y2 < ch && 0 <= c < 3 implies #[trigger] r.spec_pixel(x, y2, c)
                == self.spec_pixel(x + left, y2 + top, c) by {
                lemma_pixel_index_bound(cw as int, ch as int, x, y2, c);
            }
            assert(r.wf()) by (nonlinear_arith)
                requires
                    r.pixels@.len() == 3 * (ch as int * cw as int),
                    r.width == cw,
                    r.height == ch,
            ;
        }
        r
    }

    /// The channel-first tensor of `self`: plane `c` at row `y`, column `x`
    /// holds channel `c` of pixel `(x, y)`.
    pub fn to_chw(&self) -> (t: ChwTensor)
        requires
            self.wf(),
        ensures
            t.wf(),
            t.width == self.width,
            t.height == self.height,
            forall|c: int, y: int, x: int|
                0 <= c < 3 && 0 <= y < self.height && 0 <= x < self.width ==> #[trigger] t.spec_at(
                    c,
                    y,
                    x,
                ) == self.spec_pixel(x, y, c),
    {
        let w = self.width;
        let h = self.height;
        let mut data: Vec<u8> = Vec::new();
        let mut c: u32 = 0;
        while c < 3
            invariant
                self.wf(),
                w == self.width,
                h == self.height,
                c <= 3,
                data@.len() == c as int * (h as int * w as int),
                forall|cc: int, yy: int, xx: int|
                    0 <= cc < c && 0 <= yy < h && 0 <= xx < w ==> #[trigger] data@[cc * (h as int
                        * w as int) + yy * w as int + xx] == self.spec_pixel(xx, yy, cc),
            decreases 3 - c,
        {
            let mut y: u32 = 0;
            while y < h
                invariant
                    self.wf(),
                    w == self.width,
                    h == self.height,
                    c < 3,
                    y <= h,
                    data@.len() == c as int * (h as int * w as int) + y as int * w as int,
                    forall|cc: int, yy: int, xx: int|
                        0 <= cc < c && 0 <= yy < h && 0 <= xx < w ==> #[trigger] data@[cc * (h
                            as int * w as int) + yy * w as int + xx] == self.spec_pixel(
                            xx,
                            yy,
                            cc,
                        ),
                    forall|yy: int, xx: int|
                        0 <= yy < y && 0 <= xx < w ==> #[trigger] data@[c as int * (h as int
                            * w as int) + yy * w as int + xx] == self.spec_pixel(xx, yy, c as int),
                decreases h - y,
            {
                let mut x: u32 = 0;
                while x < w
                    invariant
                        self.wf(),
                        w == self.width,
                        h == self.height,
                        c < 3,
                        y < h,
                        x <= w,
                        data@.len() == c as int * (h as int * w as int) + y as int * w as int
                            + x as int,
                        forall|cc: int, yy: int, xx: int|
                            0 <= cc < c && 0 <= yy < h && 0 <= xx < w ==> #[trigger] data@[cc * (h
                                as int * w as int) + yy * w as int + xx] == self.spec_pixel(
                                xx,
                                yy,
                                cc,
                            ),
                        forall|yy: int, xx: int|
                            0 <= yy < y && 0 <= xx < w ==> #[trigger] data@[c as int * (h as int
                                * w as int) + yy * w as int + xx] == self.spec_pixel(
                                xx,
                                yy,
                                c as int,
                            ),
                        forall|xx: int|
                            0 <= xx < x ==> #[trigger] data@[c as int * (h as int * w as int)
                                + y as int * w as int + xx] == self.spec_pixel(xx, y as int, c as int),
                    decreases w - x,
                {
                    proof {
                        lemma_pixel_index_bound(w as int, h as int, x as int, y as int, c as int);
                        assert((c as int * (h as int * w as int) + y as int * w as int + x as int)
                            < 3 * (h as int * w as int)) by (nonlinear_arith)
                            requires
                                0 <= c < 3,
                                0 <= (y as int) < (h as int),
                                0 <= (x as int) < (w as int),
                        ;
                        assert(3 * (h as int * w as int) == 3 * w as int * h as int) by (nonlinear_arith);
                    }
                    proof {
                        assert(3 * w as int * h as int == self.pixels@.len());
                        assert(0 <= w as int * h as int && w as int * h as int <= 3 * w as int
                            * h as int) by (nonlinear_arith);
                        assert(vstd::std_specs::vec::spec_vec_len(&self.pixels)
                            == self.pixels@.len());
                    }
                    let src: usize = (y as usize * w as usize + x as usize) * 3 + c as usize;
                    let byte = self.pixels[src];
                    let ghost pre = data@;
                    data.push(byte);
                    proof {
                        assert forall|cc: int, yy: int, xx: int|
                            0 <= cc < c && 0 <= yy < h && 0 <= xx < w implies #[trigger] data@[cc
                            * (h as int * w as int) + yy * w as int + xx] == self.spec_pixel(
                            xx,
                            yy,
                            cc,
                        ) by {
                            lemma_chw_flat_lt(
                                w as int,
                                h as int,
                                cc,
                                yy,
                                xx,
                                c as int,
                                y as int,
                                x as int,
                            );
                            assert(data@[cc * (h as int * w as int) + yy * w as int + xx] == pre[cc
                                * (h as int * w as int) + yy * w as int + xx]);
                        }
                        assert forall|yy: int, xx: int|
                            0 <= yy < y && 0 <= xx < w implies #[trigger] data@[c as int * (h
                            as int * w as int) + yy * w as int + xx] == self.spec_pixel(
                            xx,
                            yy,
                            c as int,
                        ) by {
                            lemma_chw_flat_lt(
                                w as int,
                                h as int,
                                c as int,
                                yy,
                                xx,
                                c as int,
                                y as int,
                                x as int,
                            );
                            assert(data@[c as int * (h as int * w as int) + yy * w as int + xx]
                                == pre[c as int * (h as int * w as int) + yy * w as int + xx]);
                        }
                        assert forall|xx: int|
                            0 <= xx < x + 1 implies #[trigger] data@[c as int * (h as int
                            * w as int) + y as int * w as int + xx] == self.spec_pixel(
                            xx,
                            y as int,
                            c as int,
                        ) by {
                            if xx < x {
                                lemma_chw_flat_lt(
                                    w as int,
                                    h as int,
                                    c as int,
                                    y as int,
                                    xx,
                                    c as int,
                                    y as int,
                                    x as int,
                                );
                                assert(data@[c as int * (h as int * w as int) + y as int * w as int
                                    + xx] == pre[c as int * (h as int * w as int) + y as int
                                    * w as int + xx]);
                            } else {
                                assert(c as int * (h as int * w as int) + y as int * w as int + xx
                                    == pre.len());
                            }
                        }
                    }
                    x = x + 1;
                }
                proof {
                    assert(c as int * (h as int * w as int) + (y as int + 1) * w as int == c as int
                        * (h as int * w as int) + y as int * w as int + w as int)
                        by (nonlinear_arith);
                }
                y = y + 1;
            }
            proof {
                assert((c as int + 1) * (h as int * w as int) == c as int * (h as int * w as int)
                    + h as int * w as int) by (nonlinear_arith);
            }
            c = c + 1;
        }
        let t = ChwTensor { width: w, height: h, data };
        proof {
            assert(t.wf()) by (nonlinear_arith)
                requires
                    t.data@.len() == 3 * (h as int * w as int),
                    t.width == w,
                    t.height == h,
            ;
        }
        t
    }
}

/// Conversion of an image buffer into a channel-first 3-axis array.
pub trait ToNdarray3 {
    type Out;

    fn into_ndarray3(self) -> Self::Out;
}

impl ToNdarray3 for RgbImage {
    type Out = ChwTensor;

    /// The checked form of [`RgbImage::to_chw`]: a malformed buffer yields
    /// the empty tensor.
    fn into_ndarray3(self) -> (t: ChwTensor)
        ensures
            self.wf() ==> {
                &&& t.wf()
                &&& t.width == self.width
                &&& t.height == self.height
                &&& forall|c: int, y: int, x: int|
                    0 <= c < 3 && 0 <= y < self.height && 0 <= x < self.width
                        ==> #[trigger] t.spec_at(c, y, x) == self.spec_pixel(x, y, c)
            },
    {
        proof {
            assert((3 * self.width as int) * (self.height as int) <= u128::MAX)
                by (nonlinear_arith)
                requires
                    self.width <= u32::MAX,
                    self.height <= u32::MAX,
            ;
        }
        let expected = 3u128 * (self.width as u128) * (self.height as u128);
        if self.pixels.len() as u128 == expected {
            proof {
                assert(self.wf()) by (nonlinear_arith)
                    requires
                        self.pixels@.len() as int == 3 * self.width as int * self.height as int,
                ;
            }
            self.to_chw()
        } else {
            ChwTensor { width: 0, height: 0, data: Vec::new() }
        }
    }
}

/// The decoded 8-bit RGB form of an encoded image, `None` when the bytes
/// are not a decodable image.  Decoding depends on the bytes alone.
pub uninterp spec fn spec_decode_rgb(bytes: Seq<u8>) -> Option<(int, int, Seq<u8>)>;

/// Relies on `image::load_from_memory` and `DynamicImage::into_rgb8`:
/// decoding guesses the format from the bytes and yields an 8-bit RGB
/// buffer of three bytes per pixel, a pure function of the bytes.
#[verifier::external_body]
pub(crate) fn decode_rgb(bytes: &[u8]) -> (r: Option<RgbImage>)
    ensures
        match r {
            Some(img) => {
                &&& img.wf()
                &&& spec_decode_rgb(bytes@) == Some(
                    (img.width as int, img.height as int, img.pixels@),
                )
            },
            None => spec_decode_rgb(bytes@) is None,
        },
{
    let decoded = match image::load_from_memory(bytes) {
        Ok(d) => d,
        Err(_) => return None,
    };
    let rgb = decoded.into_rgb8();
    let (width, height) = rgb.dimensions();
    let pixels = rgb.into_raw();
    Some(RgbImage { width, height, pixels })
}

/// The Catmull-Rom resampling of an RGB buffer to new dimensions; a pure
/// function of the pixel bytes and the four dimensions.
pub uninterp spec fn spec_catmull_resize(
    pixels: Seq<u8>,
    w: int,
    h: int,
    nw: int,
    nh: int,
) -> Seq<u8>;

/// Relies on `image::imageops::resize` with `FilterType::CatmullRom` — the
/// resampling `DynamicImage::resize_exact` runs for an 8-bit RGB image: the
/// output holds `nw * nh` RGB pixels determined by the input pixels and the
/// dimensions alone.
#[verifier::external_body]
fn resize_catmull_rom(img: &RgbImage, new_width: u32, new_height: u32) -> (r: RgbImage)
    requires
        img.wf(),
        img.width >= 1,
        img.height >= 1,
        new_width >= 1,
        new_height >= 1,
    ensures
        r.width == new_width,
        r.height == new_height,
        r.wf(),
        r.pixels@ == spec_catmull_resize(
            img.pixels@,
            img.width as int,
            img.height as int,
            new_width as int,
            new_height as int,
        ),
{
    let buffer: image::ImageBuffer<image::Rgb<u8>, Vec<u8>> = image::ImageBuffer::from_raw(
        img.width,
        img.height,
        img.pixels.clone(),
    ).expect("pixel buffer length matches the dimensions");
    let out = image::imageops::resize(
        &buffer,
        new_width,
        new_height,
        image::imageops::FilterType::CatmullRom,
    );
    RgbImage { width: new_width, height: new_height, pixels: out.into_raw() }
}

/// The resize target of a `w` by `h` image is usable: no zero side, and the
/// scaled long side fits in a `u32`.
pub open spec fn resize_defined(w: int, h: int) -> bool {
    &&& w >= 1
    &&& h >= 1
    &&& (if w <= h {
        spec_resize_dims(w, h).1 <= u32::MAX
    } else {
        spec_resize_dims(w, h).0 <= u32::MAX
    })
}

/// What preprocessing a `w` by `h` image with the given pixel bytes must
/// produce: the pixels resized per `spec_resize_dims`, then the centered
/// `CLIP_SIDE` square of them, laid out channel-first.
pub open spec fn is_preprocessed(t: ChwTensor, w: int, h: int, pixels: Seq<u8>) -> bool {
    let dims = spec_resize_dims(w, h);
    let resized = spec_catmull_resize(pixels, w, h, dims.0, dims.1);
    let left = spec_crop_offset(dims.0);
    let top = spec_crop_offset(dims.1);
    &&& t.wf()
    &&& t.width == CLIP_SIDE && t.height == CLIP_SIDE
    &&& forall|c: int, y: int, x: int|
        0 <= c < 3 && 0 <= y < CLIP_SIDE && 0 <= x < CLIP_SIDE ==> #[trigger] t.spec_at(c, y, x)
            == resized[((top + y) * dims.0 + (left + x)) * 3 + c]
}

/// Preprocesses a decoded image for the vision model: shortest-side resize
/// to `CLIP_SIDE`, centered `CLIP_SIDE` square crop, channel-first layout.
/// `None` exactly when the dimensions are degenerate (a zero side, or a
/// scaled side beyond `u32`), per `resize_dimensions`.
pub fn preprocess_image(img: &RgbImage) -> (r: Option<ChwTensor>)
    requires
        img.wf(),
    ensures
        match r {
            Some(t) => is_preprocessed(t, img.width as int, img.height as int, img.pixels@),
            None => !resize_defined(img.width as int, img.height as int),
        },
{
    let dims = match resize_dimensions(img.width, img.height) {
        Some(dims) => dims,
        None => {
            return None;
        },
    };
    let (nw, nh) = dims;
    let resized = resize_catmull_rom(img, nw, nh);
    let (left, top) = crop_offsets(nw, nh);
    let cropped = resized.crop(left, top, CLIP_SIDE, CLIP_SIDE);
    let t = cropped.to_chw();
    proof {
        let rp = spec_catmull_resize(
            img.pixels@,
            img.width as int,
            img.height as int,
            nw as int,
            nh as int,
        );
        assert forall|c: int, y: int, x: int|
            0 <= c < 3 && 0 <= y < CLIP_SIDE && 0 <= x < CLIP_SIDE implies #[trigger] t.spec_at(
            c,
            y,
            x,
        ) == rp[((top + y) * nw as int + (left + x)) * 3 + c] by {
            assert(t.spec_at(c, y, x) == cropped.spec_pixel(x, y, c));
            assert(cropped.spec_pixel(x, y, c) == resized.spec_pixel(x + left, y + top, c));
        }
    }
    Some(t)
}

/// Decodes image bytes and preprocesses the result for the vision model,
/// the whole pixel path from stored file to model input: `None` exactly
/// when the bytes do not decode or decode to unusable dimensions.
pub fn decode_and_preprocess(bytes: &[u8]) -> (r: Option<ChwTensor>)
    ensures
        match spec_decode_rgb(bytes@) {
            Some(img) => match r {
                Some(t) => is_preprocessed(t, img.0, img.1, img.2),
                None => !resize_defined(img.0, img.1),
            },
            None => r is None,
        },
{
    match decode_rgb(bytes) {
        Some(img) => preprocess_image(&img),
        None => None,
    }
}

/// Preprocessing is deterministic: two tensors preprocessed from the same
/// pixel data agree on every entry.  Decoding and resampling enter through
/// their names, so the whole pixel path from image bytes to model input is
/// a function of the bytes alone.
pub proof fn lemma_preprocess_deterministic(
    w: int,
    h: int,
    pixels: Seq<u8>,
    t1: ChwTensor,
    t2: ChwTensor,
)
    requires
        is_preprocessed(t1, w, h, pixels),
        is_preprocessed(t2, w, h, pixels),
    ensures
        t1.width == t2.width,
        t1.height == t2.height,
        forall|c: int, y: int, x: int|
            0 <= c < 3 && 0 <= y < CLIP_SIDE && 0 <= x < CLIP_SIDE ==> #[trigger] t1.spec_at(
                c,
                y,
                x,
            ) == t2.spec_at(c, y, x),
{
}

} // verus!
