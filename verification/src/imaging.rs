//! RGBA snapshots of the screen and the regions cut out of them.

use vstd::prelude::*;
use image::GenericImageView;

verus! {

/// The bytes of the region `x, y, w, h` of an RGBA image `width` pixels wide,
/// row by row, four bytes per pixel.
pub open spec fn region_pixels(src: Seq<u8>, width: nat, x: nat, y: nat, w: nat, h: nat) -> Seq<u8> {
    Seq::new(
        4 * w * h,
        |i: int|
            {
                let p = i / 4;
                src[((y + p / (w as int)) * width + x + p % (w as int)) * 4 + i % 4]
            },
    )
}

/// `RgbaImage::from_raw(width, height, pixels)` followed by
/// `view(x, y, w, h).to_image().into_raw()` from the `image` crate.
///
/// `from_raw` computes `4 * width` and then that times `height`, each with a
/// checked multiplication, and refuses the buffer when either overflows or
/// when the buffer is shorter than the product; the copy of the view holds
/// the region's pixels row by row.
#[verifier::external_body]
fn crop_rgba(width: u32, height: u32, pixels: Vec<u8>, x: u32, y: u32, w: u32, h: u32) -> (r: Option<
    Vec<u8>,
>)
    requires
        x + w <= width,
        y + h <= height,
        4 * w * h <= usize::MAX,
    ensures
        r is Some <==> (4 * width <= usize::MAX && 4 * width * height <= usize::MAX && 4 * width
            * height <= pixels@.len()),
        r matches Some(out) ==> out@ == region_pixels(pixels@, width as nat, x as nat, y as nat, w as nat, h as nat),
{
    match image::RgbaImage::from_raw(width, height, pixels) {
        Some(img) => Some(img.view(x, y, w, h).to_image().into_raw()),
        None => None,
    }
}

/// An RGBA image: `width * height` pixels of four bytes, row by row.
pub struct Snapshot {
    pub width: u32,
    pub height: u32,
    pub pixels: Vec<u8>,
}

impl Snapshot {
    /// The buffer holds exactly the image's pixels.
    pub open spec fn wf(&self) -> bool {
        self.pixels@.len() == 4 * self.width * self.height
    }

    /// The region `x, y, w, h` of the image, as an image of its own.
    pub fn crop(&self, x: u32, y: u32, w: u32, h: u32) -> (r: Snapshot)
        requires
            self.wf(),
            x + w <= self.width,
            y + h <= self.height,
        ensures
            r.wf(),
            r.width == w,
            r.height == h,
            r.pixels@ == region_pixels(
                self.pixels@,
                self.width as nat,
                x as nat,
                y as nat,
                w as nat,
                h as nat,
            ),
    {
        if w == 0 || h == 0 {
            assert(region_pixels(
                self.pixels@,
                self.width as nat,
                x as nat,
                y as nat,
                w as nat,
                h as nat,
            ) =~= Seq::<u8>::empty());
            return Snapshot { width: w, height: h, pixels: Vec::new() };
        }
        let n = self.pixels.len();
        proof {
            assert(4 * w * h <= 4 * self.width * self.height) by (nonlinear_arith)
                requires
                    w <= self.width,
                    h <= self.height,
            ;
            assert(4 * self.width <= 4 * self.width * self.height) by (nonlinear_arith)
                requires
                    1 <= h <= self.height,
            ;
        }
        let copy = self.pixels.clone();
        assert(copy@ == self.pixels@);
        match crop_rgba(self.width, self.height, copy, x, y, w, h) {
            Some(out) => Snapshot { width: w, height: h, pixels: out },
            None => {
                // A well-formed snapshot always fits, so this arm is never taken.
                assert(4 * self.width * self.height <= n);
                Snapshot { width: w, height: h, pixels: Vec::new() }
            },
        }
    }
}

} // verus!
