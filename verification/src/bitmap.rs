use image::DynamicImage;
use image::RgbImage;
use vstd::prelude::*;

verus! {

/// What a bitmap holds: its extent in pixels and its bytes, three for each
/// pixel (red, green, blue), row after row from the top.
pub struct PixelGrid {
    pub width: nat,
    pub height: nat,
    pub data: Seq<u8>,
}

impl PixelGrid {
    /// The bytes are exactly those of `width` times `height` pixels.
    pub open spec fn wf(self) -> bool {
        self.data.len() == 3 * self.width * self.height
    }

    /// The place among the bytes of channel `c` of the pixel in column `x` of
    /// row `y`.
    pub open spec fn offset(self, x: int, y: int, c: int) -> int {
        3 * (y * self.width + x) + c
    }

    /// The same picture with every channel of every pixel turned into its
    /// complement.
    pub open spec fn inverted(self) -> PixelGrid {
        PixelGrid {
            width: self.width,
            height: self.height,
            data: Seq::new(self.data.len(), |i: int| (255 - self.data[i]) as u8),
        }
    }

    /// The rectangle of `w` by `h` pixels whose top left corner is the pixel
    /// in column `x` of row `y`.
    pub open spec fn cropped(self, x: nat, y: nat, w: nat, h: nat) -> PixelGrid {
        PixelGrid {
            width: w,
            height: h,
            data: Seq::new(
                3 * w * h,
                |i: int| self.data[self.offset(x + (i / 3) % (w as int), y + (i / 3) / (w as int), i % 3)],
            ),
        }
    }
}

/// A rasterized page: eight-bit RGB pixels, owned.
pub struct Bitmap {
    pub(crate) width: u32,
    pub(crate) height: u32,
    pub(crate) data: Vec<u8>,
}

impl View for Bitmap {
    type V = PixelGrid;

    closed spec fn view(&self) -> PixelGrid {
        PixelGrid { width: self.width as nat, height: self.height as nat, data: self.data@ }
    }
}

impl Bitmap {
    #[verifier::type_invariant]
    spec fn well_formed(&self) -> bool {
        self.data@.len() == 3 * self.width * self.height
    }

    /// Makes a bitmap of `width` by `height` pixels from their bytes; `None`
    /// unless there are exactly three bytes for each pixel.
    pub fn new(width: u32, height: u32, data: Vec<u8>) -> (r: Option<Bitmap>)
        ensures
            r is Some <==> data@.len() == 3 * (width as nat) * (height as nat),
            r is Some ==> r->0@ == (PixelGrid {
                width: width as nat,
                height: height as nat,
                data: data@,
            }),
    {
        assert(3 * (width as nat) * (height as nat) <= 3 * 0xffff_ffff * 0xffff_ffff)
            by (nonlinear_arith)
            requires
                width <= 0xffff_ffff,
                height <= 0xffff_ffff,
        ;
        let need: u128 = 3 * (width as u128) * (height as u128);
        if data.len() as u128 == need {
            Some(Bitmap { width, height, data })
        } else {
            None
        }
    }

    pub fn width(&self) -> (w: u32)
        ensures
            w == self@.width,
    {
        self.width
    }

    pub fn height(&self) -> (h: u32)
        ensures
            h == self@.height,
    {
        self.height
    }

    /// The bytes of the pixels, row after row: exactly three for each pixel.
    pub fn bytes(&self) -> (d: &Vec<u8>)
        ensures
            d@ == self@.data,
            self@.wf(),
    {
        proof {
            use_type_invariant(self);
        }
        &self.data
    }

    /// A second bitmap with the same pixels.
    pub fn duplicate(&self) -> (r: Bitmap)
        ensures
            r@ == self@,
    {
        proof {
            use_type_invariant(self);
        }
        let data = self.data.clone();
        assert(data@ =~= self.data@);
        Bitmap { width: self.width, height: self.height, data }
    }
}

/// Inverts a picture with `image::DynamicImage::invert`. On eight-bit RGB
/// that function replaces every channel value `v` by `255 - v` and leaves
/// the extent alone.
#[verifier::external_body]
pub(crate) fn invert_rgb(img: &Bitmap) -> (r: Bitmap)
    ensures
        r@ == img@.inverted(),
{
    let mut picture = DynamicImage::ImageRgb8(
        RgbImage::from_raw(img.width, img.height, img.data.clone()).unwrap(),
    );
    picture.invert();
    let out = picture.into_rgb8();
    Bitmap { width: out.width(), height: out.height(), data: out.into_raw() }
}

/// Cuts a rectangle out of a picture with `image::DynamicImage::crop_imm`.
/// For a rectangle that lies inside the picture that function returns a new
/// picture of the rectangle's extent whose pixel in column `i` of row `j` is
/// the source's pixel in column `x + i` of row `y + j`.
#[verifier::external_body]
pub(crate) fn crop_rgb(img: &Bitmap, x: u32, y: u32, width: u32, height: u32) -> (r: Bitmap)
    requires
        x + width <= img@.width,
        y + height <= img@.height,
    ensures
        r@ == img@.cropped(x as nat, y as nat, width as nat, height as nat),
{
    let picture = DynamicImage::ImageRgb8(
        RgbImage::from_raw(img.width, img.height, img.data.clone()).unwrap(),
    );
    let out = picture.crop_imm(x, y, width, height).into_rgb8();
    Bitmap { width: out.width(), height: out.height(), data: out.into_raw() }
}

} // verus!
