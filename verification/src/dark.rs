use crate::bitmap::{invert_rgb, Bitmap, PixelGrid};
use vstd::prelude::*;

verus! {

/// The dark-mode variant of a page: every channel of every pixel turned
/// into its complement. The bitmap handed in is left as it is.
pub fn invert(img: &Bitmap) -> (r: Bitmap)
    ensures
        r@ == img@.inverted(),
{
    invert_rgb(img)
}

/// Inverting keeps the extent of a picture and the number of its bytes.
pub proof fn lemma_inverted_extent(img: PixelGrid)
    ensures
        img.inverted().width == img.width,
        img.inverted().height == img.height,
        img.inverted().data.len() == img.data.len(),
        img.wf() ==> img.inverted().wf(),
{
}

/// Inverting twice gives the picture back.
pub proof fn lemma_inverted_twice(img: PixelGrid)
    ensures
        img.inverted().inverted() == img,
{
    assert(img.inverted().inverted().data =~= img.data);
}

} // verus!
