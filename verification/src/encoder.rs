use crate::area::CellRect;
use crate::bitmap::{Bitmap, PixelGrid};
use image::DynamicImage;
use image::RgbImage;
use ratatui::layout::Rect;
use ratatui_image::picker::Picker;
use ratatui_image::protocol::Protocol;
use ratatui_image::FilterType;
use ratatui_image::Resize;
use vstd::prelude::*;

verus! {

/// The display encoder of `ratatui_image`: it knows the terminal's graphics
/// protocol and the extent of one cell in pixels.
#[verifier::external_type_specification]
#[verifier::external_body]
pub struct ExPicker(Picker);

/// A picture that the encoder has made ready to draw into a cell area.
#[verifier::external_type_specification]
#[verifier::external_body]
pub struct ExProtocol(Protocol);

/// The extent of one terminal cell in pixels, width first, as the encoder
/// holds it.
pub uninterp spec fn cell_size(picker: Picker) -> (u16, u16);

/// Reads the cell extent with `Picker::font_size`, which returns the value
/// the encoder was made with.
#[verifier::external_body]
pub(crate) fn font_size(picker: &Picker) -> (r: (u16, u16))
    ensures
        r == cell_size(*picker),
{
    picker.font_size()
}

/// What the encoder can take: a picture and an area that are not empty,
/// cells that are not empty, and an area whose extent in pixels, and whose
/// number of cells and of half rows, fit sixteen bits.
pub open spec fn encodable(img: PixelGrid, area: CellRect, cell: (u16, u16)) -> bool {
    &&& img.width >= 1
    &&& img.height >= 1
    &&& area.width >= 1
    &&& area.height >= 1
    &&& cell.0 >= 1
    &&& cell.1 >= 1
    &&& area.fits()
    &&& area.width * cell.0 <= u16::MAX
    &&& area.height * cell.1 <= u16::MAX
    &&& area.width * area.height <= u16::MAX
    &&& area.height * 2 <= u16::MAX
}

/// Encodes a picture for an area with `Picker::new_protocol`, fitting it into
/// the area with the Catmull-Rom filter. Nothing is claimed of the outcome:
/// the encoder may fail, and what it makes depends on the terminal's protocol.
/// The precondition leaves out the inputs on which the encoder's own
/// sixteen-bit arithmetic would overflow.
#[verifier::external_body]
fn new_protocol(picker: &Picker, img: Bitmap, area: CellRect) -> (r: Option<Protocol>)
    requires
        encodable(img@, area, cell_size(*picker)),
{
    let picture = DynamicImage::ImageRgb8(
        RgbImage::from_raw(img.width, img.height, img.data).unwrap(),
    );
    let rect = Rect::new(area.x, area.y, area.width, area.height);
    picker.new_protocol(picture, rect, Resize::Fit(Some(FilterType::CatmullRom))).ok()
}

/// Tells whether the encoder can take `img` for `area` with cells of `cell`
/// pixels.
pub fn can_encode(img: &Bitmap, area: CellRect, cell: (u16, u16)) -> (r: bool)
    ensures
        r == encodable(img@, area, cell),
{
    assert(area.width * cell.0 <= 0xffff * 0xffff && area.height * cell.1 <= 0xffff * 0xffff
        && area.width * area.height <= 0xffff * 0xffff) by (nonlinear_arith)
        requires
            area.width <= 0xffff,
            area.height <= 0xffff,
            cell.0 <= 0xffff,
            cell.1 <= 0xffff,
    ;
    let limit: u64 = 0xffff;
    let nonempty: bool = img.width() >= 1 && img.height() >= 1 && area.width >= 1 && area.height
        >= 1 && cell.0 >= 1 && cell.1 >= 1;
    let on_screen: bool = (area.x as u64) + (area.width as u64) <= limit && (area.y as u64) + (
    area.height as u64) <= limit;
    let pixels_fit: bool = (area.width as u64) * (cell.0 as u64) <= limit && (area.height as u64)
        * (cell.1 as u64) <= limit;
    let cells_fit: bool = (area.width as u64) * (area.height as u64) <= limit && (
    area.height as u64) * 2 <= limit;
    nonempty && on_screen && pixels_fit && cells_fit
}

/// Hands `img` to the encoder for `area`, where the encoder can take it.
/// `None` where it cannot, and where the encoder fails.
pub fn encode(picker: &Picker, img: Bitmap, area: CellRect) -> (r: Option<Protocol>)
    ensures
        !encodable(img@, area, cell_size(*picker)) ==> r is None,
{
    let cell = font_size(picker);
    if can_encode(&img, area, cell) {
        new_protocol(picker, img, area)
    } else {
        None
    }
}

} // verus!
