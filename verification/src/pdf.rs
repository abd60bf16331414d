use crate::bitmap::Bitmap;
use vstd::prelude::*;

verus! {

/// The number of pages of a document whose engine counts `count` of them;
/// a document whose pages could not be counted has none.
pub open spec fn pages_of(count: Option<i32>) -> usize {
    match count {
        Some(n) => if n > 0 {
            n as usize
        } else {
            0
        },
        None => 0,
    }
}

/// Turns the engine's page count into a number of pages.
pub fn page_count_of(count: Option<i32>) -> (r: usize)
    ensures
        r == pages_of(count),
{
    match count {
        Some(n) => if n > 0 {
            n as usize
        } else {
            0
        },
        None => 0,
    }
}

/// Whether the samples of a pixmap hold `height` rows of `width` RGB
/// pixels, each row starting `stride` bytes after the one before.
pub open spec fn rows_fit(samples: Seq<u8>, width: u32, height: u32, stride: usize) -> bool {
    &&& stride >= 3 * width
    &&& height > 0 ==> (height - 1) * stride + 3 * width <= samples.len()
}

/// The bytes of the pixels of a pixmap, without the padding that may
/// follow each row.
pub open spec fn packed_rows(samples: Seq<u8>, width: u32, height: u32, stride: usize) -> Seq<u8> {
    Seq::new(
        (3 * width * height) as nat,
        |i: int| samples[(i / (3 * width)) * stride + i % (3 * width)],
    )
}

/// Makes a bitmap from the samples of an RGB pixmap of `width` by `height`
/// pixels whose rows start `stride` bytes apart: the padding after each
/// row is left out. `None` where the samples do not hold that many rows.
pub fn pack_rows(samples: &Vec<u8>, width: u32, height: u32, stride: usize) -> (r: Option<Bitmap>)
    ensures
        r is Some <==> rows_fit(samples@, width, height, stride),
        r is Some ==> r->0@.width == width && r->0@.height == height && r->0@.data
            == packed_rows(samples@, width, height, stride),
{
    let row: u64 = 3 * (width as u64);
    if (stride as u64) < row {
        return None;
    }
    let row_len: usize = row as usize;
    let total: usize = samples.len();
    if height > 0 {
        assert((height - 1) * stride <= 0xffff_ffff * usize::MAX) by (nonlinear_arith)
            requires
                0 <= height - 1 <= 0xffff_ffff,
                0 <= stride <= usize::MAX,
        ;
        let need: u128 = ((height - 1) as u128) * (stride as u128) + (row as u128);
        if need > total as u128 {
            return None;
        }
    }
    let mut data: Vec<u8> = Vec::new();
    let mut y: u32 = 0;
    while y < height
        invariant
            0 <= y <= height,
            total == samples@.len(),
            row_len == 3 * width,
            stride >= row_len,
            height > 0 ==> (height - 1) * stride + row_len <= samples@.len(),
            data@.len() == y * row_len,
            forall|i: int|
                0 <= i < data@.len() ==> data@[i] == samples@[(i / (row_len as int)) * stride + i % (
                row_len as int)],
        decreases height - y,
    {
        assert((y as int) * (stride as int) <= (height - 1) * (stride as int)) by (nonlinear_arith)
            requires
                0 <= y <= height - 1,
                0 <= stride,
        ;
        assert((height - 1) * (stride as int) + row_len <= samples@.len());
        assert((y as int) * (stride as int) + row_len <= samples@.len());
        assert((y + 1) * row_len == y * row_len + row_len) by (nonlinear_arith);
        let start: usize = (y as usize) * stride;
        let mut x: usize = 0;
        while x < row_len
            invariant
                0 <= x <= row_len,
                total == samples@.len(),
                y < height,
                row_len == 3 * width,
                start == y * stride,
                start + row_len <= samples@.len(),
                data@.len() == y * row_len + x,
                forall|i: int|
                    0 <= i < data@.len() ==> data@[i] == samples@[(i / (row_len as int)) * stride
                        + i % (row_len as int)],
            decreases row_len - x,
        {
            let ghost before = data@;
            data.push(samples[start + x]);
            proof {
                let i = before.len() as int;
                assert(i == y * row_len + x);
                assert(i / (row_len as int) == y && i % (row_len as int) == x) by (nonlinear_arith)
                    requires
                        i == y * row_len + x,
                        0 <= x < row_len,
                        0 <= y,
                ;
                assert forall|j: int| 0 <= j < data@.len() implies data@[j] == samples@[(j / (
                row_len as int)) * stride + j % (row_len as int)] by {
                    if j < before.len() {
                        assert(data@[j] == before[j]);
                    }
                }
            }
            x = x + 1;
        }
        y = y + 1;
    }
    proof {
        assert(3 * width * height == height * row_len) by (nonlinear_arith)
            requires
                row_len == 3 * width,
        ;
        assert(data@ =~= packed_rows(samples@, width, height, stride));
        assert(3 * (width as nat) * (height as nat) == height * row_len) by (nonlinear_arith)
            requires
                row_len == 3 * width,
        ;
    }
    Bitmap::new(width, height, data)
}

} // verus!
