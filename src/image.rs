use vstd::arithmetic::div_mod::lemma_fundamental_div_mod_converse;
use vstd::prelude::*;

verus! {

/// Width and height of a rendered image, in pixels.
#[derive(Clone, Copy, Debug, PartialEq, Eq, Structural)]
pub struct ImageSize {
    pub width: u32,
    pub height: u32,
}

impl ImageSize {
    /// Both dimensions are at least one pixel.
    pub open spec fn wf(&self) -> bool {
        self.width >= 1 && self.height >= 1
    }

    /// Builds the size from the width and the height already floored from
    /// `width / aspect_ratio`; a height below one becomes one.
    pub fn new(width: u32, floored_height: i64) -> (r: ImageSize)
        requires
            width >= 1,
        ensures
            r.wf(),
            r.width == width,
            r.height == if floored_height < 1 {
                1
            } else if floored_height > u32::MAX {
                u32::MAX as int
            } else {
                floored_height as int
            },
    {
        let height: u32 = if floored_height < 1 {
            1
        } else if floored_height > u32::MAX as i64 {
            u32::MAX
        } else {
            floored_height as u32
        };
        ImageSize { width, height }
    }

    /// Number of pixels in the image.
    pub fn size_of_image(&self) -> (r: u64)
        ensures
            r == self.width * self.height,
    {
        proof {
            assert(self.width * self.height <= u32::MAX * u32::MAX) by (nonlinear_arith);
        }
        self.width as u64 * self.height as u64
    }
}

/// One output pixel: three 8-bit channels.
#[derive(Clone, Copy, Debug, PartialEq, Eq, Structural)]
pub struct Rgb {
    pub r: u8,
    pub g: u8,
    pub b: u8,
}


/// Why a set of rendered rows does not form an image of the expected size.
#[derive(Clone, Copy, Debug, PartialEq, Eq, Structural)]
pub enum ShapeError {
    /// The number of rows differs from the image height.
    RowCount,
    /// This row (counted from the top) has a length other than the image width.
    RowWidth { row: usize },
}

/// The rows have the image's height, and each row its width.
pub open spec fn rows_fit(size: ImageSize, rows: Seq<Vec<Rgb>>) -> bool {
    &&& rows.len() == size.height
    &&& forall|y: int| 0 <= y < rows.len() ==> (#[trigger] rows[y]@).len() == size.width
}

/// `px` is the row-major stream of `rows`: row 0 (the top) first, each row
/// left to right.
pub open spec fn row_major(size: ImageSize, rows: Seq<Vec<Rgb>>, px: Seq<Rgb>) -> bool {
    &&& px.len() == size.width * size.height
    &&& forall|y: int, x: int|
        0 <= y < size.height && 0 <= x < size.width ==> #[trigger] px[y * size.width + x]
            == #[trigger] rows[y]@[x]
}

/// Joins rows computed independently into one pixel stream, in row order,
/// whatever order the rows were computed in.
pub fn assemble_rows(size: ImageSize, rows: &Vec<Vec<Rgb>>) -> (r: Result<Vec<Rgb>, ShapeError>)
    requires
        size.wf(),
    ensures
        r is Ok <==> rows_fit(size, rows@),
        r matches Ok(px) ==> row_major(size, rows@, px@),
        r matches Err(ShapeError::RowCount) ==> rows@.len() != size.height,
        r matches Err(ShapeError::RowWidth { row }) ==> {
            &&& rows@.len() == size.height
            &&& row < rows@.len()
            &&& rows@[row as int]@.len() != size.width
            &&& forall|y: int| 0 <= y < row ==> (#[trigger] rows@[y]@).len() == size.width
        },
{
    if rows.len() != size.height as usize {
        return Err(ShapeError::RowCount);
    }
    let w = size.width as usize;
    let mut y: usize = 0;
    while y < rows.len()
        invariant
            y <= rows@.len(),
            rows@.len() == size.height,
            w == size.width,
            forall|k: int| 0 <= k < y ==> (#[trigger] rows@[k]@).len() == w,
        decreases rows@.len() - y,
    {
        if rows[y].len() != w {
            return Err(ShapeError::RowWidth { row: y });
        }
        y = y + 1;
    }
    let mut px: Vec<Rgb> = Vec::new();
    let mut y: usize = 0;
    while y < rows.len()
        invariant
            y <= rows@.len(),
            rows_fit(size, rows@),
            w == size.width,
            w >= 1,
            px@.len() == y * w,
            forall|k: int| 0 <= k < px@.len() ==> #[trigger] px@[k] == rows@[k / w as int]@[k % w as int],
        decreases rows@.len() - y,
    {
        let row = &rows[y];
        let mut x: usize = 0;
        while x < row.len()
            invariant
                y < rows@.len(),
                row@ == rows@[y as int]@,
                row@.len() == w,
                w >= 1,
                x <= w,
                px@.len() == y * w + x,
                forall|k: int| 0 <= k < px@.len() ==> #[trigger] px@[k] == rows@[k / w as int]@[k % w as int],
            decreases w - x,
        {
            proof {
                lemma_fundamental_div_mod_converse(y * w + x, w as int, y as int, x as int);
            }
            px.push(row[x]);
            x = x + 1;
        }
        proof {
            assert((y + 1) * w == y * w + w) by (nonlinear_arith);
        }
        y = y + 1;
    }
    proof {
        assert forall|yy: int, xx: int| 0 <= yy < size.height && 0 <= xx < size.width implies #[trigger] px@[yy * size.width + xx]
            == #[trigger] rows@[yy]@[xx] by {
            lemma_fundamental_div_mod_converse(yy * w + xx, w as int, yy, xx);
            assert(yy * w + xx < size.height * w) by (nonlinear_arith)
                requires yy < size.height, xx < w, yy >= 0, xx >= 0;
        }
    }
    Ok(px)
}

} // verus!
