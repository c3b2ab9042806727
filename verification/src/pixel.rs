//! Pixels, and how those of an output lie in the surface that holds its picture.
use vstd::prelude::*;

verus! {

/// Bytes per pixel: one for each of blue, green, red and alpha.
pub const DXGI_PIXEL_SIZE: u32 = 4;

/// A pixel: blue, green, red and alpha, one byte each.
#[derive(Copy, Clone, Debug, PartialOrd, PartialEq, Eq, Ord, Structural)]
pub struct BGRA8 {
    pub b: u8,
    pub g: u8,
    pub r: u8,
    pub a: u8,
}

/// A rectangle in desktop coordinates.
#[derive(Copy, Clone, Debug, PartialEq, Eq, Structural)]
pub struct Rect {
    pub left: i32,
    pub top: i32,
    pub right: i32,
    pub bottom: i32,
}

/// How the picture of an output is turned against the surface that holds it.
#[derive(Copy, Clone, Debug, PartialEq, Eq, Structural)]
pub enum Rotation {
    Unspecified,
    Identity,
    Rotate90,
    Rotate180,
    Rotate270,
}

/// Whether width and height of a rectangle can be told in 32 bits.
pub open spec fn measurable(rect: Rect) -> bool {
    &&& i32::MIN <= rect.right - rect.left <= i32::MAX
    &&& i32::MIN <= rect.bottom - rect.top <= i32::MAX
}

/// Tests whether width and height of a rectangle can be told in 32 bits.
pub fn is_measurable(rect: Rect) -> (fits: bool)
    ensures
        fits == measurable(rect),
{
    rect.right.checked_sub(rect.left).is_some() && rect.bottom.checked_sub(rect.top).is_some()
}

/// Width and height of an output that covers a rectangle of the desktop.
pub open spec fn spec_output_size(rect: Rect) -> (usize, usize) {
    ((rect.right - rect.left) as usize, (rect.bottom - rect.top) as usize)
}

/// Computes width and height of an output that covers a rectangle of the desktop.
pub fn output_size(rect: Rect) -> (size: (usize, usize))
    requires
        measurable(rect),
    ensures
        size == spec_output_size(rect),
        rect.left <= rect.right ==> size.0 == rect.right - rect.left,
        rect.top <= rect.bottom ==> size.1 == rect.bottom - rect.top,
{
    ((rect.right - rect.left) as usize, (rect.bottom - rect.top) as usize)
}

/// How many pixels a row of a mapped surface takes, by the bytes that it takes.
pub open spec fn spec_pitch_pixels(pitch: i32) -> int {
    (pitch as usize) as int / DXGI_PIXEL_SIZE as int
}

/// Computes how many pixels a row of a mapped surface takes.
pub fn pitch_pixels(pitch: i32) -> (pixels: usize)
    ensures
        pixels == spec_pitch_pixels(pitch),
        pitch >= 0 ==> pixels == pitch as int / 4,
        pixels == (pitch as usize) as int / 4,
{
    pitch as usize / DXGI_PIXEL_SIZE as usize
}

/// The picture of an output, as it lies in a surface.
#[derive(Copy, Clone, Debug, PartialEq, Eq, Structural)]
pub struct Layout {
    /// Pixels in a row of the output.
    pub width: usize,
    /// Rows of the output.
    pub height: usize,
    /// Pixels from the start of one row of the surface to the start of the next.
    pub pitch: usize,
    pub rotation: Rotation,
}

impl Layout {
    /// Whether the output has no pixels.
    pub open spec fn is_empty(self) -> bool {
        self.width == 0 || self.height == 0
    }

    /// Row and column of the surface where pixel (`row`, `col`) of the output lies.
    pub open spec fn place(self, row: int, col: int) -> (int, int) {
        match self.rotation {
            Rotation::Identity | Rotation::Unspecified => (row, col),
            Rotation::Rotate90 => (self.width - 1 - col, row),
            Rotation::Rotate180 => (self.height - 1 - row, self.width - 1 - col),
            Rotation::Rotate270 => (col, self.height - 1 - row),
        }
    }

    /// Index in the surface of pixel (`row`, `col`) of the output.
    pub open spec fn index(self, row: int, col: int) -> int {
        let (surface_row, surface_col) = self.place(row, col);
        surface_row * self.pitch + surface_col
    }

    /// Rows and columns of the surface that the picture takes.
    pub open spec fn surface_size(self) -> (int, int) {
        match self.rotation {
            Rotation::Rotate90 | Rotation::Rotate270 => (self.width as int, self.height as int),
            _ => (self.height as int, self.width as int),
        }
    }

    /// How many pixels of the surface have to be mapped for the picture to be read.
    pub open spec fn extent(self) -> int {
        if self.is_empty() {
            0
        } else {
            let (rows, cols) = self.surface_size();
            (rows - 1) * self.pitch + cols
        }
    }

    /// Whether the picture can be taken: its pixels fit in memory, those of the surface can be
    /// counted, and the rows of the surface do not all start at one place.
    pub open spec fn readable(self) -> bool {
        &&& self.width * self.height * DXGI_PIXEL_SIZE <= isize::MAX
        &&& self.width * self.height * self.pitch <= usize::MAX
        &&& self.is_empty() || self.pitch > 0
    }

    /// The picture that a surface holds: the pixels of the output, row by row.
    pub open spec fn picture(self, surface: Seq<BGRA8>) -> Seq<BGRA8> {
        Seq::new(
            (self.width * self.height) as nat,
            |i: int| surface[self.index(i / self.width as int, i % self.width as int)],
        )
    }

    /// Index in the surface of pixel (`row`, `col`) of the output.
    pub fn pixel_index(&self, row: usize, col: usize) -> (index: usize)
        requires
            row < self.height,
            col < self.width,
            self.extent() <= usize::MAX,
        ensures
            index == self.index(row as int, col as int),
            index == match self.rotation {
                Rotation::Unspecified => row * self.pitch + col,
                Rotation::Identity => row * self.pitch + col,
                Rotation::Rotate90 => (self.width - 1 - col) * self.pitch + row,
                Rotation::Rotate180 => (self.height - 1 - row) * self.pitch + (self.width - 1 - col),
                Rotation::Rotate270 => col * self.pitch + (self.height - 1 - row),
            },
    {
        proof {
            law_index_within_extent(*self, row as int, col as int);
            let (surface_row, surface_col) = self.place(row as int, col as int);
            assert(0 <= surface_row * self.pitch) by (nonlinear_arith)
                requires
                    0 <= surface_row,
            ;
        }
        match self.rotation {
            Rotation::Identity | Rotation::Unspecified => row * self.pitch + col,
            Rotation::Rotate90 => (self.width - 1 - col) * self.pitch + row,
            Rotation::Rotate180 => (self.height - 1 - row) * self.pitch + (self.width - col - 1),
            Rotation::Rotate270 => col * self.pitch + (self.height - row - 1),
        }
    }

    /// Computes how many pixels of the surface have to be mapped for the picture to be read.
    pub fn mapped_len(&self) -> (len: usize)
        requires
            self.readable(),
        ensures
            len == self.extent(),
            len == if self.width == 0 || self.height == 0 {
                0
            } else if self.rotation == Rotation::Rotate90 || self.rotation == Rotation::Rotate270 {
                (self.width - 1) * self.pitch + self.height
            } else {
                (self.height - 1) * self.pitch + self.width
            },
    {
        proof {
            law_extent_is_bounded(*self);
        }
        if self.width == 0 || self.height == 0 {
            return 0;
        }
        let (rows, cols): (usize, usize) = match self.rotation {
            Rotation::Rotate90 | Rotation::Rotate270 => (self.width, self.height),
            _ => (self.height, self.width),
        };
        proof {
            assert(0 <= (rows - 1) * self.pitch) by (nonlinear_arith)
                requires
                    rows >= 1,
            ;
        }
        (rows - 1) * self.pitch + cols
    }

    /// Tests whether the picture can be taken.
    pub fn is_readable(&self) -> (readable: bool)
        ensures
            readable == self.readable(),
            readable <==> self.width * self.height * 4 <= isize::MAX && self.width * self.height
                * self.pitch <= usize::MAX && (self.width == 0 || self.height == 0 || self.pitch
                > 0),
    {
        let pixels: usize = match self.width.checked_mul(self.height) {
            Some(pixels) => pixels,
            None => {
                proof {
                    let (width, height) = (self.width as int, self.height as int);
                    assert(width * height * 4 > isize::MAX) by (nonlinear_arith)
                        requires
                            width * height > usize::MAX,
                    ;
                }
                return false;
            },
        };
        if pixels > isize::MAX as usize / DXGI_PIXEL_SIZE as usize {
            return false;
        }
        match pixels.checked_mul(self.pitch) {
            Some(_) => self.width == 0 || self.height == 0 || self.pitch > 0,
            None => false,
        }
    }

    /// Reads the picture out of a surface, row by row.
    pub fn read_picture(&self, surface: &[BGRA8]) -> (pixels: Vec<BGRA8>)
        requires
            self.readable(),
            self.extent() <= surface@.len(),
        ensures
            pixels@ == self.picture(surface@),
    {
        proof {
            law_extent_is_bounded(*self);
        }
        let ghost whole = self.picture(surface@);
        let (width, height): (usize, usize) = (self.width, self.height);
        assert(width * height <= width * height * 4) by (nonlinear_arith);
        let mut pixels: Vec<BGRA8> = Vec::with_capacity(width * height);
        let mut row: usize = 0;
        assert(0 * width == 0) by (nonlinear_arith);
        while row < height
            invariant
                row <= height,
                width == self.width,
                height == self.height,
                self.extent() <= surface@.len(),
                self.extent() <= usize::MAX,
                whole == self.picture(surface@),
                pixels@ == whole.take(row * width),
                row * width <= whole.len(),
            decreases height - row,
        {
            let mut col: usize = 0;
            assert((row + 1) * width == row * width + width && (row + 1) * width <= height * width
                && height * width == width * height) by (nonlinear_arith)
                requires
                    row + 1 <= height,
            ;
            while col < width
                invariant
                    col <= width,
                    row < height,
                    width == self.width,
                    height == self.height,
                    self.extent() <= surface@.len(),
                    self.extent() <= usize::MAX,
                    whole == self.picture(surface@),
                    pixels@ == whole.take(row * width + col),
                    0 <= row * width,
                    row * width + width <= whole.len(),
                decreases width - col,
            {
                proof {
                    law_index_within_extent(*self, row as int, col as int);
                    lemma_row_and_col(row as int, col as int, width as int);
                }
                let index: usize = self.pixel_index(row, col);
                pixels.push(surface[index]);
                assert(whole[row * width + col] == surface@[index as int]);
                assert(pixels@ == whole.take(row * width + col + 1));
                col += 1;
            }
            row += 1;
        }
        assert(height * width == width * height) by (nonlinear_arith);
        assert(whole.take(row * width) == whole);
        pixels
    }
}

/// Row and column of the pixel with a given number.
proof fn lemma_row_and_col(row: int, col: int, width: int)
    requires
        0 <= row,
        0 <= col < width,
    ensures
        (row * width + col) / width == row,
        (row * width + col) % width == col,
{
    assert(row * width == width * row) by (nonlinear_arith);
    vstd::arithmetic::div_mod::lemma_fundamental_div_mod_converse(
        row * width + col,
        width,
        row,
        col,
    );
}

/// Every pixel of the output lies within the extent of the picture, in a row and a column of
/// the surface that the picture takes.
pub proof fn law_index_within_extent(layout: Layout, row: int, col: int)
    requires
        0 <= row < layout.height,
        0 <= col < layout.width,
    ensures
        0 <= layout.place(row, col).0 < layout.surface_size().0,
        0 <= layout.place(row, col).1 < layout.surface_size().1,
        0 <= layout.index(row, col) < layout.extent(),
{
    let (surface_row, surface_col) = layout.place(row, col);
    let (rows, cols) = layout.surface_size();
    let pitch = layout.pitch as int;
    assert(0 <= surface_row * pitch <= (rows - 1) * pitch) by (nonlinear_arith)
        requires
            0 <= surface_row <= rows - 1,
            0 <= pitch,
    ;
}

/// The extent of a picture that can be taken is at most width times height times pitch.
pub proof fn law_extent_is_bounded(layout: Layout)
    requires
        layout.readable(),
    ensures
        0 <= layout.extent() <= layout.width * layout.height * layout.pitch,
{
    let (width, height, pitch) = (layout.width as int, layout.height as int, layout.pitch as int);
    if layout.is_empty() {
        assert(width * height * pitch == 0) by (nonlinear_arith)
            requires
                width == 0 || height == 0,
        ;
    } else {
        let (rows, cols) = layout.surface_size();
        assert(width * height == rows * cols) by (nonlinear_arith)
            requires
                rows == width && cols == height || rows == height && cols == width,
        ;
        assert(0 <= (rows - 1) * pitch + cols <= (rows * cols) * pitch) by (nonlinear_arith)
            requires
                rows >= 1,
                cols >= 1,
                pitch >= 1,
        ;
    }
}

/// The picture has width times height pixels, and pixel (`row`, `col`) of the output stands in it
/// at `row * width + col`.
pub proof fn law_picture_is_row_major(layout: Layout, surface: Seq<BGRA8>, row: int, col: int)
    requires
        0 <= row < layout.height,
        0 <= col < layout.width,
    ensures
        layout.picture(surface).len() == layout.width * layout.height,
        0 <= row * layout.width + col < layout.picture(surface).len(),
        layout.picture(surface)[row * layout.width + col] == surface[layout.index(row, col)],
{
    let (width, height) = (layout.width as int, layout.height as int);
    assert(0 <= row * width && row * width + width <= width * height) by (nonlinear_arith)
        requires
            0 <= row < height,
            0 < width,
    ;
    lemma_row_and_col(row, col, width);
}

/// Where a row of the surface holds a row of the picture, no two pixels of the output are read
/// from one pixel of the surface.
pub proof fn law_pixels_are_read_once(layout: Layout, row: int, col: int, row2: int, col2: int)
    requires
        layout.surface_size().1 <= layout.pitch,
        0 <= row < layout.height,
        0 <= col < layout.width,
        0 <= row2 < layout.height,
        0 <= col2 < layout.width,
        layout.index(row, col) == layout.index(row2, col2),
    ensures
        row == row2,
        col == col2,
{
    law_index_within_extent(layout, row, col);
    law_index_within_extent(layout, row2, col2);
    let (a, b) = layout.place(row, col);
    let (a2, b2) = layout.place(row2, col2);
    lemma_row_and_col(a, b, layout.pitch as int);
    lemma_row_and_col(a2, b2, layout.pitch as int);
}

/// A picture turned by 180 degrees is the one that is not turned, read backwards; one turned by
/// 270 degrees is the one turned by 90 degrees, read backwards.
pub proof fn law_half_turn_reads_backwards(layout: Layout, turned: Layout, surface: Seq<BGRA8>)
    requires
        turned.width == layout.width,
        turned.height == layout.height,
        turned.pitch == layout.pitch,
        turned.rotation == match layout.rotation {
            Rotation::Unspecified | Rotation::Identity => Rotation::Rotate180,
            Rotation::Rotate90 => Rotation::Rotate270,
            Rotation::Rotate180 => Rotation::Identity,
            Rotation::Rotate270 => Rotation::Rotate90,
        },
    ensures
        turned.picture(surface) == layout.picture(surface).reverse(),
{
    let (width, height) = (layout.width as int, layout.height as int);
    let backwards = layout.picture(surface).reverse();
    assert forall|i: int| 0 <= i < width * height implies turned.picture(surface)[i]
        == backwards[i] by {
        assert(width > 0) by (nonlinear_arith)
            requires
                0 <= i < width * height,
                0 <= width,
        ;
        let (row, col) = (i / width, i % width);
        vstd::arithmetic::div_mod::lemma_fundamental_div_mod(i, width);
        assert(width * row == row * width) by (nonlinear_arith);
        let (row2, col2) = (height - 1 - row, width - 1 - col);
        assert(0 <= row < height) by (nonlinear_arith)
            requires
                0 <= i < width * height,
                i == width * row + col,
                0 <= col < width,
        ;
        assert(row2 * width + col2 == width * height - 1 - i) by (nonlinear_arith)
            requires
                i == width * row + col,
                row2 == height - 1 - row,
                col2 == width - 1 - col,
        ;
        lemma_row_and_col(row2, col2, width);
        assert(turned.index(row, col) == layout.index(row2, col2));
    }
    assert(turned.picture(surface) =~= backwards);
}

/// Where the picture is not turned and the rows of the surface follow each other without a gap,
/// the picture is the surface as far as it extends.
pub proof fn law_packed_picture_is_the_surface(layout: Layout, surface: Seq<BGRA8>)
    requires
        layout.rotation == Rotation::Identity || layout.rotation == Rotation::Unspecified,
        layout.pitch == layout.width,
        layout.extent() <= surface.len(),
    ensures
        layout.picture(surface) == surface.take(layout.extent()),
{
    let (width, height) = (layout.width as int, layout.height as int);
    if layout.is_empty() {
        assert(width * height == 0) by (nonlinear_arith)
            requires
                width == 0 || height == 0,
        ;
    } else {
        assert((height - 1) * width + width == width * height) by (nonlinear_arith);
        assert forall|i: int| 0 <= i < width * height implies layout.picture(surface)[i]
            == surface[i] by {
            vstd::arithmetic::div_mod::lemma_fundamental_div_mod(i, width);
            assert(width * (i / width) == (i / width) * width) by (nonlinear_arith);
        }
    }
    assert(layout.picture(surface) =~= surface.take(layout.extent()));
}

/// Turned by 90 degrees, the surface holds the columns of the output as rows, the last one first;
/// turned by 180 degrees, its rows and columns backwards; turned by 270 degrees, its columns as
/// rows, each backwards; and not turned, its rows as they are.
pub proof fn law_pixels_lie_by_rotation(layout: Layout, row: int, col: int)
    ensures
        layout.index(row, col) == match layout.rotation {
            Rotation::Unspecified => row * layout.pitch + col,
            Rotation::Identity => row * layout.pitch + col,
            Rotation::Rotate90 => (layout.width - 1 - col) * layout.pitch + row,
            Rotation::Rotate180 => (layout.height - 1 - row) * layout.pitch + (layout.width - 1 - col),
            Rotation::Rotate270 => col * layout.pitch + (layout.height - 1 - row),
        },
{
}

/// No fewer pixels have to be mapped than up to the last one that is read: of a picture that has
/// pixels, one lies at the very end of the extent.
pub proof fn law_extent_is_needed(layout: Layout)
    requires
        layout.width > 0,
        layout.height > 0,
    ensures
        exists|row: int, col: int|
            0 <= row < layout.height && 0 <= col < layout.width && #[trigger] layout.index(row, col)
                == layout.extent() - 1,
{
    let (width, height) = (layout.width as int, layout.height as int);
    let (row, col) = match layout.rotation {
        Rotation::Unspecified | Rotation::Identity => (height - 1, width - 1),
        Rotation::Rotate90 => (height - 1, 0),
        Rotation::Rotate180 => (0, 0),
        Rotation::Rotate270 => (0, width - 1),
    };
    assert(layout.index(row, col) == layout.extent() - 1);
}

} // verus!
