//! Textures: a colour for every surface point.
use vstd::prelude::*;
use crate::geom::{Color, Point3};
use crate::scalar::Scalar;

verus! {

/// Anything that gives a colour to the surface coordinates `(u, v)` at the point `p`.
pub trait Texture: Sized {
    /// Admits `c` as the colour at `(u, v, p)`.
    open spec fn may_value(&self, u: Scalar, v: Scalar, p: Point3, c: Color) -> bool {
        true
    }

    fn value(&self, u: Scalar, v: Scalar, p: Point3) -> (c: Color)
        ensures
            self.may_value(u, v, p, c),
    ;
}

/// A plain colour is the texture that has this colour everywhere.
impl Texture for Color {
    open spec fn may_value(&self, u: Scalar, v: Scalar, p: Point3, c: Color) -> bool {
        c == *self
    }

    fn value(&self, _u: Scalar, _v: Scalar, _p: Point3) -> (c: Color) {
        *self
    }
}

/// Two textures laid out as the fields of a three-dimensional checkerboard.
#[derive(Clone)]
pub struct CheckeredTexture<T, U> {
    pub even: T,
    pub odd: U,
}

impl<T: Texture, U: Texture> CheckeredTexture<T, U> {
    pub fn new(even: T, odd: U) -> (c: Self)
        ensures
            c.even == even,
            c.odd == odd,
    {
        CheckeredTexture { even, odd }
    }

    /// The colour at `(u, v, p)`, given on which kind of field the point lies: the odd
    /// texture is asked on an odd field, the even texture on an even one.
    pub fn value_on(&self, on_odd_field: bool, u: Scalar, v: Scalar, p: Point3) -> (c: Color)
        ensures
            on_odd_field ==> self.odd.may_value(u, v, p, c),
            !on_odd_field ==> self.even.may_value(u, v, p, c),
    {
        if on_odd_field {
            self.odd.value(u, v, p)
        } else {
            self.even.value(u, v, p)
        }
    }
}

impl CheckeredTexture<Color, Color> {
    pub fn with_color(even: Color, odd: Color) -> (c: Self)
        ensures
            c.even == even,
            c.odd == odd,
    {
        CheckeredTexture { even, odd }
    }
}

/// A picture of `width` by `height` pixels, three bytes each, row by row from the top.
#[derive(Clone)]
pub struct ImageTexture {
    pub data: Vec<u8>,
    pub width: usize,
    pub height: usize,
}

impl ImageTexture {
    /// The picture has at least one pixel and `data` holds all of them.
    pub open spec fn well_formed(&self) -> bool {
        &&& self.width > 0
        &&& self.height > 0
        &&& self.data@.len() == 3 * self.width * self.height
    }

    /// The column that a request for `column` reads: the last one for requests beyond it.
    pub open spec fn clamped_column(&self, column: usize) -> int {
        if column >= self.width {
            self.width - 1
        } else {
            column as int
        }
    }

    /// The row that a request for `row` reads: the last one for requests beyond it.
    pub open spec fn clamped_row(&self, row: usize) -> int {
        if row >= self.height {
            self.height - 1
        } else {
            row as int
        }
    }

    /// Where the pixel of a column and a row starts in `data`.
    pub open spec fn offset(&self, column: int, row: int) -> int {
        row * 3 * self.width + column * 3
    }

    /// The picture made of `data`, or `None` where `data` is not `width` by `height`
    /// pixels or there is no pixel at all.
    pub fn from_pixels(data: Vec<u8>, width: usize, height: usize) -> (t: Option<ImageTexture>)
        ensures
            t is Some <==> width > 0 && height > 0 && data@.len() == 3 * width * height,
            t matches Some(img) ==> img.data == data && img.width == width && img.height
                == height && img.well_formed(),
    {
        if width == 0 || height == 0 {
            return None;
        }
        let len = data.len();
        if len % 3 != 0 {
            proof {
                let pixels = width * height;
                assert(3 * width * height == 3 * pixels) by (nonlinear_arith)
                    requires
                        pixels == width * height,
                ;
            }
            return None;
        }
        let pixels = len / 3;
        if pixels % width != 0 || pixels / width != height {
            proof {
                if data@.len() == 3 * width * height {
                    assert(3 * width * height == 3 * (width * height)) by (nonlinear_arith);
                    assert(pixels == width * height);
                    assert((width * height) % (width as int) == 0 && (width * height) / (
                    width as int) == height) by (nonlinear_arith)
                        requires
                            width > 0,
                    ;
                }
            }
            return None;
        }
        proof {
            assert(pixels == width * (pixels / width) + pixels % width) by (nonlinear_arith)
                requires
                    width > 0,
            ;
            assert(3 * width * height == 3 * (width * height)) by (nonlinear_arith);
        }
        Some(ImageTexture { data, width, height })
    }

    /// The three bytes of the pixel at a column and a row, counted from the top left;
    /// requests beyond the last column or row read the last.
    pub fn texel(&self, column: usize, row: usize) -> (rgb: (u8, u8, u8))
        requires
            self.well_formed(),
        ensures
            ({
                let k = self.offset(self.clamped_column(column), self.clamped_row(row));
                &&& 0 <= k
                &&& k + 2 < self.data@.len()
                &&& rgb.0 == self.data@[k]
                &&& rgb.1 == self.data@[k + 1]
                &&& rgb.2 == self.data@[k + 2]
            }),
    {
        let i = if column >= self.width {
            self.width - 1
        } else {
            column
        };
        let j = if row >= self.height {
            self.height - 1
        } else {
            row
        };
        let len = self.data.len();
        proof {
            lemma_pixel_in_bounds(self.width as int, self.height as int, i as int, j as int);
            assert(len == 3 * self.width * self.height);
        }
        let k = j * 3 * self.width + i * 3;
        (self.data[k], self.data[k + 1], self.data[k + 2])
    }
}

/// The three bytes of every pixel lie inside the picture's data.
pub proof fn lemma_pixel_in_bounds(width: int, height: int, column: int, row: int)
    requires
        0 <= column < width,
        0 <= row < height,
    ensures
        0 <= row * 3 <= row * 3 * width,
        0 <= row * 3 * width + column * 3,
        row * 3 * width + column * 3 + 2 < 3 * width * height,
{
    assert(row * 3 * width == 3 * (row * width)) by (nonlinear_arith);
    assert(3 * width * height == 3 * (width * height)) by (nonlinear_arith);
    assert(row * width + width <= height * width) by (nonlinear_arith)
        requires
            row + 1 <= height,
            width > 0,
    ;
    assert(height * width == width * height) by (nonlinear_arith);
    assert(0 <= row * width) by (nonlinear_arith)
        requires
            0 <= row,
            0 < width,
    ;
    assert(row * 3 <= row * 3 * width) by (nonlinear_arith)
        requires
            0 <= row,
            1 <= width,
    ;
}

} // verus!
