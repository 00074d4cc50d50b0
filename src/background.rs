use vstd::prelude::*;

verus! {

/// Relies on num::clamp: the input below `min` becomes `min`, above `max`
/// becomes `max`, and stays as it is otherwise (it panics only when
/// `min > max`, which `requires` leaves out).
#[verifier::external_body]
fn clamp_u32(input: u32, min: u32, max: u32) -> (r: u32)
    requires
        min <= max,
    ensures
        r == (if input < min {
            min
        } else if input > max {
            max
        } else {
            input
        }),
{
    num::clamp(input, min, max)
}

/// The coordinate `v` clamped into `0 .. n`, for `n >= 1`.
pub open spec fn clamp_coord(v: int, n: int) -> int {
    if v > n - 1 {
        n - 1
    } else {
        v
    }
}

/// An environment image: `width * height` pixels of three bytes (red, green,
/// blue), stored row by row from the top.
pub struct Background {
    width: u32,
    height: u32,
    data: Vec<u8>,
}

impl Background {
    #[verifier::type_invariant]
    spec fn inv(&self) -> bool {
        &&& 1 <= self.width
        &&& 1 <= self.height
        &&& self.data@.len() == 3 * (self.width as int) * (self.height as int)
    }

    pub closed spec fn spec_width(&self) -> int {
        self.width as int
    }

    pub closed spec fn spec_height(&self) -> int {
        self.height as int
    }

    /// The raw bytes, row-major, three per pixel.
    pub closed spec fn spec_data(&self) -> Seq<u8> {
        self.data@
    }

    /// Channel `c` (0 red, 1 green, 2 blue) of the pixel in column `x`, row `y`.
    pub open spec fn channel(&self, x: int, y: int, c: int) -> u8 {
        self.spec_data()[3 * (y * self.spec_width() + x) + c]
    }

    /// Wraps raw RGB bytes; refused unless the image has at least one pixel
    /// and `data` holds exactly three bytes for each pixel.
    pub fn new(width: u32, height: u32, data: Vec<u8>) -> (r: Option<Background>)
        ensures
            r is Some <==> (1 <= width && 1 <= height && data@.len() == 3 * (width as int) * (
            height as int)),
            r matches Some(b) ==> b.spec_width() == width && b.spec_height() == height
                && b.spec_data() == data@,
    {
        let dl = data.len();
        if width == 0 || height == 0 {
            return None;
        }
        let area = (width as usize).checked_mul(height as usize);
        match area {
            None => {
                assert(3 * (width as int) * (height as int) > usize::MAX) by (nonlinear_arith)
                    requires
                        (width as int) * (height as int) > usize::MAX,
                ;
                None
            },
            Some(a) => match a.checked_mul(3) {
                None => {
                    assert(3 * (width as int) * (height as int) == 3 * (a as int)) by (
                    nonlinear_arith)
                        requires
                            a as int == (width as int) * (height as int),
                    ;
                    None
                },
                Some(n) => {
                    assert(3 * (width as int) * (height as int) == 3 * (a as int)) by (
                    nonlinear_arith)
                        requires
                            a as int == (width as int) * (height as int),
                    ;
                    if dl == n {
                        Some(Background { width, height, data })
                    } else {
                        None
                    }
                },
            },
        }
    }

    pub fn width(&self) -> (r: u32)
        ensures
            r == self.spec_width(),
            r >= 1,
    {
        proof {
            use_type_invariant(self);
        }
        self.width
    }

    pub fn height(&self) -> (r: u32)
        ensures
            r == self.spec_height(),
            r >= 1,
    {
        proof {
            use_type_invariant(self);
        }
        self.height
    }

    /// The pixel at column `x`, row `y`, where a coordinate past the last
    /// column or row stands for the last one.
    pub fn pixel(&self, x: u32, y: u32) -> (r: [u8; 3])
        ensures
            ({
                let cx = clamp_coord(x as int, self.spec_width());
                let cy = clamp_coord(y as int, self.spec_height());
                r@ == seq![
                    self.channel(cx, cy, 0),
                    self.channel(cx, cy, 1),
                    self.channel(cx, cy, 2),
                ]
            }),
    {
        proof {
            use_type_invariant(self);
        }
        let cx = clamp_u32(x, 0, self.width - 1);
        let cy = clamp_u32(y, 0, self.height - 1);
        let w = self.width as usize;
        let h = self.height as usize;
        let cxu = cx as usize;
        let cyu = cy as usize;
        let dl = self.data.len();
        assert(3 * (cyu * w + cxu) + 2 < dl) by (nonlinear_arith)
            requires
                cxu < w,
                cyu < h,
                dl == 3 * w * h,
        ;
        let i = 3 * (cyu * w + cxu);
        let r = [self.data[i], self.data[i + 1], self.data[i + 2]];
        assert(r@ =~= seq![self.data@[i as int], self.data@[i + 1], self.data@[i + 2]]);
        r
    }
}

} // verus!
