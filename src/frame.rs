use vstd::prelude::*;

verus! {

/// A rendered frame: `width * height` pixels, row by row from the first row
/// of the camera.
pub struct FrameBuffer<P> {
    pub width: usize,
    pub height: usize,
    pub buffer: Vec<P>,
}

impl<P> FrameBuffer<P> {
    pub open spec fn wf(&self) -> bool {
        self.buffer@.len() == self.width * self.height
    }

    /// The pixel in column `x` of row `y`.
    pub open spec fn at(&self, x: int, y: int) -> P {
        self.buffer@[y * self.width + x]
    }

    /// Lays rows that were computed apart (in any order, on any thread) out
    /// one after the other, each at its own offset. Refused where a row is
    /// not `width` pixels long, or the frame would hold more than
    /// `usize::MAX` pixels.
    pub fn from_rows(width: usize, rows: Vec<Vec<P>>) -> (r: Option<FrameBuffer<P>>)
        ensures
            r is Some <==> (forall|y: int| 0 <= y < rows@.len() ==> #[trigger] rows@[y]@.len()
                == width) && width * rows@.len() <= usize::MAX,
            r matches Some(f) ==> f.wf() && f.width == width && f.height == rows@.len() && forall|
                x: int,
                y: int,
            |
                0 <= x < width && 0 <= y < rows@.len() ==> #[trigger] f.at(x, y) == rows@[y]@[x],
    {
        let height = rows.len();
        let mut y: usize = 0;
        while y < height
            invariant
                y <= height == rows@.len(),
                forall|j: int| 0 <= j < y ==> #[trigger] rows@[j]@.len() == width,
            decreases height - y,
        {
            if rows[y].len() != width {
                return None;
            }
            y = y + 1;
        }
        let total = match width.checked_mul(height) {
            None => {
                return None;
            },
            Some(t) => t,
        };
        let ghost rs = rows@;
        let mut buffer: Vec<P> = Vec::new();
        for row in it: rows.into_iter()
            invariant
                it.seq() == rs,
                height == rs.len(),
                total == width * height,
                forall|j: int| 0 <= j < height ==> #[trigger] rs[j]@.len() == width,
                buffer@.len() == width * it.index(),
                forall|x: int, j: int|
                    0 <= x < width && 0 <= j < it.index() ==> #[trigger] buffer@[j * width + x]
                        == rs[j]@[x],
        {
            let ghost idx = it.index();
            let ghost before = buffer@;
            assert(row@ == rs[idx]@);
            let mut row = row;
            buffer.append(&mut row);
            assert forall|x: int, j: int|
                0 <= x < width && 0 <= j < idx + 1 implies #[trigger] buffer@[j * width + x]
                == rs[j]@[x] by {
                if j < idx {
                    assert(j * width + x < width * idx) by (nonlinear_arith)
                        requires
                            0 <= x < width,
                            0 <= j < idx,
                    ;
                    assert(buffer@[j * width + x] == before[j * width + x]);
                } else {
                    assert(j * width + x == width * idx + x) by (nonlinear_arith)
                        requires
                            j == idx,
                    ;
                }
            }
            assert(buffer@.len() == width * (idx + 1)) by (nonlinear_arith)
                requires
                    buffer@.len() == width * idx + width,
            ;
        }
        Some(FrameBuffer { width, height, buffer })
    }
}

impl<P: Copy> FrameBuffer<P> {
    /// The pixels last to first: the order in which the exporter writes
    /// them, which turns the frame half a turn (the camera's rows and
    /// columns both run opposite to the image file's).
    pub fn export_order(&self) -> (r: Vec<P>)
        ensures
            r@ == self.buffer@.reverse(),
    {
        let n = self.buffer.len();
        let mut r: Vec<P> = Vec::new();
        let mut i: usize = n;
        while i > 0
            invariant
                i <= n == self.buffer@.len(),
                r@.len() == n - i,
                forall|j: int| 0 <= j < n - i ==> #[trigger] r@[j] == self.buffer@[n - 1 - j],
            decreases i,
        {
            i = i - 1;
            r.push(self.buffer[i]);
        }
        assert(r@ =~= self.buffer@.reverse());
        r
    }
}

} // verus!
