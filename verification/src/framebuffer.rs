//! The framebuffer: a color plane and a depth plane of identical pixel count.
//!
//! The color plane is a flat RGBA byte sequence in row-major order, four bytes
//! per pixel. Depth values are `u32` codes under the usual integer order; the
//! caller maps its own depth metric into this order (for instance through an
//! order-preserving encoding of its floating-point depths). `DEPTH_FAR` plays
//! the role of "+infinity": `clear` resets every depth entry to it, and any
//! strictly smaller code wins the depth test against it.

use vstd::prelude::*;

verus! {

/// The depth code that means "nothing drawn yet": every depth code of actual
/// geometry is strictly smaller, so anything drawn wins the depth test.
pub const DEPTH_FAR: u32 = 0xFFFF_FFFF;

/// An RGB color with 8-bit channels.
#[derive(Clone, Copy, Debug, PartialEq, Eq, Structural)]
pub struct Color {
    pub r: u8,
    pub g: u8,
    pub b: u8,
}

impl Color {
    pub fn new(r: u8, g: u8, b: u8) -> (c: Self)
        ensures
            c == (Color { r, g, b }),
    {
        Color { r, g, b }
    }
}

/// The mathematical state of a framebuffer: its dimensions, the color plane as
/// a byte sequence, and the depth plane as a sequence of depth codes.
#[verifier::ext_equal]
pub ghost struct FbView {
    pub width: nat,
    pub height: nat,
    pub colors: Seq<u8>,
    pub depths: Seq<u32>,
}

impl FbView {
    /// Both planes cover exactly `width * height` pixels.
    pub open spec fn wf(self) -> bool {
        &&& self.colors.len() == self.width * self.height * 4
        &&& self.depths.len() == self.width * self.height
    }

    pub open spec fn in_bounds(self, x: int, y: int) -> bool {
        0 <= x < self.width && 0 <= y < self.height
    }

    /// Row-major position of pixel (x, y) in the depth plane; its four color
    /// bytes start at four times this.
    pub open spec fn pixel_index(self, x: int, y: int) -> int {
        y * self.width + x
    }

    pub open spec fn depth_at(self, x: int, y: int) -> u32 {
        self.depths[self.pixel_index(x, y)]
    }

    /// The four color-plane bytes of pixel (x, y): red, green, blue, alpha.
    pub open spec fn color_at(self, x: int, y: int) -> (u8, u8, u8, u8) {
        let i = 4 * self.pixel_index(x, y);
        (self.colors[i], self.colors[i + 1], self.colors[i + 2], self.colors[i + 3])
    }

    /// The state after clearing: every pixel holds `c` at full opacity and
    /// every depth entry is `DEPTH_FAR`.
    pub open spec fn cleared(self, c: Color) -> FbView {
        FbView {
            width: self.width,
            height: self.height,
            colors: Seq::new(
                self.width * self.height * 4,
                |i: int|
                    if i % 4 == 0 {
                        c.r
                    } else if i % 4 == 1 {
                        c.g
                    } else if i % 4 == 2 {
                        c.b
                    } else {
                        255u8
                    },
            ),
            depths: Seq::new(self.width * self.height, |i: int| DEPTH_FAR),
        }
    }

    /// The state after a depth-tested write of color `c` with depth `d` at
    /// (x, y): unchanged when (x, y) is out of bounds or when `d` does not
    /// strictly undercut the stored depth; otherwise the pixel's four color
    /// bytes become `c` at full opacity and its depth entry becomes `d`.
    pub open spec fn written(self, x: int, y: int, c: Color, d: u32) -> FbView {
        if !self.in_bounds(x, y) {
            self
        } else {
            let i = self.pixel_index(x, y);
            if d < self.depths[i] {
                FbView {
                    colors: self.colors.update(4 * i, c.r).update(4 * i + 1, c.g).update(
                        4 * i + 2,
                        c.b,
                    ).update(4 * i + 3, 255u8),
                    depths: self.depths.update(i, d),
                    ..self
                }
            } else {
                self
            }
        }
    }
}

/// For a pixel in bounds of a well-formed framebuffer, its row-major position
/// lies inside the depth plane, and distinct pixels have distinct positions.
pub proof fn lemma_pixel_index(v: FbView, x: int, y: int)
    requires
        v.wf(),
        v.in_bounds(x, y),
    ensures
        0 <= v.pixel_index(x, y) < v.width * v.height,
        forall|x2: int, y2: int|
            v.in_bounds(x2, y2) && (x2 != x || y2 != y) ==> v.pixel_index(x2, y2) != v.pixel_index(
                x,
                y,
            ),
{
    assert(0 <= y * v.width + x < v.width * v.height) by (nonlinear_arith)
        requires
            0 <= x < v.width,
            0 <= y < v.height,
    ;
    assert forall|x2: int, y2: int|
        v.in_bounds(x2, y2) && (x2 != x || y2 != y) implies v.pixel_index(x2, y2) != v.pixel_index(
        x,
        y,
    ) by {
        assert(y2 * v.width + x2 != y * v.width + x) by (nonlinear_arith)
            requires
                0 <= x < v.width,
                0 <= y < v.height,
                0 <= x2 < v.width,
                0 <= y2 < v.height,
                x2 != x || y2 != y,
        ;
    }
}

/// A depth-tested write keeps the framebuffer well formed and keeps its
/// dimensions.
pub proof fn lemma_written_wf(v: FbView, x: int, y: int, c: Color, d: u32)
    requires
        v.wf(),
    ensures
        v.written(x, y, c, d).wf(),
        v.written(x, y, c, d).width == v.width,
        v.written(x, y, c, d).height == v.height,
{
    if v.in_bounds(x, y) {
        lemma_pixel_index(v, x, y);
    }
}

/// Depth-tested writes are order-independent: two writes that differ in their
/// pixel or in their depth code land on the same final state in either order.
/// (Two writes to the same pixel with the same depth code are the one case the
/// depth test resolves by order: the first writer wins.)
pub proof fn lemma_write_order_independent(
    v: FbView,
    x1: int,
    y1: int,
    c1: Color,
    d1: u32,
    x2: int,
    y2: int,
    c2: Color,
    d2: u32,
)
    requires
        v.wf(),
        x1 != x2 || y1 != y2 || d1 != d2,
    ensures
        v.written(x1, y1, c1, d1).written(x2, y2, c2, d2) == v.written(x2, y2, c2, d2).written(
            x1,
            y1,
            c1,
            d1,
        ),
{
    let a = v.written(x1, y1, c1, d1).written(x2, y2, c2, d2);
    let b = v.written(x2, y2, c2, d2).written(x1, y1, c1, d1);
    if v.in_bounds(x1, y1) && v.in_bounds(x2, y2) {
        lemma_pixel_index(v, x1, y1);
        lemma_pixel_index(v, x2, y2);
        assert(a.colors =~= b.colors);
        assert(a.depths =~= b.depths);
    } else {
        assert(a.colors =~= b.colors);
        assert(a.depths =~= b.depths);
    }
    assert(a =~= b);
}

/// The framebuffer: a flat RGBA byte plane and a depth plane, both sized
/// `width * height` pixels.
pub struct Framebuffer {
    pub width: usize,
    pub height: usize,
    pub buffer: Vec<u8>,
    pub zbuffer: Vec<u32>,
}

impl View for Framebuffer {
    type V = FbView;

    open spec fn view(&self) -> FbView {
        FbView {
            width: self.width as nat,
            height: self.height as nat,
            colors: self.buffer@,
            depths: self.zbuffer@,
        }
    }
}

impl Framebuffer {
    /// A fresh framebuffer: all color bytes zero and every depth entry at
    /// `DEPTH_FAR`.
    pub fn new(width: usize, height: usize) -> (fb: Self)
        requires
            width * height * 4 <= usize::MAX,
        ensures
            fb@.width == width,
            fb@.height == height,
            fb@.wf(),
            forall|i: int| 0 <= i < fb@.colors.len() ==> fb@.colors[i] == 0u8,
            forall|i: int| 0 <= i < fb@.depths.len() ==> fb@.depths[i] == DEPTH_FAR,
    {
        let n = width * height;
        let mut buffer: Vec<u8> = Vec::new();
        let mut i: usize = 0;
        while i < n * 4
            invariant
                i <= n * 4,
                n * 4 <= usize::MAX,
                buffer@.len() == i,
                forall|j: int| 0 <= j < i ==> buffer@[j] == 0u8,
            decreases n * 4 - i,
        {
            buffer.push(0u8);
            i = i + 1;
        }
        let mut zbuffer: Vec<u32> = Vec::new();
        let mut k: usize = 0;
        while k < n
            invariant
                k <= n,
                zbuffer@.len() == k,
                forall|j: int| 0 <= j < k ==> zbuffer@[j] == DEPTH_FAR,
            decreases n - k,
        {
            zbuffer.push(DEPTH_FAR);
            k = k + 1;
        }
        Framebuffer { width, height, buffer, zbuffer }
    }

    /// Sets every pixel to `color` at full opacity and resets every depth
    /// entry to `DEPTH_FAR`, in one pass over the planes.
    pub fn clear(&mut self, color: Color)
        requires
            old(self).wf(),
        ensures
            final(self)@ == old(self)@.cleared(color),
            final(self).wf(),
            forall|x: int, y: int|
                final(self)@.in_bounds(x, y) ==> final(self)@.color_at(x, y) == (
                color.r,
                color.g,
                color.b,
                255u8,
            ),
            forall|x: int, y: int|
                final(self)@.in_bounds(x, y) ==> final(self)@.depth_at(x, y) == DEPTH_FAR,
    {
        let n = self.zbuffer.len();
        let m = self.buffer.len();
        let mut i: usize = 0;
        while i < n
            invariant
                i <= n,
                n == self.width * self.height,
                m == n * 4,
                self.width == old(self).width,
                self.height == old(self).height,
                self.buffer@.len() == n * 4,
                self.zbuffer@.len() == n,
                forall|j: int| 0 <= j < i ==> self.zbuffer@[j] == DEPTH_FAR,
                forall|j: int|
                    0 <= j < 4 * i ==> self.buffer@[j] == (if j % 4 == 0 {
                        color.r
                    } else if j % 4 == 1 {
                        color.g
                    } else if j % 4 == 2 {
                        color.b
                    } else {
                        255u8
                    }),
            decreases n - i,
        {
            let idx = i * 4;
            self.buffer.set(idx, color.r);
            self.buffer.set(idx + 1, color.g);
            self.buffer.set(idx + 2, color.b);
            self.buffer.set(idx + 3, 255u8);
            self.zbuffer.set(i, DEPTH_FAR);
            i = i + 1;
        }
        proof {
            assert(self@.colors =~= old(self)@.cleared(color).colors);
            assert(self@.depths =~= old(self)@.cleared(color).depths);
            assert(self@ =~= old(self)@.cleared(color));
            lemma_clear_pointwise(self@, color);
        }
    }

    /// The depth-tested write, the sole mutation path for single pixels: a
    /// silent no-op when (x, y) is out of bounds, and otherwise a write of
    /// `color` and `depth` exactly when `depth` strictly undercuts the stored
    /// depth. Ties keep the earlier write.
    pub fn set_pixel(&mut self, x: usize, y: usize, color: Color, depth: u32)
        requires
            old(self).wf(),
        ensures
            final(self)@ == old(self)@.written(x as int, y as int, color, depth),
            final(self).wf(),
    {
        if x >= self.width || y >= self.height {
            return ;
        }
        proof {
            lemma_pixel_index(self@, x as int, y as int);
        }
        let n = self.zbuffer.len();
        let m = self.buffer.len();
        let index = y * self.width + x;
        if depth < self.zbuffer[index] {
            self.zbuffer.set(index, depth);
            let idx = index * 4;
            self.buffer.set(idx, color.r);
            self.buffer.set(idx + 1, color.g);
            self.buffer.set(idx + 2, color.b);
            self.buffer.set(idx + 3, 255u8);
            proof {
                let w = old(self)@.written(x as int, y as int, color, depth);
                assert(self@.colors =~= w.colors);
                assert(self@.depths =~= w.depths);
                assert(self@ =~= w);
            }
        }
    }

    /// The read-back view of the color plane: the flat RGBA byte sequence in
    /// row-major order.
    pub fn as_bytes(&self) -> (s: &[u8])
        ensures
            s@ == self@.colors,
    {
        self.buffer.as_slice()
    }

    /// Both planes cover exactly `width * height` pixels.
    pub open spec fn wf(self) -> bool {
        self@.wf()
    }
}

/// After a clear, every pixel in bounds reads back as the clear color at full
/// opacity, and every depth entry as `DEPTH_FAR`.
pub proof fn lemma_clear_pointwise(v: FbView, c: Color)
    requires
        v.wf(),
    ensures
        forall|x: int, y: int|
            v.in_bounds(x, y) ==> v.cleared(c).color_at(x, y) == (c.r, c.g, c.b, 255u8),
        forall|x: int, y: int| v.in_bounds(x, y) ==> v.cleared(c).depth_at(x, y) == DEPTH_FAR,
{
    assert forall|x: int, y: int| v.in_bounds(x, y) implies v.cleared(c).color_at(x, y) == (
        c.r,
        c.g,
        c.b,
        255u8,
    ) && v.cleared(c).depth_at(x, y) == DEPTH_FAR by {
        lemma_pixel_index(v, x, y);
        let i = v.pixel_index(x, y);
        assert((4 * i) % 4 == 0 && (4 * i + 1) % 4 == 1 && (4 * i + 2) % 4 == 2 && (4 * i + 3) % 4
            == 3) by (nonlinear_arith);
        assert(4 * i + 3 < v.width * v.height * 4) by (nonlinear_arith)
            requires
                0 <= i < v.width * v.height,
        ;
    }
}

} // verus!
