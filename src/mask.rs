use vstd::prelude::*;

use crate::quadrant::{on_left, on_top, Quadrant};

verus! {

/// A pixel inside the cutout: every channel zero.
pub const TRANSPARENT: u32 = 0x0000_0000;

/// A pixel of the mask: alpha full, colour black (`0xAARRGGBB`).
pub const OPAQUE_BLACK: u32 = 0xFF00_0000;

/// Circle-space abscissa of column `c`: mirrored on tiles at the left edge,
/// so that the circle's centre always lies on the outer screen corner.
pub open spec fn local_x(q: Quadrant, radius: int, c: int) -> int {
    if on_left(q) {
        radius - c
    } else {
        c
    }
}

/// Circle-space ordinate of row `r`: mirrored on tiles at the top edge.
pub open spec fn local_y(q: Quadrant, radius: int, r: int) -> int {
    if on_top(q) {
        radius - r
    } else {
        r
    }
}

/// The point `(x, y)` lies in the closed disc of the given radius.
pub open spec fn in_cutout(x: int, y: int, radius: int) -> bool {
    x * x + y * y <= radius * radius
}

/// The colour of the pixel at column `c`, row `r` of a tile.
pub open spec fn color_at(radius: int, q: Quadrant, c: int, r: int) -> u32 {
    if in_cutout(local_x(q, radius, c), local_y(q, radius, r), radius) {
        TRANSPARENT
    } else {
        OPAQUE_BLACK
    }
}

/// Byte `k` (0 = least significant) of a 32-bit word.
pub open spec fn le_byte(word: u32, k: int) -> u8 {
    if k == 0 {
        (word % 0x100) as u8
    } else if k == 1 {
        ((word / 0x100) % 0x100) as u8
    } else if k == 2 {
        ((word / 0x1_0000) % 0x100) as u8
    } else {
        (word / 0x100_0000) as u8
    }
}

/// The whole tile as bytes: row-major, `radius` pixels per row, each pixel
/// one little-endian 32-bit word.
pub open spec fn mask_bytes(radius: int, q: Quadrant) -> Seq<u8> {
    Seq::new(
        (radius * radius * 4) as nat,
        |j: int| le_byte(color_at(radius, q, (j / 4) % radius, (j / 4) / radius), j % 4),
    )
}

/// The square of a 32-bit value fits in 64 bits.
proof fn lemma_square_fits(v: u32)
    ensures
        v * v <= u64::MAX,
{
    assert(v * v <= u64::MAX) by (nonlinear_arith)
        requires
            v <= u32::MAX,
    ;
}

/// Maps pixel `(c, r)` of a tile to circle-space coordinates.
pub fn local_coords(q: Quadrant, radius: u32, c: u32, r: u32) -> (xy: (u32, u32))
    requires
        c < radius,
        r < radius,
    ensures
        xy.0 == local_x(q, radius as int, c as int),
        xy.1 == local_y(q, radius as int, r as int),
{
    let x = if q.is_left() {
        radius - c
    } else {
        c
    };
    let y = if q.is_top() {
        radius - r
    } else {
        r
    };
    (x, y)
}

/// The colour of pixel `(c, r)`: transparent where the mapped point lies in
/// the closed disc of the tile's radius (its edge included), opaque black
/// elsewhere.
pub fn pixel_color(radius: u32, q: Quadrant, c: u32, r: u32) -> (color: u32)
    requires
        c < radius,
        r < radius,
    ensures
        color == color_at(radius as int, q, c as int, r as int),
{
    let (x, y) = local_coords(q, radius, c, r);
    proof {
        lemma_square_fits(x);
        lemma_square_fits(y);
        lemma_square_fits(radius);
    }
    let xx = x as u64 * x as u64;
    let yy = y as u64 * y as u64;
    let rr = radius as u64 * radius as u64;
    proof {
        assert(x <= radius);
        assert(y <= radius);
        assert(xx <= rr) by (nonlinear_arith)
            requires
                x <= radius,
                xx == x * x,
                rr == radius * radius,
        ;
    }
    // Compared as `yy <= rr - xx` so that the sum never overflows.
    if xx <= rr && yy <= rr - xx {
        TRANSPARENT
    } else {
        OPAQUE_BLACK
    }
}

/// Row `i / w` of pixel `i` lies within a `w`-by-`w` tile.
proof fn lemma_pixel_in_tile(i: int, w: int)
    requires
        0 < w,
        0 <= i < w * w,
    ensures
        0 <= i % w < w,
        0 <= i / w < w,
{
    assert(0 <= i / w < w) by (nonlinear_arith)
        requires
            0 < w,
            0 <= i < w * w,
    ;
}

/// Fills a tile's pixel buffer with the mask for `radius` and `q`.
/// Every byte is written and nothing else is touched, so the result does not
/// depend on what the buffer held before.
pub fn paint(buf: &mut [u8], radius: u32, q: Quadrant)
    requires
        old(buf)@.len() == radius * radius * 4,
    ensures
        final(buf)@ == mask_bytes(radius as int, q),
{
    let ghost want = mask_bytes(radius as int, q);
    let len: usize = buf.len();
    let n: usize = len / 4;
    let w: usize = radius as usize;
    let mut i: usize = 0;
    while i < n
        invariant
            buf@.len() == radius * radius * 4,
            buf@.len() == len,
            n == radius * radius,
            w == radius,
            i <= n,
            want == mask_bytes(radius as int, q),
            forall|j: int| 0 <= j < 4 * i ==> buf@[j] == want[j],
        decreases n - i,
    {
        proof {
            lemma_pixel_in_tile(i as int, w as int);
        }
        let c = (i % w) as u32;
        let r = (i / w) as u32;
        let color = pixel_color(radius, q, c, r);
        assert(4 * i + 4 <= buf@.len());
        let base = 4 * i;
        buf[base] = (color % 0x100) as u8;
        buf[base + 1] = ((color / 0x100) % 0x100) as u8;
        buf[base + 2] = ((color / 0x1_0000) % 0x100) as u8;
        buf[base + 3] = (color / 0x100_0000) as u8;
        proof {
            assert forall|j: int| 4 * i <= j < 4 * i + 4 implies buf@[j] == want[j] by {
                assert(j / 4 == i);
                assert(j % 4 == j - 4 * i);
            }
        }
        i = i + 1;
    }
    assert(buf@ =~= want);
}

/// Painting is idempotent: two buffers painted with the same radius and
/// quadrant hold the same bytes, whatever each held before.
pub proof fn lemma_paint_idempotent(radius: int, q: Quadrant, first: Seq<u8>, second: Seq<u8>)
    requires
        first == mask_bytes(radius, q),
        second == mask_bytes(radius, q),
    ensures
        first == second,
{
}

/// The disc test is monotone: moving a point towards the centre along either
/// axis keeps it inside the disc.
proof fn lemma_cutout_monotone(x: int, y: int, radius: int)
    requires
        0 <= x,
        0 <= y,
        in_cutout(x + 1, y + 1, radius),
    ensures
        in_cutout(x, y + 1, radius),
        in_cutout(x + 1, y, radius),
        in_cutout(x, y, radius),
{
    assert(x * x <= (x + 1) * (x + 1) && y * y <= (y + 1) * (y + 1)) by (nonlinear_arith)
        requires
            0 <= x,
            0 <= y,
    ;
}

/// Mirror symmetry of the four tiles. Write `a = radius - 1 - c` and
/// `b = radius - 1 - r`. Pixel `(c, r)` of the top-left tile, `(a, r)` of the
/// top-right, `(c, b)` of the bottom-left and `(a, b)` of the bottom-right tile
/// all have one colour, unless the circle's edge separates the circle-space
/// points `(a, b)` and `(a + 1, b + 1)`: the left and top tiles are measured
/// from the far edge of the pixel (`radius - c`), so the reflection is off by
/// one pixel there.
pub proof fn lemma_mirror_symmetry(radius: int, c: int, r: int)
    requires
        0 <= c < radius,
        0 <= r < radius,
        in_cutout(radius - 1 - c, radius - 1 - r, radius) ==> in_cutout(
            radius - c,
            radius - r,
            radius,
        ),
    ensures
        color_at(radius, Quadrant::TopLeft, c, r) == color_at(
            radius,
            Quadrant::TopRight,
            radius - 1 - c,
            r,
        ),
        color_at(radius, Quadrant::TopLeft, c, r) == color_at(
            radius,
            Quadrant::BottomLeft,
            c,
            radius - 1 - r,
        ),
        color_at(radius, Quadrant::TopLeft, c, r) == color_at(
            radius,
            Quadrant::BottomRight,
            radius - 1 - c,
            radius - 1 - r,
        ),
{
    let a = radius - 1 - c;
    let b = radius - 1 - r;
    if in_cutout(a + 1, b + 1, radius) {
        lemma_cutout_monotone(a, b, radius);
    } else {
        // Then (a, b) is outside too, and so are (a, b + 1) and (a + 1, b).
        assert(!in_cutout(a, b + 1, radius) && !in_cutout(a + 1, b, radius)) by {
            assert(a * a <= (a + 1) * (a + 1) && b * b <= (b + 1) * (b + 1)) by (nonlinear_arith)
                requires
                    0 <= a,
                    0 <= b,
            ;
        }
    }
}

} // verus!
