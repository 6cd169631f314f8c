//! Tiling of the preview streams into a window.
//!
//! Every tile has the fixed stream aspect ratio.  The layout search looks for
//! the effective window width (at most the real one) and the column count
//! that give the largest tiles: for each candidate width it takes the
//! smallest column count whose rows all fit, and keeps the candidate with
//! the widest resulting tile.

use vstd::prelude::*;

verus! {

/// Horizontal part of every tile's aspect ratio.
pub const STREAM_ASPECT_WIDTH: u32 = 9;

/// Vertical part of every tile's aspect ratio.
pub const STREAM_ASPECT_HEIGHT: u32 = 16;

/// `a / b` rounded up.
pub open spec fn spec_ceiling_div(a: int, b: int) -> int {
    a / b + if a % b == 0 {
        0int
    } else {
        1int
    }
}

/// Divides, rounding up.
pub fn ceiling_div(a: u32, b: u32) -> (r: u32)
    requires
        b > 0,
    ensures
        r == spec_ceiling_div(a as int, b as int),
{
    let q: u64 = a as u64 / b as u64 + if a as u64 % b as u64 == 0 {
        0
    } else {
        1
    };
    proof {
        assert(a as int / b as int <= a as int) by (nonlinear_arith)
            requires
                b as int >= 1,
                a as int >= 0,
        ;
        assert(a as int % b as int != 0 ==> (a as int / b as int) < a as int) by (nonlinear_arith)
            requires
                b as int >= 1,
                a as int >= 0,
        ;
    }
    q as u32
}

/// The floor of the square root.
pub fn integer_square_root(n: u32) -> (r: u32)
    ensures
        r * r <= n < (r + 1) * (r + 1),
{
    let n64: u64 = n as u64;
    let mut r: u64 = 0;
    let mut next: u64 = 1;
    while next <= n64
        invariant
            r * r <= n64,
            n64 == n,
            n64 < 0x1_0000_0000,
            r <= 65535,
            next == (r + 1) * (r + 1),
        decreases n64 - r,
    {
        r = r + 1;
        proof {
            assert(r <= 65535) by (nonlinear_arith)
                requires
                    r * r <= n64,
                    n64 < 0x1_0000_0000,
                    r >= 1,
            ;
            assert((r + 1) * (r + 1) <= 0x1_0000_0000_0000) by (nonlinear_arith)
                requires
                    r + 1 <= 0x1_0000,
            ;
            assert(r <= n64) by (nonlinear_arith)
                requires
                    r * r <= n64,
                    r >= 1,
            ;
        }
        next = (r + 1) * (r + 1);
    }
    r as u32
}

/// A viewport rectangle inside the window, in pixels.
#[derive(Copy, Clone, PartialEq, Eq, Structural, Debug)]
pub struct Rect {
    pub left: u32,
    pub bottom: u32,
    pub width: u32,
    pub height: u32,
}

/// With `htc` columns at effective window width `w`, the rows the tiles need
/// all fit in the window.
pub open spec fn spec_fits(tile_count: int, w: int, wh: int, htc: int) -> bool {
    spec_ceiling_div(tile_count, htc) <= (htc * wh * 9) / (w * 16)
}

/// `htc` is the smallest column count that fits at width `w`.
pub open spec fn spec_is_min_fit(tile_count: int, w: int, wh: int, htc: int) -> bool {
    &&& 1 <= htc
    &&& spec_fits(tile_count, w, wh, htc)
    &&& forall|h: int| 1 <= h < htc ==> !spec_fits(tile_count, w, wh, h)
}

/// Whether `htc` columns fit at width `w` (all in 64-bit-safe arithmetic).
fn fits(tile_count: u32, w: u32, wh: u32, htc: u64) -> (r: bool)
    requires
        w >= 1,
        wh >= 1,
        htc >= 1,
        htc <= 0x2_0000_0000,
    ensures
        r == spec_fits(tile_count as int, w as int, wh as int, htc as int),
{
    let required: u128 = tile_count as u128 / htc as u128 + if tile_count as u128 % htc as u128
        == 0 {
        0
    } else {
        1
    };
    proof {
        assert(htc as int * (wh as int) <= 0x2_0000_0000 * 0x1_0000_0000) by (nonlinear_arith)
            requires
                0 <= htc as int <= 0x2_0000_0000,
                0 <= wh as int,
                wh as int <= 0xFFFF_FFFF,
        ;
    }
    let available: u128 = (htc as u128) * (wh as u128) * 9 / ((w as u128) * 16);
    required <= available
}

/// The smallest column count that fits at width `w`.
fn min_fit_htc(tile_count: u32, w: u32, wh: u32) -> (r: u32)
    requires
        w >= 1,
        wh >= 1,
        w <= 0x4000_0000,
    ensures
        spec_is_min_fit(tile_count as int, w as int, wh as int, r as int),
        r <= 0x1_0000_0000,
{
    let cap: u64 = if tile_count as u64 > 2 * (w as u64) {
        tile_count as u64
    } else {
        2 * (w as u64)
    };
    proof {
        assert(spec_ceiling_div(tile_count as int, cap as int) <= 1) by (nonlinear_arith)
            requires
                cap as int >= 1,
                tile_count as int <= cap as int,
                0 <= tile_count as int,
        ;
        assert((cap as int * (wh as int) * 9) / ((w as int) * 16) >= 1) by (nonlinear_arith)
            requires
                cap as int >= 2 * (w as int),
                wh as int >= 1,
                w as int >= 1,
        ;
    }
    let mut h: u64 = 1;
    while !fits(tile_count, w, wh, h)
        invariant
            1 <= h <= cap,
            w >= 1,
            wh >= 1,
            w <= 0x4000_0000,
            cap <= 0x2_0000_0000,
            spec_fits(tile_count as int, w as int, wh as int, cap as int),
            forall|h2: int| 1 <= h2 < h ==> !spec_fits(tile_count as int, w as int, wh as int, h2),
        decreases cap - h,
    {
        h = h + 1;
    }
    h as u32
}

/// Lays the preview tiles out: an effective window width and a column count
/// giving the widest possible aspect-true tiles.
pub struct LayoutEngine {
    pub window_width: u32,
    pub window_height: u32,
    pub horizontal_tile_count: u32,
    pub tile_width: u32,
    pub tile_height: u32,
    pub tile_count: u32,
}

impl LayoutEngine {
    /// The stored tiling is a fitting one for some effective width, its tile
    /// width is that width split over the columns, and no other effective
    /// width does better.
    pub open spec fn wf(self) -> bool {
        &&& 1 <= self.horizontal_tile_count
        &&& self.window_width >= 1
        &&& self.window_height >= 1
        &&& exists|w: int|
            1 <= w <= self.window_width && #[trigger] spec_is_min_fit(
                self.tile_count as int,
                w,
                self.window_height as int,
                self.horizontal_tile_count as int,
            ) && self.tile_width == w / self.horizontal_tile_count as int
        &&& forall|w: int, h: int|
            1 <= w <= self.window_width && #[trigger] spec_is_min_fit(
                self.tile_count as int,
                w,
                self.window_height as int,
                h,
            ) ==> w / h <= self.tile_width
        &&& self.tile_height == self.tile_width as int * 16 / 9
    }

    /// Finds the best tiling of `tile_count` streams in a window: for every
    /// effective width up to the window's, the smallest fitting column
    /// count; of those, a candidate with the widest tile.
    pub fn new(window_width: u32, window_height: u32, tile_count: u32) -> (r: LayoutEngine)
        requires
            1 <= window_width <= 0x4000_0000,
            1 <= window_height,
        ensures
            r.wf(),
            r.window_width == window_width,
            r.window_height == window_height,
            r.tile_count == tile_count,
    {
        let mut best_w: u32 = 1;
        let mut best_h: u32 = min_fit_htc(tile_count, 1, window_height);
        let mut best_ratio: u32 = 1 / best_h;
        let mut w: u32 = 2;
        while w <= window_width
            invariant
                2 <= w <= window_width + 1,
                window_width <= 0x4000_0000,
                window_height >= 1,
                1 <= best_w < w,
                1 <= best_h,
                spec_is_min_fit(
                    tile_count as int,
                    best_w as int,
                    window_height as int,
                    best_h as int,
                ),
                best_ratio == best_w as int / best_h as int,
                best_ratio <= best_w,
                forall|w2: int, h2: int|
                    1 <= w2 < w && #[trigger] spec_is_min_fit(
                        tile_count as int,
                        w2,
                        window_height as int,
                        h2,
                    ) ==> w2 / h2 <= best_ratio,
            decreases window_width + 1 - w,
        {
            let h = min_fit_htc(tile_count, w, window_height);
            let ratio = w / h;
            proof {
                // The smallest fitting column count is unique, so every
                // fitting claim about this width gives the same ratio.
                assert forall|h2: int|
                    spec_is_min_fit(
                        tile_count as int,
                        w as int,
                        window_height as int,
                        h2,
                    ) implies h2 == h as int by {
                    if h2 < h as int {
                        assert(!spec_fits(tile_count as int, w as int, window_height as int, h2));
                    }
                    if h2 > h as int {
                        assert(!spec_fits(
                            tile_count as int,
                            w as int,
                            window_height as int,
                            h as int,
                        ));
                    }
                }
            }
            if ratio >= best_ratio {
                best_w = w;
                best_h = h;
                best_ratio = ratio;
            }
            w = w + 1;
        }
        proof {
            assert(spec_is_min_fit(
                tile_count as int,
                best_w as int,
                window_height as int,
                best_h as int,
            ));
            assert(1 <= best_w <= window_width);
        }
        let tile_height: u64 = best_ratio as u64 * 16 / 9;
        let result = LayoutEngine {
            window_width,
            window_height,
            horizontal_tile_count: best_h,
            tile_width: best_ratio,
            tile_height: tile_height as u32,
            tile_count,
        };
        proof {
            assert(spec_is_min_fit(
                result.tile_count as int,
                best_w as int,
                result.window_height as int,
                result.horizontal_tile_count as int,
            ));
            assert(result.tile_width == best_w as int / result.horizontal_tile_count as int);
        }
        result
    }

    /// Relays the tiles for a new number of streams.
    pub fn update_stream_count(&mut self, new_tile_count: u32)
        requires
            old(self).wf(),
            old(self).window_width <= 0x4000_0000,
        ensures
            final(self).wf(),
            final(self).tile_count == new_tile_count,
            final(self).window_width == old(self).window_width,
            final(self).window_height == old(self).window_height,
    {
        *self = LayoutEngine::new(self.window_width, self.window_height, new_tile_count);
    }

    /// Relays the tiles for a resized window.
    pub fn update_screen_size(&mut self, new_window_width: u32, new_window_height: u32)
        requires
            old(self).wf(),
            1 <= new_window_width <= 0x4000_0000,
            1 <= new_window_height,
        ensures
            final(self).wf(),
            final(self).tile_count == old(self).tile_count,
            final(self).window_width == new_window_width,
            final(self).window_height == new_window_height,
    {
        *self = LayoutEngine::new(new_window_width, new_window_height, self.tile_count);
    }

    /// The tile the cursor hovers over, if a stream is displayed there.
    pub fn cursor_is_over(
        &self,
        cursor_x: u32,
        cursor_y: u32,
        streams: &crate::streams::Streams,
    ) -> (r: Option<crate::streams::StreamOrdinal>)
        requires
            self.wf(),
        ensures
            ({
                let i = cursor_y as int / self.tile_height as int * self.horizontal_tile_count
                    + cursor_x as int / self.tile_width as int;
                &&& (self.tile_width >= 1 && self.tile_height >= 1 && i
                    < streams.streams@.len()) ==> r == Option::Some(
                    (crate::streams::StreamOrdinal { index: i as usize }),
                )
                &&& r is Some ==> r->0.index < streams.streams@.len()
            }),
    {
        let _count: usize = streams.stream_count();
        if self.tile_width == 0 || self.tile_height == 0 {
            return Option::None;
        }
        let tile_x: u64 = cursor_x as u64 / self.tile_width as u64;
        let tile_y: u64 = cursor_y as u64 / self.tile_height as u64;
        proof {
            assert(tile_x <= cursor_x as u64) by (nonlinear_arith)
                requires
                    tile_x == cursor_x as u64 / (self.tile_width as u64),
                    self.tile_width as u64 >= 1,
                    cursor_x as u64 >= 0,
            ;
            assert(tile_y <= cursor_y as u64) by (nonlinear_arith)
                requires
                    tile_y == cursor_y as u64 / (self.tile_height as u64),
                    self.tile_height as u64 >= 1,
                    cursor_y as u64 >= 0,
            ;
            assert(tile_y * (self.horizontal_tile_count as u64) <= 0xFFFF_FFFF * 0xFFFF_FFFF)
                by (nonlinear_arith)
                requires
                    0 <= tile_y,
                    tile_y <= 0xFFFF_FFFF,
                    0 <= self.horizontal_tile_count as u64,
                    self.horizontal_tile_count as u64 <= 0xFFFF_FFFF,
            ;
        }
        let i_wide: u64 = tile_y * (self.horizontal_tile_count as u64) + tile_x;
        if i_wide > usize::MAX as u64 {
            return Option::None;
        }
        streams.get_ordinal(i_wide as usize)
    }

    /// Where tile `i` sits in the window: tiles fill rows left to right,
    /// rows from the top of the window down.
    pub fn viewport_rect(&self, i: crate::streams::StreamOrdinal) -> (r: Rect)
        requires
            self.wf(),
            i.index <= u32::MAX,
            self.tile_width as int * ((i.index as int) % (self.horizontal_tile_count as int))
                <= u32::MAX,
            self.tile_height as int * ((i.index as int) / (self.horizontal_tile_count as int))
                <= self.window_height - self.tile_height,
        ensures
            r.left == self.tile_width as int * ((i.index as int) % (
            self.horizontal_tile_count as int)),
            r.bottom == self.window_height - self.tile_height - self.tile_height as int * ((
            i.index as int) / (self.horizontal_tile_count as int)),
            r.width == self.tile_width,
            r.height == self.tile_height,
    {
        let i32_: u32 = i.index as u32;
        let tile_x = self.tile_width * (i32_ % self.horizontal_tile_count);
        let tile_y = self.tile_height * (i32_ / self.horizontal_tile_count);
        let tile_y = self.window_height - self.tile_height - tile_y;
        Rect { left: tile_x, bottom: tile_y, width: self.tile_width, height: self.tile_height }
    }
}

/// The floor of the square root, for 64-bit values.
fn isqrt_u64(n: u64) -> (r: u64)
    requires
        n < 0x8000_0000_0000_0000,
    ensures
        r * r <= n < (r + 1) * (r + 1),
        r <= 0xFFFF_FFFF,
{
    let mut r: u64 = 0;
    let mut next: u64 = 1;
    while next <= n
        invariant
            r * r <= n,
            n < 0x8000_0000_0000_0000,
            r <= 0xB504_F333,
            next == (r + 1) * (r + 1),
        decreases n - r,
    {
        r = r + 1;
        proof {
            assert(r <= 0xB504_F333) by (nonlinear_arith)
                requires
                    r * r <= n,
                    n < 0x8000_0000_0000_0000,
                    r >= 1,
            ;
            assert((r + 1) * (r + 1) < 0xFFFF_FFFF_FFFF_FFFF) by (nonlinear_arith)
                requires
                    r + 1 <= 0xB504_F334,
            ;
            assert(r <= n) by (nonlinear_arith)
                requires
                    r * r <= n,
                    r >= 1,
            ;
        }
        next = (r + 1) * (r + 1);
    }
    r
}

/// An earlier layout search over the same candidates: for every effective
/// width the column count is not searched but guessed from the square root
/// of the area ratio, and only guesses whose rows fit are kept.
pub struct Layout {
    pub window_width: u32,
    pub window_height: u32,
    pub tile_count: u32,
    pub horizontal_tile_count: u32,
    pub tile_width: u32,
    pub tile_height: u32,
}

impl Layout {
    /// The stored tiling fits at some effective width within the window.
    pub open spec fn wf(self) -> bool {
        &&& 1 <= self.horizontal_tile_count
        &&& exists|w: int|
            1 <= w <= self.window_width && #[trigger] spec_fits(
                self.tile_count as int,
                w,
                self.window_height as int,
                self.horizontal_tile_count as int,
            ) && self.tile_width == w / self.horizontal_tile_count as int
        &&& self.tile_height == self.tile_width as int * 16 / 9
    }

    /// Lays out `tile_count` streams: every effective width is tried with a
    /// square-root column guess, and the fitting guess with the widest tile
    /// wins; when no guess fits, the smallest fitting column count at full
    /// width is used instead.
    pub fn new(window_width: u32, window_height: u32, tile_count: u32) -> (r: Layout)
        requires
            1 <= window_width <= 0x4000_0000,
            1 <= window_height,
        ensures
            r.wf(),
            r.window_width == window_width,
            r.window_height == window_height,
            r.tile_count == tile_count,
    {
        let mut found = false;
        let mut best_w: u32 = 1;
        let mut best_h: u32 = 1;
        let mut best_ratio: u32 = 0;
        let mut w: u32 = 1;
        while w <= window_width
            invariant
                1 <= w <= window_width + 1,
                window_width <= 0x4000_0000,
                window_height >= 1,
                found ==> 1 <= best_w <= window_width && 1 <= best_h && spec_fits(
                    tile_count as int,
                    best_w as int,
                    window_height as int,
                    best_h as int,
                ) && best_ratio == best_w as int / best_h as int,
            decreases window_width + 1 - w,
        {
            proof {
                assert(16 * (tile_count as int) * (w as int) <= 16 * 0xFFFF_FFFF * 0x4000_0000)
                    by (nonlinear_arith)
                    requires
                        0 <= tile_count as int <= 0xFFFF_FFFF,
                        0 <= w as int <= 0x4000_0000,
                ;
            }
            let area: u128 = 16u128 * tile_count as u128 * w as u128 / (window_height as u128
                * 9);
            proof {
                assert(area <= 16 * 0xFFFF_FFFF * 0x4000_0000 / 9) by (nonlinear_arith)
                    requires
                        area == 16 * (tile_count as int) * (w as int) / ((window_height as int)
                            * 9),
                        16 * (tile_count as int) * (w as int) <= 16 * 0xFFFF_FFFF * 0x4000_0000,
                        window_height as int >= 1,
                ;
            }
            let guess: u64 = 1 + isqrt_u64(area as u64);
            let ratio_ok = fits(tile_count, w, window_height, guess);
            if ratio_ok {
                let h = guess as u32;
                let ratio = w / h;
                proof {
                    assert((w as int / h as int) <= w as int) by (nonlinear_arith)
                        requires
                            h as int >= 1,
                            w as int >= 0,
                    ;
                }
                if !found || ratio >= best_ratio {
                    found = true;
                    best_w = w;
                    best_h = h;
                    best_ratio = ratio;
                }
            }
            w = w + 1;
        }
        if !found {
            best_w = window_width;
            best_h = min_fit_htc(tile_count, window_width, window_height);
            best_ratio = best_w / best_h;
            proof {
                assert((best_w as int / best_h as int) <= best_w as int) by (nonlinear_arith)
                    requires
                        best_h as int >= 1,
                        best_w as int >= 0,
                ;
            }
        }
        let tile_height: u64 = best_ratio as u64 * 16 / 9;
        let result = Layout {
            window_width,
            window_height,
            tile_count,
            horizontal_tile_count: best_h,
            tile_width: best_ratio,
            tile_height: tile_height as u32,
        };
        proof {
            assert(spec_fits(
                result.tile_count as int,
                best_w as int,
                result.window_height as int,
                result.horizontal_tile_count as int,
            ));
            assert(result.tile_width == best_w as int / result.horizontal_tile_count as int);
        }
        result
    }

    /// How many streams this layout tiles.
    pub fn tile_count(&self) -> (r: u32)
        ensures
            r == self.tile_count,
    {
        self.tile_count
    }

    /// Where tile `i` sits in the window: tiles fill rows left to right,
    /// rows from the top of the window down.
    pub fn viewport_rect(&self, i: u32) -> (r: Rect)
        requires
            self.wf(),
            self.tile_width as int * ((i as int) % (self.horizontal_tile_count as int))
                <= u32::MAX,
            self.tile_height as int * ((i as int) / (self.horizontal_tile_count as int))
                <= self.window_height - self.tile_height,
        ensures
            r.left == self.tile_width as int * ((i as int) % (
            self.horizontal_tile_count as int)),
            r.bottom == self.window_height - self.tile_height - self.tile_height as int * ((
            i as int) / (self.horizontal_tile_count as int)),
            r.width == self.tile_width,
            r.height == self.tile_height,
    {
        let tile_x = self.tile_width * (i % self.horizontal_tile_count);
        let tile_y = self.tile_height * (i / self.horizontal_tile_count);
        let tile_y = self.window_height - self.tile_height - tile_y;
        Rect { left: tile_x, bottom: tile_y, width: self.tile_width, height: self.tile_height }
    }
}

} // verus!
