//! Finding dark targets in a decoded frame.
//!
//! The frame is scanned for dark pixels; each connected dark region is
//! flood-filled once and reported as a target at the mean coordinate of its
//! pixels.

use vstd::prelude::*;

verus! {

/// One decoded pixel.
#[derive(Copy, Clone, PartialEq, Eq, Structural, Debug)]
pub struct RgbPixel {
    pub r: u8,
    pub g: u8,
    pub b: u8,
}

/// A pixel counts as dark when the average of its channels falls under the
/// threshold.
pub open spec fn spec_is_dark(p: RgbPixel, dark_threshhold: u8) -> bool {
    p.r / 3 + p.g / 3 + p.b / 3 < dark_threshhold
}

/// A decoded frame as plain values: row-major pixels.
pub struct PixelGrid {
    pub width: u32,
    pub height: u32,
    pub data: Vec<RgbPixel>,
}

impl PixelGrid {
    /// One pixel per coordinate.
    pub open spec fn wf(self) -> bool {
        self.data@.len() == self.width as int * self.height as int
    }

    /// The pixel at a coordinate.
    pub fn pixel(&self, x: u32, y: u32) -> (r: RgbPixel)
        requires
            self.wf(),
            x < self.width,
            y < self.height,
        ensures
            r == self.data@[y as int * self.width as int + x as int],
    {
        proof {
            assert((y as int * self.width as int + x as int) < self.width as int
                * self.height as int) by (nonlinear_arith)
                requires
                    0 <= x as int,
                    (x as int) < self.width as int,
                    0 <= y as int,
                    (y as int) < self.height as int,
            ;
        }
        let _n: usize = self.data.len();
        let index: usize = (y as u64 * self.width as u64 + x as u64) as usize;
        self.data[index]
    }

    /// Whether the pixel at a coordinate is dark.
    pub fn is_dark(&self, x: u32, y: u32, dark_threshhold: u8) -> (r: bool)
        requires
            self.wf(),
            x < self.width,
            y < self.height,
        ensures
            r == spec_is_dark(self.data@[y as int * self.width as int + x as int],
                dark_threshhold),
    {
        let p = self.pixel(x, y);
        p.r / 3 + p.g / 3 + p.b / 3 < dark_threshhold
    }
}

/// The center of one dark region.
#[derive(Copy, Clone, PartialEq, Eq, Structural, Debug)]
pub struct Target {
    pub x: u32,
    pub y: u32,
}

/// How many cells are still unvisited.
pub open spec fn count_unseen(s: Seq<bool>) -> int
    decreases s.len(),
{
    if s.len() == 0 {
        0
    } else {
        count_unseen(s.drop_last()) + if s.last() {
            0int
        } else {
            1int
        }
    }
}

/// Marking an unvisited cell visited leaves one fewer unvisited cell.
proof fn lemma_count_unseen_update(s: Seq<bool>, i: int)
    requires
        0 <= i < s.len(),
        !s[i],
    ensures
        count_unseen(s.update(i, true)) == count_unseen(s) - 1,
    decreases s.len(),
{
    if i == s.len() - 1 {
        assert(s.update(i, true).drop_last() =~= s.drop_last());
    } else {
        assert(s.update(i, true).drop_last() =~= s.drop_last().update(i, true));
        lemma_count_unseen_update(s.drop_last(), i);
    }
}

/// Which pixels the scan has already visited.
pub struct HasSeen {
    pub width: usize,
    pub height: usize,
    pub data: Vec<bool>,
}

impl HasSeen {
    /// One flag per coordinate.
    pub open spec fn wf(self) -> bool {
        self.data@.len() == self.width as int * self.height as int
    }

    /// Nothing visited yet.
    pub fn new(width: usize, height: usize) -> (r: HasSeen)
        requires
            width * height <= usize::MAX,
        ensures
            r.wf(),
            r.width == width,
            r.height == height,
            forall|i: int| 0 <= i < r.data@.len() ==> !r.data@[i],
    {
        proof {
            assert(width as int * height as int >= 0) by (nonlinear_arith)
                requires
                    width as int >= 0,
                    height as int >= 0,
            ;
        }
        let n: usize = width * height;
        let mut data: Vec<bool> = Vec::new();
        let mut i: usize = 0;
        while i < n
            invariant
                i <= n,
                data@.len() == i,
                forall|j: int| 0 <= j < i ==> !data@[j],
            decreases n - i,
        {
            data.push(false);
            i = i + 1;
        }
        HasSeen { width, height, data }
    }

    /// Whether a coordinate was visited.
    pub fn get(&self, x: u32, y: u32) -> (r: bool)
        requires
            self.wf(),
            x < self.width,
            y < self.height,
        ensures
            r == self.data@[y as int * self.width as int + x as int],
    {
        proof {
            assert((y as int * self.width as int + x as int) < self.width as int
                * self.height as int) by (nonlinear_arith)
                requires
                    0 <= x as int,
                    (x as int) < self.width as int,
                    0 <= y as int,
                    (y as int) < self.height as int,
            ;
        }
        let _n: usize = self.data.len();
        let index: usize = (y as u64 * self.width as u64 + x as u64) as usize;
        self.data[index]
    }

    /// Marks a coordinate visited.
    pub fn mark_seen(&mut self, x: u32, y: u32)
        requires
            old(self).wf(),
            x < old(self).width,
            y < old(self).height,
        ensures
            final(self).wf(),
            final(self).width == old(self).width,
            final(self).height == old(self).height,
            final(self).data@ == old(self).data@.update(
                y as int * old(self).width as int + x as int,
                true,
            ),
    {
        proof {
            assert((y as int * self.width as int + x as int) < self.width as int
                * self.height as int) by (nonlinear_arith)
                requires
                    0 <= x as int,
                    (x as int) < self.width as int,
                    0 <= y as int,
                    (y as int) < self.height as int,
            ;
        }
        let _n: usize = self.data.len();
        let index: usize = (y as u64 * self.width as u64 + x as u64) as usize;
        let mut flag = self.data.remove(index);
        flag = true;
        self.data.insert(index, flag);
        proof {
            assert(self.data@ =~= old(self).data@.update(
                y as int * old(self).width as int + x as int,
                true,
            ));
        }
    }
}

/// Fills one connected dark region starting at a dark, unvisited pixel and
/// reports its center: the mean coordinate of the filled pixels.  Every
/// pixel visited stays visited, so no region is reported twice.
pub fn flood_fill(
    x: u32,
    y: u32,
    grid: &PixelGrid,
    dark_threshhold: u8,
    has_seen: &mut HasSeen,
    stack: &mut Vec<(u32, u32)>,
) -> (r: Option<Target>)
    requires
        grid.wf(),
        old(has_seen).wf(),
        old(has_seen).width == grid.width,
        old(has_seen).height == grid.height,
        x < grid.width,
        y < grid.height,
        !old(has_seen).data@[y as int * grid.width as int + x as int],
    ensures
        final(has_seen).wf(),
        final(has_seen).width == grid.width,
        final(has_seen).height == grid.height,
        // Visited pixels stay visited.
        forall|i: int|
            0 <= i < old(has_seen).data@.len() && old(has_seen).data@[i]
                ==> final(has_seen).data@[i],
        // The starting pixel is now visited.
        final(has_seen).data@[y as int * grid.width as int + x as int],
        r is Some,
        r->0.x < grid.width,
        r->0.y < grid.height,
{
    let ghost initial_seen = old(has_seen).data@;
    proof {
        assert((y as int * grid.width as int + x as int) < grid.width as int
            * grid.height as int) by (nonlinear_arith)
            requires
                0 <= x as int,
                (x as int) < grid.width as int,
                0 <= y as int,
                (y as int) < grid.height as int,
        ;
    }
    let width = grid.width;
    let height = grid.height;
    let mut top: u32 = y;
    let mut bottom: u32 = y;
    let mut left: u32 = x;
    let mut right: u32 = x;
    let mut x_sum: u128 = 0;
    let mut y_sum: u128 = 0;
    let mut pixels_filled: u64 = 0;

    stack.clear();
    stack.push((x, y));

    loop
        invariant
            grid.wf(),
            has_seen.wf(),
            has_seen.width == grid.width,
            has_seen.height == grid.height,
            width == grid.width,
            height == grid.height,
            forall|k: int|
                0 <= k < stack@.len() ==> (#[trigger] stack@[k]).0 < width && stack@[k].1 < height,
            initial_seen.len() == has_seen.data@.len(),
            initial_seen == old(has_seen).data@,
            (y as int * grid.width as int + x as int) < has_seen.data@.len(),
            forall|i: int| 0 <= i < initial_seen.len() && initial_seen[i] ==> has_seen.data@[i],
            pixels_filled == 0 ==> !has_seen.data@[y as int * grid.width as int + x as int]
                && stack@.len() > 0 && stack@[stack@.len() - 1] == (x, y),
            pixels_filled > 0 ==> has_seen.data@[y as int * grid.width as int + x as int],
            x_sum <= pixels_filled as int * (width as int - 1),
            y_sum <= pixels_filled as int * (height as int - 1),
            pixels_filled <= u64::MAX - 1,
        ensures
            pixels_filled >= 1,
            has_seen.wf(),
            has_seen.width == grid.width,
            has_seen.height == grid.height,
            forall|i: int| 0 <= i < initial_seen.len() && initial_seen[i] ==> has_seen.data@[i],
            has_seen.data@[y as int * grid.width as int + x as int],
            x_sum <= pixels_filled as int * (width as int - 1),
            y_sum <= pixels_filled as int * (height as int - 1),
        decreases count_unseen(has_seen.data@), stack@.len(),
    {
        proof {
            lemma_count_unseen_nonneg(has_seen.data@);
        }
        match stack.pop() {
            Option::None => {
                break ;
            },
            Option::Some((cx, cy)) => {
                if has_seen.get(cx, cy) {
                    // This pixel was colored after it was pushed.
                    continue ;
                }
                if pixels_filled == u64::MAX - 1 {
                    // Unreachable in practice; keeps the accumulators sound.
                    break ;
                }
                let ghost seen_before = has_seen.data@;
                let ghost old_filled = pixels_filled;
                has_seen.mark_seen(cx, cy);
                proof {
                    assert((cy as int * grid.width as int + cx as int) < grid.width as int
                        * grid.height as int) by (nonlinear_arith)
                        requires
                            0 <= cx as int,
                            (cx as int) < grid.width as int,
                            0 <= cy as int,
                            (cy as int) < grid.height as int,
                    ;
                    lemma_count_unseen_update(
                        seen_before,
                        cy as int * grid.width as int + cx as int,
                    );
                }
                pixels_filled = pixels_filled + 1;
                proof {
                    assert(x_sum + cx as int <= pixels_filled as int * (width as int - 1))
                        by (nonlinear_arith)
                        requires
                            x_sum <= (pixels_filled as int - 1) * (width as int - 1),
                            0 <= cx as int <= width as int - 1,
                            pixels_filled as int >= 1,
                    ;
                    assert(y_sum + cy as int <= pixels_filled as int * (height as int - 1))
                        by (nonlinear_arith)
                        requires
                            y_sum <= (pixels_filled as int - 1) * (height as int - 1),
                            0 <= cy as int <= height as int - 1,
                            pixels_filled as int >= 1,
                    ;
                    assert(pixels_filled as int * (width as int - 1) <= 0xFFFF_FFFF_FFFF_FFFF
                        * 0xFFFF_FFFF) by (nonlinear_arith)
                        requires
                            0 <= pixels_filled as int <= 0xFFFF_FFFF_FFFF_FFFF,
                            0 <= width as int - 1 <= 0xFFFF_FFFF,
                    ;
                    assert(pixels_filled as int * (height as int - 1) <= 0xFFFF_FFFF_FFFF_FFFF
                        * 0xFFFF_FFFF) by (nonlinear_arith)
                        requires
                            0 <= pixels_filled as int <= 0xFFFF_FFFF_FFFF_FFFF,
                            0 <= height as int - 1 <= 0xFFFF_FFFF,
                    ;
                }
                x_sum = x_sum + cx as u128;
                y_sum = y_sum + cy as u128;
                if cx < left {
                    left = cx;
                }
                if cy < top {
                    top = cy;
                }
                if cx > right {
                    right = cx;
                }
                if cy > bottom {
                    bottom = cy;
                }
                if cx > 0 && grid.is_dark(cx - 1, cy, dark_threshhold) {
                    stack.push((cx - 1, cy));
                }
                if cy > 0 && grid.is_dark(cx, cy - 1, dark_threshhold) {
                    stack.push((cx, cy - 1));
                }
                if cx + 1 < width && grid.is_dark(cx + 1, cy, dark_threshhold) {
                    stack.push((cx + 1, cy));
                }
                if cy + 1 < height && grid.is_dark(cx, cy + 1, dark_threshhold) {
                    stack.push((cx, cy + 1));
                }
                proof {
                    let idx = cy as int * grid.width as int + cx as int;
                    assert(has_seen.data@ == seen_before.update(idx, true));
                    assert forall|i: int|
                        0 <= i < initial_seen.len() && initial_seen[i] implies has_seen.data@[i] by {
                        assert(seen_before[i]);
                        assert(has_seen.data@[i] == seen_before.update(idx, true)[i]);
                    }
                    if old_filled == 0 {
                        assert(cx == x && cy == y);
                    }
                    assert(has_seen.data@[y as int * grid.width as int + x as int]
                        == seen_before.update(idx, true)[y as int * grid.width as int + x as int]);
                    assert(has_seen.data@[y as int * grid.width as int + x as int]);
                    lemma_count_unseen_nonneg(has_seen.data@);
                }
            },
        }
    }
    let mean_x: u64 = (x_sum / pixels_filled as u128) as u64;
    let mean_y: u64 = (y_sum / pixels_filled as u128) as u64;
    proof {
        assert(x_sum as int / pixels_filled as int <= width as int - 1) by (nonlinear_arith)
            requires
                x_sum as int <= pixels_filled as int * (width as int - 1),
                pixels_filled as int >= 1,
                x_sum as int >= 0,
        ;
        assert(y_sum as int / pixels_filled as int <= height as int - 1) by (nonlinear_arith)
            requires
                y_sum as int <= pixels_filled as int * (height as int - 1),
                pixels_filled as int >= 1,
                y_sum as int >= 0,
        ;
    }
    Option::Some(Target { x: mean_x as u32, y: mean_y as u32 })
}

/// The count of unvisited cells never goes negative.
proof fn lemma_count_unseen_nonneg(s: Seq<bool>)
    ensures
        count_unseen(s) >= 0,
    decreases s.len(),
{
    if s.len() > 0 {
        lemma_count_unseen_nonneg(s.drop_last());
    }
}

/// Scans the whole frame for dark regions: each connected dark region is
/// filled exactly once and reported as one target.
pub fn from_matrix(target_candidates: &PixelGrid, dark_threshhold: u8) -> (r: Vec<Target>)
    requires
        target_candidates.wf(),
        target_candidates.width as int * target_candidates.height as int <= usize::MAX,
    ensures
        forall|i: int|
            0 <= i < r@.len() ==> (#[trigger] r@[i]).x < target_candidates.width && r@[i].y
                < target_candidates.height,
{
    let width = target_candidates.width;
    let height = target_candidates.height;
    let mut stack: Vec<(u32, u32)> = Vec::new();
    let mut targets: Vec<Target> = Vec::new();
    let mut has_seen = HasSeen::new(width as usize, height as usize);
    let mut y: u32 = 0;
    while y < height
        invariant
            width == target_candidates.width,
            height == target_candidates.height,
            target_candidates.wf(),
            has_seen.wf(),
            has_seen.width == width,
            has_seen.height == height,
            forall|i: int|
                0 <= i < targets@.len() ==> (#[trigger] targets@[i]).x < width && targets@[i].y
                    < height,
        decreases height - y,
    {
        let mut x: u32 = 0;
        while x < width
            invariant
                y < height,
                width == target_candidates.width,
                height == target_candidates.height,
                target_candidates.wf(),
                has_seen.wf(),
                has_seen.width == width,
                has_seen.height == height,
                forall|i: int|
                    0 <= i < targets@.len() ==> (#[trigger] targets@[i]).x < width && targets@[i].y
                        < height,
            decreases width - x,
        {
            if target_candidates.is_dark(x, y, dark_threshhold) && !has_seen.get(x, y) {
                match flood_fill(x, y, target_candidates, dark_threshhold, &mut has_seen,
                    &mut stack) {
                    Option::Some(target) => {
                        targets.push(target);
                    },
                    Option::None => {},
                }
            }
            x = x + 1;
        }
        y = y + 1;
    }
    targets
}

} // verus!
