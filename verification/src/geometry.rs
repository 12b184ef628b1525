//! Integer pixel geometry: points, rectangles and fixed-point split ratios.

use vstd::prelude::*;

verus! {

/// One whole, in the fixed-point unit that split ratios are stored in.
pub const RATIO_SCALE: u32 = 1_000_000;

/// Smallest share of a split that its first child may take (10%).
pub const MIN_SPLIT_RATIO: u32 = 100_000;

/// Largest share of a split that its first child may take (90%).
pub const MAX_SPLIT_RATIO: u32 = 900_000;

/// Share given to the first child of a freshly made split (50%).
pub const DEFAULT_SPLIT_RATIO: u32 = 500_000;

/// Thickness of the divider between two panes, in pixels.
pub const DIVIDER_WIDTH: i32 = 4;

/// Direction of a split in the layout tree.
#[derive(Debug, Clone, Copy, PartialEq, Eq, Structural)]
pub enum SplitDirection {
    /// Left | Right split.
    Horizontal,
    /// Top / Bottom split.
    Vertical,
}

/// A pixel position.
#[derive(Debug, Clone, Copy, PartialEq, Eq, Structural)]
pub struct Pos {
    pub x: i32,
    pub y: i32,
}

/// An axis-aligned rectangle given by two corners. It holds the pixels `p`
/// with `min.x <= p.x < max.x` and `min.y <= p.y < max.y`; a rectangle whose
/// `max` lies before its `min` on either axis holds none.
#[derive(Debug, Clone, Copy, PartialEq, Eq, Structural)]
pub struct Rect {
    pub min: Pos,
    pub max: Pos,
}

/// `v` forced into the range of a pixel coordinate.
pub open spec fn clamp_px(v: int) -> int {
    if v < i32::MIN as int {
        i32::MIN as int
    } else if v > i32::MAX as int {
        i32::MAX as int
    } else {
        v
    }
}

/// `ratio` forced into the range that a split may store.
pub open spec fn clamp_ratio_spec(ratio: u32) -> u32 {
    if ratio < MIN_SPLIT_RATIO {
        MIN_SPLIT_RATIO
    } else if ratio > MAX_SPLIT_RATIO {
        MAX_SPLIT_RATIO
    } else {
        ratio
    }
}

/// The share `ratio / RATIO_SCALE` of `extent`, rounded toward zero.
pub open spec fn proportion_spec(extent: int, ratio: int) -> int {
    if extent >= 0 {
        (extent * ratio) / (RATIO_SCALE as int)
    } else {
        -(((-extent) * ratio) / (RATIO_SCALE as int))
    }
}

/// A coordinate computed in 64 bits, saturated into a pixel coordinate.
pub fn saturate_px(v: i64) -> (r: i32)
    ensures
        r as int == clamp_px(v as int),
{
    if v < i32::MIN as i64 {
        i32::MIN
    } else if v > i32::MAX as i64 {
        i32::MAX
    } else {
        v as i32
    }
}

/// Forces a ratio into `[MIN_SPLIT_RATIO, MAX_SPLIT_RATIO]`.
#[verifier::when_used_as_spec(clamp_ratio_spec)]
pub fn clamp_ratio(ratio: u32) -> (r: u32)
    ensures
        r == clamp_ratio_spec(ratio),
        MIN_SPLIT_RATIO <= r <= MAX_SPLIT_RATIO,
{
    if ratio < MIN_SPLIT_RATIO {
        MIN_SPLIT_RATIO
    } else if ratio > MAX_SPLIT_RATIO {
        MAX_SPLIT_RATIO
    } else {
        ratio
    }
}

/// The share `ratio / RATIO_SCALE` of `extent`, rounded toward zero.
pub fn proportion(extent: i64, ratio: u32) -> (r: i64)
    requires
        -0x2_0000_0000 <= extent <= 0x2_0000_0000,
        ratio <= RATIO_SCALE,
    ensures
        r as int == proportion_spec(extent as int, ratio as int),
{
    proof {
        lemma_proportion_bounds(extent as int, ratio as int);
    }
    let scale: i64 = RATIO_SCALE as i64;
    let ratio64: i64 = ratio as i64;
    if extent >= 0 {
        assert(0 <= extent * ratio64 <= 0x2_0000_0000 * 1_000_000) by (nonlinear_arith)
            requires
                0 <= extent <= 0x2_0000_0000,
                0 <= ratio64 <= 1_000_000,
        ;
        (extent * ratio64) / scale
    } else {
        let pos: i64 = -extent;
        assert(0 <= pos * ratio64 <= 0x2_0000_0000 * 1_000_000) by (nonlinear_arith)
            requires
                0 <= pos <= 0x2_0000_0000,
                0 <= ratio64 <= 1_000_000,
        ;
        -((pos * ratio64) / scale)
    }
}

/// A share of an extent lies between zero and the extent, and is off the
/// exact share by less than one pixel.
pub proof fn lemma_proportion_bounds(extent: int, ratio: int)
    requires
        0 <= ratio <= RATIO_SCALE,
    ensures
        extent >= 0 ==> 0 <= proportion_spec(extent, ratio) <= extent,
        extent <= 0 ==> extent <= proportion_spec(extent, ratio) <= 0,
        extent >= 0 ==> extent * ratio - RATIO_SCALE < proportion_spec(extent, ratio) * RATIO_SCALE
            <= extent * ratio,
        extent <= 0 ==> extent * ratio <= proportion_spec(extent, ratio) * RATIO_SCALE < extent
            * ratio + RATIO_SCALE,
{
    let scale = RATIO_SCALE as int;
    let e = if extent >= 0 { extent } else { -extent };
    let q = (e * ratio) / scale;
    assert(0 <= e * ratio <= e * scale) by (nonlinear_arith)
        requires
            0 <= e,
            0 <= ratio <= scale,
    ;
    assert(0 <= q <= e && e * ratio - scale < q * scale <= e * ratio) by (nonlinear_arith)
        requires
            q == (e * ratio) / scale,
            0 <= e * ratio <= e * scale,
            scale == 1_000_000,
    ;
    if extent < 0 {
        assert(extent * ratio == -(e * ratio)) by (nonlinear_arith)
            requires
                e == -extent,
        ;
        assert(proportion_spec(extent, ratio) * scale == -(q * scale)) by (nonlinear_arith)
            requires
                proportion_spec(extent, ratio) == -q,
        ;
    }
}

impl Pos {
    pub fn new(x: i32, y: i32) -> (p: Pos)
        ensures
            p == (Pos { x, y }),
    {
        Pos { x, y }
    }
}

impl Rect {
    /// Extent along the x axis; negative where `max` lies left of `min`.
    pub open spec fn spec_width(&self) -> int {
        self.max.x - self.min.x
    }

    /// Extent along the y axis; negative where `max` lies above `min`.
    pub open spec fn spec_height(&self) -> int {
        self.max.y - self.min.y
    }

    /// Whether the pixel `p` lies in the rectangle.
    pub open spec fn spec_contains(&self, p: Pos) -> bool {
        self.min.x <= p.x < self.max.x && self.min.y <= p.y < self.max.y
    }

    /// Whether the rectangle holds no pixel.
    pub open spec fn is_empty(self) -> bool {
        self.max.x <= self.min.x || self.max.y <= self.min.y
    }

    /// Whether every pixel of `self` lies in `outer`.
    pub open spec fn within(self, outer: Rect) -> bool {
        forall|p: Pos| #[trigger] self.spec_contains(p) ==> outer.spec_contains(p)
    }

    /// Whether no pixel lies in both rectangles.
    pub open spec fn disjoint(self, other: Rect) -> bool {
        forall|p: Pos| !(#[trigger] self.spec_contains(p) && other.spec_contains(p))
    }

    /// The rectangle with corner `min` and the given size, each far corner
    /// saturated into the coordinate range.
    pub open spec fn spec_from_min_size(min: Pos, width: int, height: int) -> Rect {
        Rect {
            min,
            max: Pos {
                x: clamp_px(min.x + width) as i32,
                y: clamp_px(min.y + height) as i32,
            },
        }
    }

    pub fn new(min: Pos, max: Pos) -> (r: Rect)
        ensures
            r == (Rect { min, max }),
    {
        Rect { min, max }
    }

    /// The rectangle with corner `min` and the given size.
    pub fn from_min_size(min: Pos, width: i64, height: i64) -> (r: Rect)
        requires
            -0x4_0000_0000 <= width <= 0x4_0000_0000,
            -0x4_0000_0000 <= height <= 0x4_0000_0000,
        ensures
            r == Rect::spec_from_min_size(min, width as int, height as int),
    {
        Rect {
            min,
            max: Pos {
                x: saturate_px(min.x as i64 + width),
                y: saturate_px(min.y as i64 + height),
            },
        }
    }

    pub fn width(&self) -> (w: i64)
        ensures
            w as int == self.spec_width(),
    {
        self.max.x as i64 - self.min.x as i64
    }

    pub fn height(&self) -> (h: i64)
        ensures
            h as int == self.spec_height(),
    {
        self.max.y as i64 - self.min.y as i64
    }

    /// Whether the pixel `p` lies in the rectangle.
    #[verifier::when_used_as_spec(spec_contains)]
    pub fn contains(&self, p: Pos) -> (b: bool)
        ensures
            b == self.spec_contains(p),
    {
        self.min.x <= p.x && p.x < self.max.x && self.min.y <= p.y && p.y < self.max.y
    }
}

/// How many of the rectangles hold the pixel `p`.
pub open spec fn holders(rects: Seq<Rect>, p: Pos) -> nat
    decreases rects.len(),
{
    if rects.len() == 0 {
        0
    } else {
        holders(rects.drop_last(), p) + if rects.last().spec_contains(p) {
            1nat
        } else {
            0nat
        }
    }
}

/// The holders of a pixel among two lists of rectangles add up.
pub proof fn lemma_holders_concat(a: Seq<Rect>, b: Seq<Rect>, p: Pos)
    ensures
        holders(a + b, p) == holders(a, p) + holders(b, p),
    decreases b.len(),
{
    if b.len() == 0 {
        assert(a + b =~= a);
    } else {
        assert((a + b).drop_last() =~= a + b.drop_last());
        assert((a + b).last() == b.last());
        lemma_holders_concat(a, b.drop_last(), p);
    }
}

/// One rectangle holds a pixel once or not at all.
pub proof fn lemma_holders_single(r: Rect, p: Pos)
    ensures
        holders(seq![r], p) == if r.spec_contains(p) {
            1nat
        } else {
            0nat
        },
{
    assert(seq![r].drop_last() =~= Seq::<Rect>::empty());
    assert(seq![r].last() == r);
    assert(holders(Seq::<Rect>::empty(), p) == 0);
}

/// Each rectangle that holds a pixel counts among its holders, so two
/// different rectangles of a list that both hold it make at least two.
pub proof fn lemma_holders_two(rects: Seq<Rect>, p: Pos, i: int, j: int)
    requires
        0 <= i < j < rects.len(),
        rects[i].spec_contains(p),
        rects[j].spec_contains(p),
    ensures
        holders(rects, p) >= 2,
    decreases rects.len(),
{
    if j == rects.len() - 1 {
        lemma_holders_one(rects.drop_last(), p, i);
    } else {
        lemma_holders_two(rects.drop_last(), p, i, j);
    }
}

/// A rectangle of a list that holds a pixel makes at least one holder.
pub proof fn lemma_holders_one(rects: Seq<Rect>, p: Pos, i: int)
    requires
        0 <= i < rects.len(),
        rects[i].spec_contains(p),
    ensures
        holders(rects, p) >= 1,
    decreases rects.len(),
{
    if i < rects.len() - 1 {
        lemma_holders_one(rects.drop_last(), p, i);
    }
}

/// A pixel with a holder is held by some rectangle of the list.
pub proof fn lemma_holders_witness(rects: Seq<Rect>, p: Pos) -> (i: int)
    requires
        holders(rects, p) >= 1,
    ensures
        0 <= i < rects.len(),
        rects[i].spec_contains(p),
    decreases rects.len(),
{
    if rects.last().spec_contains(p) {
        rects.len() - 1
    } else {
        lemma_holders_witness(rects.drop_last(), p)
    }
}

/// Whether two positions lie at least `distance` apart, measured in a
/// straight line.
pub open spec fn apart(from: Pos, to: Pos, distance: int) -> bool {
    (to.x - from.x) * (to.x - from.x) + (to.y - from.y) * (to.y - from.y) >= distance * distance
}

/// Whether two positions lie at least `distance` apart.
pub fn is_apart(from: Pos, to: Pos, distance: i64) -> (far: bool)
    requires
        0 < distance <= 0x1000_0000,
    ensures
        far == apart(from, to, distance as int),
{
    let dx: i64 = to.x as i64 - from.x as i64;
    let dy: i64 = to.y as i64 - from.y as i64;
    if dx >= distance || dx <= -distance || dy >= distance || dy <= -distance {
        assert(dx * dx + dy * dy >= distance * distance) by (nonlinear_arith)
            requires
                dx >= distance || dx <= -distance || dy >= distance || dy <= -distance,
                distance > 0,
        ;
        true
    } else {
        assert(0 <= dx * dx <= distance * distance && 0 <= dy * dy <= distance * distance
            && distance * distance <= 0x1000_0000 * 0x1000_0000) by (nonlinear_arith)
            requires
                -distance < dx < distance,
                -distance < dy < distance,
                0 < distance <= 0x1000_0000,
        ;
        dx * dx + dy * dy >= distance * distance
    }
}

} // verus!
