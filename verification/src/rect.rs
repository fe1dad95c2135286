//! Axis-aligned rectangles and points, with the clamping rules of SDL's
//! rectangle type, and the overlap test that the game uses for collisions.

use vstd::prelude::*;

verus! {

/// The largest coordinate or side length a rectangle may hold.
pub const MAX_INT_VALUE: u32 = 1073741823u32;

/// The smallest coordinate a rectangle or point may hold.
pub const MIN_INT_VALUE: i32 = -1073741824i32;

/// A side length as it is stored: zero becomes one, and lengths are capped.
pub open spec fn clamp_size(v: int) -> int {
    if v == 0 {
        1
    } else if v > MAX_INT_VALUE {
        MAX_INT_VALUE as int
    } else {
        v
    }
}

/// A coordinate as it is stored: kept within the representable range.
pub open spec fn clamp_position(v: int) -> int {
    if v > MAX_INT_VALUE {
        MAX_INT_VALUE as int
    } else if v < MIN_INT_VALUE {
        MIN_INT_VALUE as int
    } else {
        v
    }
}

/// The mathematical model of a rectangle: its top-left corner and its size.
pub struct RectView {
    pub x: int,
    pub y: int,
    pub w: int,
    pub h: int,
}

impl RectView {
    /// Every rectangle satisfies these bounds.
    pub open spec fn wf(self) -> bool {
        &&& MIN_INT_VALUE <= self.x <= MAX_INT_VALUE
        &&& MIN_INT_VALUE <= self.y <= MAX_INT_VALUE
        &&& 1 <= self.w <= MAX_INT_VALUE
        &&& 1 <= self.h <= MAX_INT_VALUE
    }

    pub open spec fn left(self) -> int {
        self.x
    }

    pub open spec fn right(self) -> int {
        self.x + self.w
    }

    pub open spec fn top(self) -> int {
        self.y
    }

    pub open spec fn bottom(self) -> int {
        self.y + self.h
    }

    /// The rectangle that `Rect::new` builds from these arguments.
    pub open spec fn from_args(x: int, y: int, w: int, h: int) -> RectView {
        RectView {
            x: clamp_position(x),
            y: clamp_position(y),
            w: clamp_size(w),
            h: clamp_size(h),
        }
    }
}

/// The mathematical model of a point.
pub struct PointView {
    pub x: int,
    pub y: int,
}

/// A rectangle with integer position and positive size.
#[derive(Clone, Copy, Debug, PartialEq, Eq, Structural)]
pub struct Rect {
    x: i32,
    y: i32,
    w: i32,
    h: i32,
}

impl View for Rect {
    type V = RectView;

    closed spec fn view(&self) -> RectView {
        RectView { x: self.x as int, y: self.y as int, w: self.w as int, h: self.h as int }
    }
}

impl Rect {
    /// Every rectangle is well formed (see `RectView::wf`).
    #[verifier::type_invariant]
    pub open spec fn inv(self) -> bool {
        self@.wf()
    }

    /// Builds a rectangle; a zero side becomes one, and all values are
    /// clamped to the representable range.
    pub fn new(x: i32, y: i32, width: u32, height: u32) -> (r: Rect)
        ensures
            r@ == RectView::from_args(x as int, y as int, width as int, height as int),
    {
        let cx = if x > 1073741823i32 {
            1073741823i32
        } else if x < MIN_INT_VALUE {
            MIN_INT_VALUE
        } else {
            x
        };
        let cy = if y > 1073741823i32 {
            1073741823i32
        } else if y < MIN_INT_VALUE {
            MIN_INT_VALUE
        } else {
            y
        };
        let cw: i32 = if width == 0 {
            1
        } else if width > MAX_INT_VALUE {
            1073741823i32
        } else {
            width as i32
        };
        let ch: i32 = if height == 0 {
            1
        } else if height > MAX_INT_VALUE {
            1073741823i32
        } else {
            height as i32
        };
        Rect { x: cx, y: cy, w: cw, h: ch }
    }

    pub fn x(&self) -> (r: i32)
        ensures
            r == self@.x,
    {
        self.x
    }

    pub fn y(&self) -> (r: i32)
        ensures
            r == self@.y,
    {
        self.y
    }

    pub fn width(&self) -> (r: u32)
        ensures
            r == self@.w,
    {
        proof {
            use_type_invariant(self);
        }
        self.w as u32
    }

    pub fn height(&self) -> (r: u32)
        ensures
            r == self@.h,
    {
        proof {
            use_type_invariant(self);
        }
        self.h as u32
    }

    pub fn left(&self) -> (r: i32)
        ensures
            r == self@.left(),
    {
        self.x
    }

    pub fn right(&self) -> (r: i32)
        ensures
            r == self@.right(),
    {
        proof {
            use_type_invariant(self);
        }
        self.x + self.w
    }

    pub fn top(&self) -> (r: i32)
        ensures
            r == self@.top(),
    {
        self.y
    }

    pub fn bottom(&self) -> (r: i32)
        ensures
            r == self@.bottom(),
    {
        proof {
            use_type_invariant(self);
        }
        self.y + self.h
    }

    /// The center, rounded down towards the top-left corner, then clamped as
    /// every point is.
    pub fn center(&self) -> (p: Point)
        ensures
            p@ == (PointView {
                x: clamp_position(self@.x + self@.w / 2),
                y: clamp_position(self@.y + self@.h / 2),
            }),
    {
        proof {
            use_type_invariant(self);
        }
        Point::new(self.x + self.w / 2, self.y + self.h / 2)
    }
}

/// A point with integer coordinates.
#[derive(Clone, Copy, Debug, PartialEq, Eq, Structural)]
pub struct Point {
    x: i32,
    y: i32,
}

impl View for Point {
    type V = PointView;

    closed spec fn view(&self) -> PointView {
        PointView { x: self.x as int, y: self.y as int }
    }
}

impl Point {
    /// Builds a point, clamping both coordinates to the representable range.
    pub fn new(x: i32, y: i32) -> (p: Point)
        ensures
            p@ == (PointView { x: clamp_position(x as int), y: clamp_position(y as int) }),
    {
        let cx = if x > 1073741823i32 {
            1073741823i32
        } else if x < MIN_INT_VALUE {
            MIN_INT_VALUE
        } else {
            x
        };
        let cy = if y > 1073741823i32 {
            1073741823i32
        } else if y < MIN_INT_VALUE {
            MIN_INT_VALUE
        } else {
            y
        };
        Point { x: cx, y: cy }
    }

    pub fn x(&self) -> (r: i32)
        ensures
            r == self@.x,
    {
        self.x
    }

    pub fn y(&self) -> (r: i32)
        ensures
            r == self@.y,
    {
        self.y
    }
}

/// Two rectangles collide when neither lies wholly above, below, to the
/// left or to the right of the other; touching edges count as a collision.
pub open spec fn rects_collide(a: RectView, b: RectView) -> bool {
    !(a.bottom() < b.top() || a.top() > b.bottom() || a.right() < b.left() || a.left() > b.right())
}

/// Collision test between two rectangles.
pub fn check_collision(a: &Rect, b: &Rect) -> (res: bool)
    ensures
        res == rects_collide(a@, b@),
{
    if a.bottom() < b.top() || a.top() > b.bottom() || a.right() < b.left() || a.left() > b.right() {
        false
    } else {
        true
    }
}

/// Clamping keeps every value that a rectangle can hold and only moves the
/// others to the nearest bound: a zero side becomes one.
pub proof fn lemma_clamp_keeps_valid(v: int)
    ensures
        1 <= v <= MAX_INT_VALUE ==> clamp_size(v) == v,
        v == 0 ==> clamp_size(v) == 1,
        v > MAX_INT_VALUE ==> clamp_size(v) == MAX_INT_VALUE,
        MIN_INT_VALUE <= v <= MAX_INT_VALUE ==> clamp_position(v) == v,
        v > MAX_INT_VALUE ==> clamp_position(v) == MAX_INT_VALUE,
        v < MIN_INT_VALUE ==> clamp_position(v) == MIN_INT_VALUE,
        v >= 0 ==> RectView::from_args(0, 0, v, v).wf(),
{
}

/// Collision is symmetric: `a` collides with `b` exactly when `b` collides with `a`.
pub proof fn lemma_collision_symmetric(a: RectView, b: RectView)
    ensures
        rects_collide(a, b) == rects_collide(b, a),
{
}

/// Every well-formed rectangle collides with itself.
pub proof fn lemma_collision_reflexive(a: RectView)
    requires
        a.wf(),
    ensures
        rects_collide(a, a),
{
}

/// A rectangle collides with another exactly when their closed extents
/// overlap on both axes.
pub proof fn lemma_collision_overlap(a: RectView, b: RectView)
    ensures
        rects_collide(a, b) <==> (
            a.left() <= b.right() && b.left() <= a.right()
            && a.top() <= b.bottom() && b.top() <= a.bottom()
        ),
{
}

} // verus!
