use vstd::arithmetic::div_mod::lemma_fundamental_div_mod_converse;
use vstd::prelude::*;
use vstd::std_specs::ops::{AddSpec, DivSpec, MulSpec, SubSpec};

verus! {

/// A point in the plane, over any coordinate type.
///
/// Data and canvas geometry use `Point<i32>`; pixels use `Point<u32>`.
#[derive(Debug, Clone, Copy, PartialEq, Eq)]
pub struct Point<T> {
    pub x: T,
    pub y: T,
}

impl<T> Point<T> {
    pub fn new(x: T, y: T) -> (r: Point<T>)
        ensures
            r.x == x,
            r.y == y,
    {
        Point { x, y }
    }
}

/// The value of `v` narrowed to `u32`, saturating at both ends of its range.
pub open spec fn sat_u32(v: int) -> u32 {
    if v < 0 {
        0u32
    } else if v > u32::MAX as int {
        u32::MAX
    } else {
        v as u32
    }
}

/// The value of `v` narrowed to `i32`, saturating at both ends of its range.
pub open spec fn sat_i32(v: int) -> i32 {
    if v < i32::MIN as int {
        i32::MIN
    } else if v > i32::MAX as int {
        i32::MAX
    } else {
        v as i32
    }
}

/// The pixel that a point of signed coordinates narrows to.
pub open spec fn sat_point(x: int, y: int) -> Point<u32> {
    Point { x: sat_u32(x), y: sat_u32(y) }
}

/// Narrows to `u32`; values out of range saturate rather than wrap.
pub fn to_u32_saturating(v: i64) -> (r: u32)
    ensures
        r == sat_u32(v as int),
{
    if v < 0 {
        0
    } else if v > u32::MAX as i64 {
        u32::MAX
    } else {
        v as u32
    }
}

/// Narrows to `i32`; values out of range saturate rather than wrap.
pub fn to_i32_saturating(v: i64) -> (r: i32)
    ensures
        r == sat_i32(v as int),
{
    if v < i32::MIN as i64 {
        i32::MIN
    } else if v > i32::MAX as i64 {
        i32::MAX
    } else {
        v as i32
    }
}

/// Values that narrow to `u32`, saturating at both ends of its range.
pub trait UIntConvertable {
    spec fn value_spec(&self) -> int;

    fn convert_to_u32(&self) -> (r: u32)
        ensures
            r == sat_u32(self.value_spec()),
    ;
}

/// Values that narrow to `i32`, saturating at both ends of its range.
pub trait IntConvertable {
    spec fn int_value_spec(&self) -> int;

    fn convert_to_i32(&self) -> (r: i32)
        ensures
            r == sat_i32(self.int_value_spec()),
    ;
}

impl UIntConvertable for i64 {
    open spec fn value_spec(&self) -> int {
        *self as int
    }

    fn convert_to_u32(&self) -> (r: u32) {
        to_u32_saturating(*self)
    }
}

impl UIntConvertable for i32 {
    open spec fn value_spec(&self) -> int {
        *self as int
    }

    fn convert_to_u32(&self) -> (r: u32) {
        to_u32_saturating(*self as i64)
    }
}

impl IntConvertable for i64 {
    open spec fn int_value_spec(&self) -> int {
        *self as int
    }

    fn convert_to_i32(&self) -> (r: i32) {
        to_i32_saturating(*self)
    }
}

impl IntConvertable for u32 {
    open spec fn int_value_spec(&self) -> int {
        *self as int
    }

    fn convert_to_i32(&self) -> (r: i32) {
        to_i32_saturating(*self as i64)
    }
}

/// The `k`-th pixel of the rectangle `[from, to]`, walked column by column.
pub open spec fn rect_pixel(from: Point<u32>, height: int, k: int) -> Point<u32> {
    Point { x: (from.x + k / height) as u32, y: (from.y + k % height) as u32 }
}

/// `r` holds every pixel of the rectangle with corners `from` and `to` (narrowed to pixels),
/// column by column, each once.
pub open spec fn is_rect_fill(r: Seq<Point<u32>>, from: Point<i32>, to: Point<i32>) -> bool {
    let f = sat_point(from.x as int, from.y as int);
    let t = sat_point(to.x as int, to.y as int);
    let w = if f.x <= t.x { t.x - f.x + 1 } else { 0int };
    let h = if f.y <= t.y { t.y - f.y + 1 } else { 0int };
    &&& r.len() == w * h
    &&& forall|k: int| 0 <= k < r.len() ==> #[trigger] r[k] == rect_pixel(f, h, k)
}

impl Point<i64> {
    /// The pixel this point narrows to.
    pub fn to_pixel(&self) -> (r: Point<u32>)
        ensures
            r == sat_point(self.x as int, self.y as int),
    {
        Point { x: to_u32_saturating(self.x), y: to_u32_saturating(self.y) }
    }
}

impl Point<i32> {
    /// The pixel this point narrows to.
    pub fn to_pixel(&self) -> (r: Point<u32>)
        ensures
            r == sat_point(self.x as int, self.y as int),
    {
        Point { x: to_u32_saturating(self.x as i64), y: to_u32_saturating(self.y as i64) }
    }

    /// Every pixel of the rectangle with corners `from` and `to` (both included), column by
    /// column. The corners are narrowed to pixels first.
    pub fn range(from: &Point<i32>, to: &Point<i32>) -> (r: Vec<Point<u32>>)
        ensures
            is_rect_fill(r@, *from, *to),
    {
        let f = from.to_pixel();
        let t = to.to_pixel();
        let mut r: Vec<Point<u32>> = Vec::new();
        if f.x > t.x || f.y > t.y {
            proof {
                let w = if f.x <= t.x { t.x - f.x + 1 } else { 0int };
                let h = if f.y <= t.y { t.y - f.y + 1 } else { 0int };
                assert(w * h == 0) by (nonlinear_arith)
                    requires w == 0 || h == 0;
            }
            return r;
        }
        let ghost h: int = t.y - f.y + 1;
        let mut x: u64 = f.x as u64;
        while x <= t.x as u64
            invariant
                f.x <= x <= t.x + 1,
                f.y <= t.y,
                h == t.y - f.y + 1,
                r@.len() == (x - f.x) * h,
                forall|k: int| 0 <= k < r@.len() ==> #[trigger] r@[k] == rect_pixel(f, h, k),
            decreases t.x + 1 - x,
        {
            let mut y: u64 = f.y as u64;
            while y <= t.y as u64
                invariant
                    f.x <= x <= t.x,
                    f.y <= y <= t.y + 1,
                    h == t.y - f.y + 1,
                    r@.len() == (x - f.x) * h + (y - f.y),
                    forall|k: int| 0 <= k < r@.len() ==> #[trigger] r@[k] == rect_pixel(f, h, k),
                decreases t.y + 1 - y,
            {
                proof {
                    let k = r@.len() as int;
                    lemma_fundamental_div_mod_converse(k, h, (x - f.x) as int, (y - f.y) as int);
                }
                r.push(Point { x: x as u32, y: y as u32 });
                y = y + 1;
            }
            assert(r@.len() == (x - f.x + 1) * h) by (nonlinear_arith)
                requires
                    r@.len() == (x - f.x) * h + (y - f.y),
                    y == t.y + 1,
                    h == t.y - f.y + 1,
            ;
            x = x + 1;
        }
        r
    }

    /// Every pixel of the rectangle that `limits` spans, corners included.
    pub fn limit_range(limits: &crate::limits::Limits) -> (r: Vec<Point<u32>>)
        ensures
            is_rect_fill(r@, limits.lo(), limits.hi()),
    {
        Point::range(limits.min(), limits.max())
    }

    /// The nearest pixel; integer coordinates only narrow.
    pub fn round(&self) -> (r: Point<u32>)
        ensures
            r == sat_point(self.x as int, self.y as int),
    {
        self.to_pixel()
    }

    /// The smallest pixel not below this point; integer coordinates only narrow.
    pub fn ceil(&self) -> (r: Point<u32>)
        ensures
            r == sat_point(self.x as int, self.y as int),
    {
        self.to_pixel()
    }

    /// The largest pixel not above this point; integer coordinates only narrow.
    pub fn floor(&self) -> (r: Point<u32>)
        ensures
            r == sat_point(self.x as int, self.y as int),
    {
        self.to_pixel()
    }
}

impl<T: core::ops::Add<Output = T>> core::ops::Add for Point<T> {
    type Output = Point<T>;

    fn add(self, rhs: Point<T>) -> (r: Point<T>) {
        Point { x: self.x + rhs.x, y: self.y + rhs.y }
    }
}

impl<T: core::ops::Add<Output = T>> vstd::std_specs::ops::AddSpecImpl for Point<T> {
    open spec fn obeys_add_spec() -> bool {
        T::obeys_add_spec()
    }

    open spec fn add_req(self, rhs: Point<T>) -> bool {
        self.x.add_req(rhs.x) && self.y.add_req(rhs.y)
    }

    open spec fn add_spec(self, rhs: Point<T>) -> Point<T> {
        Point { x: self.x.add_spec(rhs.x), y: self.y.add_spec(rhs.y) }
    }
}

impl<T: core::ops::Sub<Output = T>> core::ops::Sub for Point<T> {
    type Output = Point<T>;

    fn sub(self, rhs: Point<T>) -> (r: Point<T>) {
        Point { x: self.x - rhs.x, y: self.y - rhs.y }
    }
}

impl<T: core::ops::Sub<Output = T>> vstd::std_specs::ops::SubSpecImpl for Point<T> {
    open spec fn obeys_sub_spec() -> bool {
        T::obeys_sub_spec()
    }

    open spec fn sub_req(self, rhs: Point<T>) -> bool {
        self.x.sub_req(rhs.x) && self.y.sub_req(rhs.y)
    }

    open spec fn sub_spec(self, rhs: Point<T>) -> Point<T> {
        Point { x: self.x.sub_spec(rhs.x), y: self.y.sub_spec(rhs.y) }
    }
}

impl<T: Copy + core::ops::Add<Output = T>> core::ops::Add<T> for Point<T> {
    type Output = Point<T>;

    fn add(self, rhs: T) -> (r: Point<T>) {
        Point { x: self.x + rhs, y: self.y + rhs }
    }
}

impl<T: Copy + core::ops::Add<Output = T>> vstd::std_specs::ops::AddSpecImpl<T> for Point<T> {
    open spec fn obeys_add_spec() -> bool {
        T::obeys_add_spec()
    }

    open spec fn add_req(self, rhs: T) -> bool {
        self.x.add_req(rhs) && self.y.add_req(rhs)
    }

    open spec fn add_spec(self, rhs: T) -> Point<T> {
        Point { x: self.x.add_spec(rhs), y: self.y.add_spec(rhs) }
    }
}

impl<T: Copy + core::ops::Sub<Output = T>> core::ops::Sub<T> for Point<T> {
    type Output = Point<T>;

    fn sub(self, rhs: T) -> (r: Point<T>) {
        Point { x: self.x - rhs, y: self.y - rhs }
    }
}

impl<T: Copy + core::ops::Sub<Output = T>> vstd::std_specs::ops::SubSpecImpl<T> for Point<T> {
    open spec fn obeys_sub_spec() -> bool {
        T::obeys_sub_spec()
    }

    open spec fn sub_req(self, rhs: T) -> bool {
        self.x.sub_req(rhs) && self.y.sub_req(rhs)
    }

    open spec fn sub_spec(self, rhs: T) -> Point<T> {
        Point { x: self.x.sub_spec(rhs), y: self.y.sub_spec(rhs) }
    }
}

impl<T: Copy + core::ops::Mul<Output = T>> core::ops::Mul<T> for Point<T> {
    type Output = Point<T>;

    fn mul(self, rhs: T) -> (r: Point<T>) {
        Point { x: self.x * rhs, y: self.y * rhs }
    }
}

impl<T: Copy + core::ops::Mul<Output = T>> vstd::std_specs::ops::MulSpecImpl<T> for Point<T> {
    open spec fn obeys_mul_spec() -> bool {
        T::obeys_mul_spec()
    }

    open spec fn mul_req(self, rhs: T) -> bool {
        self.x.mul_req(rhs) && self.y.mul_req(rhs)
    }

    open spec fn mul_spec(self, rhs: T) -> Point<T> {
        Point { x: self.x.mul_spec(rhs), y: self.y.mul_spec(rhs) }
    }
}

impl<T: Copy + core::ops::Div<Output = T>> core::ops::Div<T> for Point<T> {
    type Output = Point<T>;

    fn div(self, rhs: T) -> (r: Point<T>) {
        Point { x: self.x / rhs, y: self.y / rhs }
    }
}

impl<T: Copy + core::ops::Div<Output = T>> vstd::std_specs::ops::DivSpecImpl<T> for Point<T> {
    open spec fn obeys_div_spec() -> bool {
        T::obeys_div_spec()
    }

    open spec fn div_req(self, rhs: T) -> bool {
        self.x.div_req(rhs) && self.y.div_req(rhs)
    }

    open spec fn div_spec(self, rhs: T) -> Point<T> {
        Point { x: self.x.div_spec(rhs), y: self.y.div_spec(rhs) }
    }
}

} // verus!
