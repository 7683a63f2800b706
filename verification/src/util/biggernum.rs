use vstd::prelude::*;

verus! {

/// Truncating division, as the machine computes it for signed integers: the
/// quotient is rounded towards zero.
pub open spec fn div_toward_zero(a: int, b: int) -> int
    recommends
        b > 0,
{
    if a >= 0 {
        a / b
    } else {
        -((-a) / b)
    }
}

/// The share of the range `[start, stop]` that lies below `point`, in whole
/// percent, rounded down.
pub open spec fn percent_of_range(start: int, stop: int, point: int) -> int
    recommends
        start <= point <= stop,
        start < stop,
{
    (100 * (point - start)) / (stop - start)
}

/// The point of the range from `start` to `stop` that lies `percent` percent
/// of the way from `start`, the offset rounded towards zero.
pub open spec fn point_of_range(percent: int, start: int, stop: int) -> int {
    div_toward_zero(percent * (stop - start), 100) + start
}

/// `percent_of_range` never leaves the percent scale.
pub proof fn lemma_percent_of_range_bounds(start: int, stop: int, point: int)
    requires
        start <= point <= stop,
        start < stop,
    ensures
        0 <= percent_of_range(start, stop, point) <= 100,
{
    let len = stop - start;
    let off = point - start;
    assert(0 <= 100 * off <= 100 * len);
    assert((100 * off) / len <= 100) by (nonlinear_arith)
        requires
            0 <= 100 * off <= 100 * len,
            len > 0,
    ;
    assert(0 <= (100 * off) / len) by (nonlinear_arith)
        requires
            0 <= 100 * off,
            len > 0,
    ;
}

/// `point_of_range` stays between the two ends of the range, whichever of the
/// two is the larger.
pub proof fn lemma_point_of_range_bounds(percent: int, start: int, stop: int)
    requires
        0 <= percent <= 100,
    ensures
        start <= stop ==> start <= point_of_range(percent, start, stop) <= stop,
        stop <= start ==> stop <= point_of_range(percent, start, stop) <= start,
{
    let span = stop - start;
    if span >= 0 {
        assert(0 <= percent * span <= 100 * span) by (nonlinear_arith)
            requires
                0 <= percent <= 100,
                span >= 0,
        ;
        assert(0 <= (percent * span) / 100 <= span);
    } else {
        let back = -span;
        assert(percent * span == -(percent * back)) by (nonlinear_arith)
            requires
                back == -span,
        ;
        assert(0 <= percent * back <= 100 * back) by (nonlinear_arith)
            requires
                0 <= percent <= 100,
                back > 0,
        ;
        assert(0 <= (percent * back) / 100 <= back);
        if percent * span < 0 {
            assert(-(percent * span) == percent * back);
        } else {
            assert(percent * back == 0);
        }
    }
}

/// A number type that has a wider type in which differences and products by
/// one hundred of its values can be computed exactly.
pub trait BiggerNum: Sized + Copy {
    /// The wider type.
    type Next: From<Self>;

    /// The number as a mathematical integer.
    spec fn as_int(self) -> int;

    /// Whether a range from `start` to `stop` can be measured in this type.
    spec fn range_ok(start: Self, stop: Self) -> bool;

    /// `percent_of_range` on machine numbers.
    fn percent_in_range(start: Self, stop: Self, point: Self) -> (percent: u8)
        requires
            start.as_int() <= point.as_int() <= stop.as_int(),
            start.as_int() < stop.as_int(),
        ensures
            percent as int == percent_of_range(start.as_int(), stop.as_int(), point.as_int()),
            percent <= 100,
    ;

    /// `point_of_range` on machine numbers.
    fn point_in_range(percent: u8, start: Self, stop: Self) -> (point: Self)
        requires
            percent <= 100,
            Self::range_ok(start, stop),
        ensures
            point.as_int() == point_of_range(percent as int, start.as_int(), stop.as_int()),
    ;
}

impl BiggerNum for u8 {
    type Next = u16;

    open spec fn as_int(self) -> int {
        self as int
    }

    open spec fn range_ok(start: u8, stop: u8) -> bool {
        start <= stop
    }

    fn percent_in_range(start: u8, stop: u8, point: u8) -> (percent: u8) {
        proof {
            lemma_percent_of_range_bounds(start as int, stop as int, point as int);
        }
        let length: u16 = stop as u16 - start as u16;
        let percent: u16 = (100u16 * (point as u16 - start as u16)) / length;
        percent as u8
    }

    fn point_in_range(percent: u8, start: u8, stop: u8) -> (point: u8) {
        proof {
            lemma_point_of_range_bounds(percent as int, start as int, stop as int);
        }
        let span: u16 = stop as u16 - start as u16;
        assert(percent * span <= 100 * 0xff) by (nonlinear_arith)
            requires
                percent <= 100,
                span <= 0xff,
        ;
        let point: u16 = (percent as u16 * span) / 100u16 + start as u16;
        point as u8
    }
}

impl BiggerNum for u16 {
    type Next = u32;

    open spec fn as_int(self) -> int {
        self as int
    }

    open spec fn range_ok(start: u16, stop: u16) -> bool {
        start <= stop
    }

    fn percent_in_range(start: u16, stop: u16, point: u16) -> (percent: u8) {
        proof {
            lemma_percent_of_range_bounds(start as int, stop as int, point as int);
        }
        let length: u32 = stop as u32 - start as u32;
        let percent: u32 = (100u32 * (point as u32 - start as u32)) / length;
        percent as u8
    }

    fn point_in_range(percent: u8, start: u16, stop: u16) -> (point: u16) {
        proof {
            lemma_point_of_range_bounds(percent as int, start as int, stop as int);
        }
        let span: u32 = stop as u32 - start as u32;
        assert(percent * span <= 100 * 0xffff) by (nonlinear_arith)
            requires
                percent <= 100,
                span <= 0xffff,
        ;
        let point: u32 = (percent as u32 * span) / 100u32 + start as u32;
        point as u16
    }
}

impl BiggerNum for u32 {
    type Next = u64;

    open spec fn as_int(self) -> int {
        self as int
    }

    open spec fn range_ok(start: u32, stop: u32) -> bool {
        start <= stop
    }

    fn percent_in_range(start: u32, stop: u32, point: u32) -> (percent: u8) {
        proof {
            lemma_percent_of_range_bounds(start as int, stop as int, point as int);
        }
        let length: u64 = stop as u64 - start as u64;
        let percent: u64 = (100u64 * (point as u64 - start as u64)) / length;
        percent as u8
    }

    fn point_in_range(percent: u8, start: u32, stop: u32) -> (point: u32) {
        proof {
            lemma_point_of_range_bounds(percent as int, start as int, stop as int);
        }
        let span: u64 = stop as u64 - start as u64;
        assert(percent * span <= 100 * 0xffffffff) by (nonlinear_arith)
            requires
                percent <= 100,
                span <= 0xffffffff,
        ;
        let point: u64 = (percent as u64 * span) / 100u64 + start as u64;
        point as u32
    }
}

impl BiggerNum for u64 {
    type Next = u128;

    open spec fn as_int(self) -> int {
        self as int
    }

    open spec fn range_ok(start: u64, stop: u64) -> bool {
        start <= stop
    }

    fn percent_in_range(start: u64, stop: u64, point: u64) -> (percent: u8) {
        proof {
            lemma_percent_of_range_bounds(start as int, stop as int, point as int);
        }
        let length: u128 = stop as u128 - start as u128;
        let percent: u128 = (100u128 * (point as u128 - start as u128)) / length;
        percent as u8
    }

    fn point_in_range(percent: u8, start: u64, stop: u64) -> (point: u64) {
        proof {
            lemma_point_of_range_bounds(percent as int, start as int, stop as int);
        }
        let span: u128 = stop as u128 - start as u128;
        assert(percent * span <= 100 * 0xffffffffffffffff) by (nonlinear_arith)
            requires
                percent <= 100,
                span <= 0xffffffffffffffff,
        ;
        let point: u128 = (percent as u128 * span) / 100u128 + start as u128;
        point as u64
    }
}

impl BiggerNum for i8 {
    type Next = i16;

    open spec fn as_int(self) -> int {
        self as int
    }

    open spec fn range_ok(start: i8, stop: i8) -> bool {
        true
    }

    fn percent_in_range(start: i8, stop: i8, point: i8) -> (percent: u8) {
        proof {
            lemma_percent_of_range_bounds(start as int, stop as int, point as int);
        }
        let length: i16 = stop as i16 - start as i16;
        let offset: i16 = point as i16 - start as i16;
        assert(0 <= 100 * offset <= 100 * 0xff) by (nonlinear_arith)
            requires
                0 <= offset <= 0xff,
        ;
        let percent: i16 = (100i16 * offset) / length;
        percent as u8
    }

    fn point_in_range(percent: u8, start: i8, stop: i8) -> (point: i8) {
        proof {
            lemma_point_of_range_bounds(percent as int, start as int, stop as int);
        }
        let span: i16 = stop as i16 - start as i16;
        assert(-100 * 0xff <= percent * span <= 100 * 0xff) by (nonlinear_arith)
            requires
                0 <= percent <= 100,
                -0xff <= span <= 0xff,
        ;
        let point: i16 = (percent as i16 * span) / 100i16 + start as i16;
        point as i8
    }
}

impl BiggerNum for i16 {
    type Next = i32;

    open spec fn as_int(self) -> int {
        self as int
    }

    open spec fn range_ok(start: i16, stop: i16) -> bool {
        true
    }

    fn percent_in_range(start: i16, stop: i16, point: i16) -> (percent: u8) {
        proof {
            lemma_percent_of_range_bounds(start as int, stop as int, point as int);
        }
        let length: i32 = stop as i32 - start as i32;
        let offset: i32 = point as i32 - start as i32;
        assert(0 <= 100 * offset <= 100 * 0xffff) by (nonlinear_arith)
            requires
                0 <= offset <= 0xffff,
        ;
        let percent: i32 = (100i32 * offset) / length;
        percent as u8
    }

    fn point_in_range(percent: u8, start: i16, stop: i16) -> (point: i16) {
        proof {
            lemma_point_of_range_bounds(percent as int, start as int, stop as int);
        }
        let span: i32 = stop as i32 - start as i32;
        assert(-100 * 0xffff <= percent * span <= 100 * 0xffff) by (nonlinear_arith)
            requires
                0 <= percent <= 100,
                -0xffff <= span <= 0xffff,
        ;
        let point: i32 = (percent as i32 * span) / 100i32 + start as i32;
        point as i16
    }
}

impl BiggerNum for i32 {
    type Next = i64;

    open spec fn as_int(self) -> int {
        self as int
    }

    open spec fn range_ok(start: i32, stop: i32) -> bool {
        true
    }

    fn percent_in_range(start: i32, stop: i32, point: i32) -> (percent: u8) {
        proof {
            lemma_percent_of_range_bounds(start as int, stop as int, point as int);
        }
        let length: i64 = stop as i64 - start as i64;
        let offset: i64 = point as i64 - start as i64;
        assert(0 <= 100 * offset <= 100 * 0xffffffff) by (nonlinear_arith)
            requires
                0 <= offset <= 0xffffffff,
        ;
        let percent: i64 = (100i64 * offset) / length;
        percent as u8
    }

    fn point_in_range(percent: u8, start: i32, stop: i32) -> (point: i32) {
        proof {
            lemma_point_of_range_bounds(percent as int, start as int, stop as int);
        }
        let span: i64 = stop as i64 - start as i64;
        assert(-100 * 0xffffffff <= percent * span <= 100 * 0xffffffff) by (nonlinear_arith)
            requires
                0 <= percent <= 100,
                -0xffffffff <= span <= 0xffffffff,
        ;
        let point: i64 = (percent as i64 * span) / 100i64 + start as i64;
        point as i32
    }
}

impl BiggerNum for i64 {
    type Next = i128;

    open spec fn as_int(self) -> int {
        self as int
    }

    open spec fn range_ok(start: i64, stop: i64) -> bool {
        true
    }

    fn percent_in_range(start: i64, stop: i64, point: i64) -> (percent: u8) {
        proof {
            lemma_percent_of_range_bounds(start as int, stop as int, point as int);
        }
        let length: i128 = stop as i128 - start as i128;
        let offset: i128 = point as i128 - start as i128;
        assert(0 <= 100 * offset <= 100 * 0xffffffffffffffff) by (nonlinear_arith)
            requires
                0 <= offset <= 0xffffffffffffffff,
        ;
        let percent: i128 = (100i128 * offset) / length;
        percent as u8
    }

    fn point_in_range(percent: u8, start: i64, stop: i64) -> (point: i64) {
        proof {
            lemma_point_of_range_bounds(percent as int, start as int, stop as int);
        }
        let span: i128 = stop as i128 - start as i128;
        assert(-100 * 0xffffffffffffffff <= percent * span <= 100 * 0xffffffffffffffff) by (nonlinear_arith)
            requires
                0 <= percent <= 100,
                -0xffffffffffffffff <= span <= 0xffffffffffffffff,
        ;
        let point: i128 = (percent as i128 * span) / 100i128 + start as i128;
        point as i64
    }
}

} // verus!
