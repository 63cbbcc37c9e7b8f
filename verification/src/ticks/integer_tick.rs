use super::decimal::{decimal_text, format_signed};
use vstd::arithmetic::div_mod::{lemma_fundamental_div_mod, lemma_fundamental_div_mod_converse};
use vstd::prelude::*;

verus! {

/// The largest multiple of `step` that is at most `lo` (for a positive step).
pub open spec fn floor_multiple(lo: int, step: int) -> int
    recommends
        step > 0,
{
    (lo / step) * step
}

/// The smallest multiple of `step` that is at least `lo` (for a positive step).
pub open spec fn first_multiple(lo: int, step: int) -> int {
    if floor_multiple(lo, step) == lo {
        lo
    } else {
        floor_multiple(lo, step) + step
    }
}

/// For a negative value, rounding the quotient towards zero gives the
/// smallest multiple of the step at least the value, which lies in `[lo, 0]`.
pub proof fn lemma_align_up_negative(lo: int, step: int)
    requires
        lo < 0,
        step > 0,
    ensures
        -((-lo) / step) * step == first_multiple(lo, step),
        lo <= first_multiple(lo, step) <= 0,
{
    lemma_fundamental_div_mod(-lo, step);
    let q = (-lo) / step;
    let r = (-lo) % step;
    assert(q >= 0) by (nonlinear_arith)
        requires
            -lo == step * q + r,
            0 <= r < step,
            lo < 0,
    ;
    assert(step * q == q * step) by (nonlinear_arith);
    if r == 0 {
        assert(lo == (-q) * step + 0) by (nonlinear_arith)
            requires
                -lo == step * q,
        ;
        lemma_fundamental_div_mod_converse(lo, step, -q, 0);
        assert(floor_multiple(lo, step) == (-q) * step);
        assert((-q) * step == lo);
        assert(-q * step == (-q) * step) by (nonlinear_arith);
    } else {
        assert(lo == (-q - 1) * step + (step - r)) by (nonlinear_arith)
            requires
                -lo == step * q + r,
        ;
        lemma_fundamental_div_mod_converse(lo, step, -q - 1, step - r);
        assert(floor_multiple(lo, step) == (-q - 1) * step);
        assert((-q - 1) * step + step == -q * step) by (nonlinear_arith);
        assert((-q - 1) * step != lo);
    }
    assert(-q * step <= 0) by (nonlinear_arith)
        requires
            q >= 0,
            step > 0,
    ;
    assert(lo <= -q * step) by (nonlinear_arith)
        requires
            -lo == step * q + r,
            0 <= r,
    ;
}

/// Aligning a non-negative value stays between zero and the value.
pub proof fn lemma_align_nonnegative(lo: int, step: int)
    requires
        lo >= 0,
        step > 0,
    ensures
        0 <= floor_multiple(lo, step) <= lo,
{
    lemma_fundamental_div_mod(lo, step);
    let q = lo / step;
    assert(q >= 0) by (nonlinear_arith)
        requires
            lo >= 0,
            step > 0,
            lo == step * q + lo % step,
            0 <= lo % step < step,
    ;
    assert(q * step == step * q) by (nonlinear_arith);
    assert(0 <= q * step) by (nonlinear_arith)
        requires
            q >= 0,
            step > 0,
    ;
}

/// Aligning a negative value by rounding `lo - step + 1` towards zero gives
/// the largest multiple of the step at most `lo`, which lies above `lo - step`.
pub proof fn lemma_align_negative(lo: int, step: int)
    requires
        lo < 0,
        step > 0,
    ensures
        -((-(lo - step + 1)) / step) * step == floor_multiple(lo, step),
        lo - step < floor_multiple(lo, step) <= lo,
{
    lemma_fundamental_div_mod(lo, step);
    let q = lo / step;
    let r = lo % step;
    assert(step * q == q * step) by (nonlinear_arith);
    assert(-(lo - step + 1) == (-q) * step + (step - 1 - r)) by (nonlinear_arith)
        requires
            lo == step * q + r,
    ;
    lemma_fundamental_div_mod_converse(-(lo - step + 1), step, -q, step - 1 - r);
    assert(-(-q) * step == q * step) by (nonlinear_arith);
}

/// Type-specific operations for integer tick generation.
pub trait IntegerTick: Copy + Sized {
    /// The mathematical value of a tick.
    spec fn int_value(self) -> int;

    /// The smallest value of the type.
    spec fn min_int() -> int;

    /// The largest value of the type.
    spec fn max_int() -> int;

    /// Every value lies between the type's bounds; the bounds hold zero and
    /// the positive values up to 127.
    proof fn lemma_bounds(self)
        ensures
            Self::min_int() <= self.int_value() <= Self::max_int(),
            Self::min_int() <= 0,
            Self::max_int() >= 127,
            Self::max_int() - Self::min_int() <= u128::MAX,
            Self::min_int() == 0 || (Self::min_int() == -(Self::max_int() + 1) && Self::min_int()
                % 5 != 0),
    ;

    /// The largest value of the type, widened.
    fn max_as_u128() -> (r: u128)
        ensures
            r == Self::max_int(),
    ;

    /// Compute the unsigned range between two ordered values.
    fn unsigned_range(lo: Self, hi: Self) -> (r: u128)
        requires
            lo.int_value() <= hi.int_value(),
        ensures
            r == hi.int_value() - lo.int_value(),
    ;

    /// Convert a u128 step size to Self. The value is guaranteed to fit within the data range.
    fn from_u128(value: u128) -> (r: Self)
        requires
            value <= Self::max_int(),
        ensures
            r.int_value() == value,
    ;

    /// Align `lo` down to the nearest multiple of `step`.
    fn align_start(lo: Self, step: Self) -> (r: Self)
        requires
            step.int_value() > 0,
            lo.int_value() < 0 ==> lo.int_value() - step.int_value() >= Self::min_int(),
        ensures
            r.int_value() == floor_multiple(lo.int_value(), step.int_value()),
    ;

    /// The smallest multiple of `step` at least `lo`, if the type holds it.
    fn align_up(lo: Self, step: Self) -> (r: Option<Self>)
        requires
            step.int_value() > 0,
        ensures
            r is Some <==> first_multiple(lo.int_value(), step.int_value()) <= Self::max_int(),
            r matches Some(v) ==> v.int_value() == first_multiple(
                lo.int_value(),
                step.int_value(),
            ),
    ;

    /// Checked addition.
    fn checked_add(self, step: Self) -> (r: Option<Self>)
        ensures
            r is Some <==> self.int_value() + step.int_value() <= Self::max_int()
                && self.int_value() + step.int_value() >= Self::min_int(),
            r matches Some(v) ==> v.int_value() == self.int_value() + step.int_value(),
    ;

    /// Compares two values: `self <= other`.
    fn at_most(self, other: Self) -> (r: bool)
        ensures
            r == (self.int_value() <= other.int_value()),
    ;

    /// Compares two values: `self == other`.
    fn same(self, other: Self) -> (r: bool)
        ensures
            r == (self.int_value() == other.int_value()),
    ;

    /// Writes the value in decimal.
    fn to_decimal(self) -> (s: String)
        ensures
            s@ == decimal_text(self.int_value()),
    ;
}

impl IntegerTick for i8 {
    fn max_as_u128() -> (r: u128) {
        i8::MAX as u128
    }

    open spec fn int_value(self) -> int {
        self as int
    }

    open spec fn min_int() -> int {
        i8::MIN as int
    }

    open spec fn max_int() -> int {
        i8::MAX as int
    }

    proof fn lemma_bounds(self) {
    }

    fn unsigned_range(lo: Self, hi: Self) -> (r: u128) {
        (hi as i128 - lo as i128) as u128
    }

    fn from_u128(value: u128) -> (r: Self) {
        value as i8
    }

    fn align_start(lo: Self, step: Self) -> (r: Self) {
        if lo >= 0 {
            proof {
                lemma_align_nonnegative(lo as int, step as int);
            }
            (lo / step) * step
        } else {
            proof {
                lemma_align_negative(lo as int, step as int);
            }
            ((lo - step + 1) / step) * step
        }
    }

    fn align_up(lo: Self, step: Self) -> (r: Option<Self>) {
        if lo < 0 {
            proof {
                lemma_align_up_negative(lo as int, step as int);
            }
            Some((lo / step) * step)
        } else {
            let down = Self::align_start(lo, step);
            if down == lo {
                Some(lo)
            } else {
                down.checked_add(step)
            }
        }
    }

    fn checked_add(self, step: Self) -> (r: Option<Self>) {
        self.checked_add(step)
    }

    fn at_most(self, other: Self) -> (r: bool) {
        self <= other
    }

    fn same(self, other: Self) -> (r: bool) {
        self == other
    }

    fn to_decimal(self) -> (s: String) {
        if self < 0 {
            format_signed(true, (-(self as i128 + 1)) as u128 + 1)
        } else {
            format_signed(false, self as u128)
        }
    }
}

impl IntegerTick for u8 {
    fn max_as_u128() -> (r: u128) {
        u8::MAX as u128
    }

    open spec fn int_value(self) -> int {
        self as int
    }

    open spec fn min_int() -> int {
        0
    }

    open spec fn max_int() -> int {
        u8::MAX as int
    }

    proof fn lemma_bounds(self) {
    }

    fn unsigned_range(lo: Self, hi: Self) -> (r: u128) {
        (hi - lo) as u128
    }

    fn from_u128(value: u128) -> (r: Self) {
        value as u8
    }

    fn align_start(lo: Self, step: Self) -> (r: Self) {
        proof {
            lemma_align_nonnegative(lo as int, step as int);
        }
        (lo / step) * step
    }

    fn align_up(lo: Self, step: Self) -> (r: Option<Self>) {
        let down = Self::align_start(lo, step);
        if down == lo {
            Some(lo)
        } else {
            down.checked_add(step)
        }
    }

    fn checked_add(self, step: Self) -> (r: Option<Self>) {
        self.checked_add(step)
    }

    fn at_most(self, other: Self) -> (r: bool) {
        self <= other
    }

    fn same(self, other: Self) -> (r: bool) {
        self == other
    }

    fn to_decimal(self) -> (s: String) {
        format_signed(false, self as u128)
    }
}

impl IntegerTick for i16 {
    fn max_as_u128() -> (r: u128) {
        i16::MAX as u128
    }

    open spec fn int_value(self) -> int {
        self as int
    }

    open spec fn min_int() -> int {
        i16::MIN as int
    }

    open spec fn max_int() -> int {
        i16::MAX as int
    }

    proof fn lemma_bounds(self) {
    }

    fn unsigned_range(lo: Self, hi: Self) -> (r: u128) {
        (hi as i128 - lo as i128) as u128
    }

    fn from_u128(value: u128) -> (r: Self) {
        value as i16
    }

    fn align_start(lo: Self, step: Self) -> (r: Self) {
        if lo >= 0 {
            proof {
                lemma_align_nonnegative(lo as int, step as int);
            }
            (lo / step) * step
        } else {
            proof {
                lemma_align_negative(lo as int, step as int);
            }
            ((lo - step + 1) / step) * step
        }
    }

    fn align_up(lo: Self, step: Self) -> (r: Option<Self>) {
        if lo < 0 {
            proof {
                lemma_align_up_negative(lo as int, step as int);
            }
            Some((lo / step) * step)
        } else {
            let down = Self::align_start(lo, step);
            if down == lo {
                Some(lo)
            } else {
                down.checked_add(step)
            }
        }
    }

    fn checked_add(self, step: Self) -> (r: Option<Self>) {
        self.checked_add(step)
    }

    fn at_most(self, other: Self) -> (r: bool) {
        self <= other
    }

    fn same(self, other: Self) -> (r: bool) {
        self == other
    }

    fn to_decimal(self) -> (s: String) {
        if self < 0 {
            format_signed(true, (-(self as i128 + 1)) as u128 + 1)
        } else {
            format_signed(false, self as u128)
        }
    }
}

impl IntegerTick for i32 {
    fn max_as_u128() -> (r: u128) {
        i32::MAX as u128
    }

    open spec fn int_value(self) -> int {
        self as int
    }

    open spec fn min_int() -> int {
        i32::MIN as int
    }

    open spec fn max_int() -> int {
        i32::MAX as int
    }

    proof fn lemma_bounds(self) {
    }

    fn unsigned_range(lo: Self, hi: Self) -> (r: u128) {
        (hi as i128 - lo as i128) as u128
    }

    fn from_u128(value: u128) -> (r: Self) {
        value as i32
    }

    fn align_start(lo: Self, step: Self) -> (r: Self) {
        if lo >= 0 {
            proof {
                lemma_align_nonnegative(lo as int, step as int);
            }
            (lo / step) * step
        } else {
            proof {
                lemma_align_negative(lo as int, step as int);
            }
            ((lo - step + 1) / step) * step
        }
    }

    fn align_up(lo: Self, step: Self) -> (r: Option<Self>) {
        if lo < 0 {
            proof {
                lemma_align_up_negative(lo as int, step as int);
            }
            Some((lo / step) * step)
        } else {
            let down = Self::align_start(lo, step);
            if down == lo {
                Some(lo)
            } else {
                down.checked_add(step)
            }
        }
    }

    fn checked_add(self, step: Self) -> (r: Option<Self>) {
        self.checked_add(step)
    }

    fn at_most(self, other: Self) -> (r: bool) {
        self <= other
    }

    fn same(self, other: Self) -> (r: bool) {
        self == other
    }

    fn to_decimal(self) -> (s: String) {
        if self < 0 {
            format_signed(true, (-(self as i128 + 1)) as u128 + 1)
        } else {
            format_signed(false, self as u128)
        }
    }
}

impl IntegerTick for i64 {
    fn max_as_u128() -> (r: u128) {
        i64::MAX as u128
    }

    open spec fn int_value(self) -> int {
        self as int
    }

    open spec fn min_int() -> int {
        i64::MIN as int
    }

    open spec fn max_int() -> int {
        i64::MAX as int
    }

    proof fn lemma_bounds(self) {
    }

    fn unsigned_range(lo: Self, hi: Self) -> (r: u128) {
        (hi as i128 - lo as i128) as u128
    }

    fn from_u128(value: u128) -> (r: Self) {
        value as i64
    }

    fn align_start(lo: Self, step: Self) -> (r: Self) {
        if lo >= 0 {
            proof {
                lemma_align_nonnegative(lo as int, step as int);
            }
            (lo / step) * step
        } else {
            proof {
                lemma_align_negative(lo as int, step as int);
            }
            ((lo - step + 1) / step) * step
        }
    }

    fn align_up(lo: Self, step: Self) -> (r: Option<Self>) {
        if lo < 0 {
            proof {
                lemma_align_up_negative(lo as int, step as int);
            }
            Some((lo / step) * step)
        } else {
            let down = Self::align_start(lo, step);
            if down == lo {
                Some(lo)
            } else {
                down.checked_add(step)
            }
        }
    }

    fn checked_add(self, step: Self) -> (r: Option<Self>) {
        self.checked_add(step)
    }

    fn at_most(self, other: Self) -> (r: bool) {
        self <= other
    }

    fn same(self, other: Self) -> (r: bool) {
        self == other
    }

    fn to_decimal(self) -> (s: String) {
        if self < 0 {
            format_signed(true, (-(self as i128 + 1)) as u128 + 1)
        } else {
            format_signed(false, self as u128)
        }
    }
}

impl IntegerTick for i128 {
    fn max_as_u128() -> (r: u128) {
        i128::MAX as u128
    }

    open spec fn int_value(self) -> int {
        self as int
    }

    open spec fn min_int() -> int {
        i128::MIN as int
    }

    open spec fn max_int() -> int {
        i128::MAX as int
    }

    proof fn lemma_bounds(self) {
    }

    fn unsigned_range(lo: Self, hi: Self) -> (r: u128) {
        if lo >= 0 || hi < 0 {
            (hi - lo) as u128
        } else {
            hi as u128 + ((-(lo + 1)) as u128 + 1)
        }
    }

    fn from_u128(value: u128) -> (r: Self) {
        value as i128
    }

    fn align_start(lo: Self, step: Self) -> (r: Self) {
        if lo >= 0 {
            proof {
                lemma_align_nonnegative(lo as int, step as int);
            }
            (lo / step) * step
        } else {
            proof {
                lemma_align_negative(lo as int, step as int);
            }
            ((lo - step + 1) / step) * step
        }
    }

    fn align_up(lo: Self, step: Self) -> (r: Option<Self>) {
        if lo < 0 {
            proof {
                lemma_align_up_negative(lo as int, step as int);
            }
            Some((lo / step) * step)
        } else {
            let down = Self::align_start(lo, step);
            if down == lo {
                Some(lo)
            } else {
                down.checked_add(step)
            }
        }
    }

    fn checked_add(self, step: Self) -> (r: Option<Self>) {
        self.checked_add(step)
    }

    fn at_most(self, other: Self) -> (r: bool) {
        self <= other
    }

    fn same(self, other: Self) -> (r: bool) {
        self == other
    }

    fn to_decimal(self) -> (s: String) {
        if self < 0 {
            format_signed(true, (-(self as i128 + 1)) as u128 + 1)
        } else {
            format_signed(false, self as u128)
        }
    }
}

impl IntegerTick for isize {
    fn max_as_u128() -> (r: u128) {
        isize::MAX as u128
    }

    open spec fn int_value(self) -> int {
        self as int
    }

    open spec fn min_int() -> int {
        isize::MIN as int
    }

    open spec fn max_int() -> int {
        isize::MAX as int
    }

    proof fn lemma_bounds(self) {
    }

    fn unsigned_range(lo: Self, hi: Self) -> (r: u128) {
        (hi as i128 - lo as i128) as u128
    }

    fn from_u128(value: u128) -> (r: Self) {
        value as isize
    }

    fn align_start(lo: Self, step: Self) -> (r: Self) {
        if lo >= 0 {
            proof {
                lemma_align_nonnegative(lo as int, step as int);
            }
            (lo / step) * step
        } else {
            proof {
                lemma_align_negative(lo as int, step as int);
            }
            ((lo - step + 1) / step) * step
        }
    }

    fn align_up(lo: Self, step: Self) -> (r: Option<Self>) {
        if lo < 0 {
            proof {
                lemma_align_up_negative(lo as int, step as int);
            }
            Some((lo / step) * step)
        } else {
            let down = Self::align_start(lo, step);
            if down == lo {
                Some(lo)
            } else {
                down.checked_add(step)
            }
        }
    }

    fn checked_add(self, step: Self) -> (r: Option<Self>) {
        self.checked_add(step)
    }

    fn at_most(self, other: Self) -> (r: bool) {
        self <= other
    }

    fn same(self, other: Self) -> (r: bool) {
        self == other
    }

    fn to_decimal(self) -> (s: String) {
        if self < 0 {
            format_signed(true, (-(self as i128 + 1)) as u128 + 1)
        } else {
            format_signed(false, self as u128)
        }
    }
}

impl IntegerTick for u16 {
    fn max_as_u128() -> (r: u128) {
        u16::MAX as u128
    }

    open spec fn int_value(self) -> int {
        self as int
    }

    open spec fn min_int() -> int {
        0
    }

    open spec fn max_int() -> int {
        u16::MAX as int
    }

    proof fn lemma_bounds(self) {
    }

    fn unsigned_range(lo: Self, hi: Self) -> (r: u128) {
        (hi - lo) as u128
    }

    fn from_u128(value: u128) -> (r: Self) {
        value as u16
    }

    fn align_start(lo: Self, step: Self) -> (r: Self) {
        proof {
            lemma_align_nonnegative(lo as int, step as int);
        }
        (lo / step) * step
    }

    fn align_up(lo: Self, step: Self) -> (r: Option<Self>) {
        let down = Self::align_start(lo, step);
        if down == lo {
            Some(lo)
        } else {
            down.checked_add(step)
        }
    }

    fn checked_add(self, step: Self) -> (r: Option<Self>) {
        self.checked_add(step)
    }

    fn at_most(self, other: Self) -> (r: bool) {
        self <= other
    }

    fn same(self, other: Self) -> (r: bool) {
        self == other
    }

    fn to_decimal(self) -> (s: String) {
        format_signed(false, self as u128)
    }
}

impl IntegerTick for u32 {
    fn max_as_u128() -> (r: u128) {
        u32::MAX as u128
    }

    open spec fn int_value(self) -> int {
        self as int
    }

    open spec fn min_int() -> int {
        0
    }

    open spec fn max_int() -> int {
        u32::MAX as int
    }

    proof fn lemma_bounds(self) {
    }

    fn unsigned_range(lo: Self, hi: Self) -> (r: u128) {
        (hi - lo) as u128
    }

    fn from_u128(value: u128) -> (r: Self) {
        value as u32
    }

    fn align_start(lo: Self, step: Self) -> (r: Self) {
        proof {
            lemma_align_nonnegative(lo as int, step as int);
        }
        (lo / step) * step
    }

    fn align_up(lo: Self, step: Self) -> (r: Option<Self>) {
        let down = Self::align_start(lo, step);
        if down == lo {
            Some(lo)
        } else {
            down.checked_add(step)
        }
    }

    fn checked_add(self, step: Self) -> (r: Option<Self>) {
        self.checked_add(step)
    }

    fn at_most(self, other: Self) -> (r: bool) {
        self <= other
    }

    fn same(self, other: Self) -> (r: bool) {
        self == other
    }

    fn to_decimal(self) -> (s: String) {
        format_signed(false, self as u128)
    }
}

impl IntegerTick for u64 {
    fn max_as_u128() -> (r: u128) {
        u64::MAX as u128
    }

    open spec fn int_value(self) -> int {
        self as int
    }

    open spec fn min_int() -> int {
        0
    }

    open spec fn max_int() -> int {
        u64::MAX as int
    }

    proof fn lemma_bounds(self) {
    }

    fn unsigned_range(lo: Self, hi: Self) -> (r: u128) {
        (hi - lo) as u128
    }

    fn from_u128(value: u128) -> (r: Self) {
        value as u64
    }

    fn align_start(lo: Self, step: Self) -> (r: Self) {
        proof {
            lemma_align_nonnegative(lo as int, step as int);
        }
        (lo / step) * step
    }

    fn align_up(lo: Self, step: Self) -> (r: Option<Self>) {
        let down = Self::align_start(lo, step);
        if down == lo {
            Some(lo)
        } else {
            down.checked_add(step)
        }
    }

    fn checked_add(self, step: Self) -> (r: Option<Self>) {
        self.checked_add(step)
    }

    fn at_most(self, other: Self) -> (r: bool) {
        self <= other
    }

    fn same(self, other: Self) -> (r: bool) {
        self == other
    }

    fn to_decimal(self) -> (s: String) {
        format_signed(false, self as u128)
    }
}

impl IntegerTick for u128 {
    fn max_as_u128() -> (r: u128) {
        u128::MAX as u128
    }

    open spec fn int_value(self) -> int {
        self as int
    }

    open spec fn min_int() -> int {
        0
    }

    open spec fn max_int() -> int {
        u128::MAX as int
    }

    proof fn lemma_bounds(self) {
    }

    fn unsigned_range(lo: Self, hi: Self) -> (r: u128) {
        (hi - lo) as u128
    }

    fn from_u128(value: u128) -> (r: Self) {
        value as u128
    }

    fn align_start(lo: Self, step: Self) -> (r: Self) {
        proof {
            lemma_align_nonnegative(lo as int, step as int);
        }
        (lo / step) * step
    }

    fn align_up(lo: Self, step: Self) -> (r: Option<Self>) {
        let down = Self::align_start(lo, step);
        if down == lo {
            Some(lo)
        } else {
            down.checked_add(step)
        }
    }

    fn checked_add(self, step: Self) -> (r: Option<Self>) {
        self.checked_add(step)
    }

    fn at_most(self, other: Self) -> (r: bool) {
        self <= other
    }

    fn same(self, other: Self) -> (r: bool) {
        self == other
    }

    fn to_decimal(self) -> (s: String) {
        format_signed(false, self as u128)
    }
}

impl IntegerTick for usize {
    fn max_as_u128() -> (r: u128) {
        usize::MAX as u128
    }

    open spec fn int_value(self) -> int {
        self as int
    }

    open spec fn min_int() -> int {
        0
    }

    open spec fn max_int() -> int {
        usize::MAX as int
    }

    proof fn lemma_bounds(self) {
    }

    fn unsigned_range(lo: Self, hi: Self) -> (r: u128) {
        (hi - lo) as u128
    }

    fn from_u128(value: u128) -> (r: Self) {
        value as usize
    }

    fn align_start(lo: Self, step: Self) -> (r: Self) {
        proof {
            lemma_align_nonnegative(lo as int, step as int);
        }
        (lo / step) * step
    }

    fn align_up(lo: Self, step: Self) -> (r: Option<Self>) {
        let down = Self::align_start(lo, step);
        if down == lo {
            Some(lo)
        } else {
            down.checked_add(step)
        }
    }

    fn checked_add(self, step: Self) -> (r: Option<Self>) {
        self.checked_add(step)
    }

    fn at_most(self, other: Self) -> (r: bool) {
        self <= other
    }

    fn same(self, other: Self) -> (r: bool) {
        self == other
    }

    fn to_decimal(self) -> (s: String) {
        format_signed(false, self as u128)
    }
}

} // verus!
