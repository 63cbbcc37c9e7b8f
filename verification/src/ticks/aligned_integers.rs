use super::decimal::decimal_text;
use super::generated::{Format, GeneratedTicks};
use super::integer_tick::{
    first_multiple, floor_multiple, lemma_align_negative, lemma_align_nonnegative, IntegerTick,
};
use super::nice_step::{find_nice_step, nice_step};
use std::marker::PhantomData;
use vstd::arithmetic::div_mod::lemma_fundamental_div_mod_converse;
use vstd::prelude::*;

verus! {

/// The mathematical values of a sequence of ticks.
pub open spec fn int_values<T: IntegerTick>(ticks: Seq<T>) -> Seq<int> {
    ticks.map_values(|t: T| t.int_value())
}

/// How many multiples of `step` lie in `[lo, hi]`.
pub open spec fn multiple_count(lo: int, hi: int, step: int) -> nat {
    if first_multiple(lo, step) > hi {
        0
    } else {
        ((hi - first_multiple(lo, step)) / step + 1) as nat
    }
}

/// The multiples of `step` in `[lo, hi]` in increasing order, or just `lo`
/// when there is none.
pub open spec fn aligned_ticks(lo: int, hi: int, step: int) -> Seq<int> {
    if multiple_count(lo, hi, step) == 0 {
        seq![lo]
    } else {
        Seq::new(multiple_count(lo, hi, step), |i: int| first_multiple(lo, step) + i * step)
    }
}

/// The lower end of a range given by its ends in either order.
pub open spec fn range_low(first: int, last: int) -> int {
    if first <= last {
        first
    } else {
        last
    }
}

/// The upper end of a range given by its ends in either order.
pub open spec fn range_high(first: int, last: int) -> int {
    if first <= last {
        last
    } else {
        first
    }
}

/// The step used for ticks between `first` and `last`.
pub open spec fn tick_step(first: int, last: int, max_ticks: nat) -> int {
    nice_step((range_high(first, last) - range_low(first, last)) as nat, max_ticks)
}

/// The ticks generated between `first` and `last` (in either order) for an
/// approximate maximum number of ticks: the multiples of the nice step inside
/// the range, or the single value when the range is empty.
pub open spec fn integer_ticks(first: int, last: int, max_ticks: nat) -> Seq<int> {
    if first == last {
        seq![first]
    } else {
        aligned_ticks(range_low(first, last), range_high(first, last), tick_step(first, last, max_ticks))
    }
}

proof fn lemma_nice_step_positive(range: nat, max_ticks: nat)
    ensures
        nice_step(range, max_ticks) >= 1,
{
    super::nice_step::lemma_nice_step_is_least(range, max_ticks);
    if range > 0 && max_ticks > 1 {
        assert(super::nice_step::min_step(range, max_ticks) >= 1);
    }
}

/// The first multiple lies in `[lo, lo + step)` and is a step above the floor
/// multiple when it differs from it.
proof fn lemma_first_multiple(lo: int, step: int)
    requires
        step > 0,
    ensures
        lo <= first_multiple(lo, step) < lo + step,
        floor_multiple(lo, step) == first_multiple(lo, step) || floor_multiple(lo, step)
            == first_multiple(lo, step) - step,
{
    if lo >= 0 {
        lemma_align_nonnegative(lo, step);
    } else {
        lemma_align_negative(lo, step);
    }
    vstd::arithmetic::div_mod::lemma_fundamental_div_mod(lo, step);
    assert(step * (lo / step) == (lo / step) * step) by (nonlinear_arith);
}

/// When `f + (k - 1) * step <= hi < f + k * step`, there are `k` multiples.
proof fn lemma_count_from_bounds(lo: int, hi: int, step: int, k: int)
    requires
        step > 0,
        k >= 1,
        first_multiple(lo, step) + (k - 1) * step <= hi,
        hi < first_multiple(lo, step) + k * step,
    ensures
        multiple_count(lo, hi, step) == k,
{
    let f = first_multiple(lo, step);
    assert(f <= hi) by (nonlinear_arith)
        requires
            f + (k - 1) * step <= hi,
            k >= 1,
            step > 0,
    ;
    let r = hi - f - (k - 1) * step;
    assert(0 <= r < step) by (nonlinear_arith)
        requires
            r == hi - f - (k - 1) * step,
            f + (k - 1) * step <= hi,
            hi < f + k * step,
    ;
    lemma_fundamental_div_mod_converse(hi - f, step, k - 1, r);
}

/// Generated ticks are never empty and always lie between `first` and `last`.
pub proof fn lemma_ticks_within_range(first: int, last: int, max_ticks: nat)
    ensures
        integer_ticks(first, last, max_ticks).len() >= 1,
        forall|i: int|
            0 <= i < integer_ticks(first, last, max_ticks).len() ==> {
                let t = #[trigger] integer_ticks(first, last, max_ticks)[i];
                &&& (first <= t <= last || last <= t <= first)
            },
{
    if first != last {
        let lo = if first <= last { first } else { last };
        let hi = if first <= last { last } else { first };
        let s = nice_step((hi - lo) as nat, max_ticks);
        lemma_nice_step_positive((hi - lo) as nat, max_ticks);
        lemma_first_multiple(lo, s);
        let f = first_multiple(lo, s);
        let n = multiple_count(lo, hi, s);
        let ticks = integer_ticks(first, last, max_ticks);
        if n > 0 {
            assert forall|i: int| 0 <= i < ticks.len() implies lo <= #[trigger] ticks[i] <= hi by {
                assert(ticks[i] == f + i * s);
                vstd::arithmetic::div_mod::lemma_fundamental_div_mod(hi - f, s);
                let q = (hi - f) / s;
                assert(n == q + 1);
                assert(0 <= i * s <= q * s) by (nonlinear_arith)
                    requires
                        0 <= i <= q,
                        s >= 1,
                ;
                assert(s * q == q * s) by (nonlinear_arith);
            }
        }
    }
}

/// Swapping `first` and `last` generates the same ticks.
pub proof fn lemma_ticks_reversed(first: int, last: int, max_ticks: nat)
    ensures
        integer_ticks(first, last, max_ticks) == integer_ticks(last, first, max_ticks),
{
}

/// Generated ticks of any integer type do not depend on the order of the
/// range's ends: reversing them gives the same ticks.
pub proof fn lemma_generated_ticks_reversed<T: IntegerTick>(first: T, last: T, max_ticks: nat)
    ensures
        integer_ticks(first.int_value(), last.int_value(), max_ticks) == integer_ticks(
            last.int_value(),
            first.int_value(),
            max_ticks,
        ),
{
    lemma_ticks_reversed(first.int_value(), last.int_value(), max_ticks);
}

/// A single value range generates exactly that value.
pub proof fn lemma_ticks_zero_range(value: int, max_ticks: nat)
    ensures
        integer_ticks(value, value, max_ticks) == seq![value],
{
}

/// Ticks of a range that holds a multiple of its step increase by that nice
/// step, and every one of them is a multiple of it.
pub proof fn lemma_ticks_evenly_spaced(first: int, last: int, max_ticks: nat)
    requires
        first != last,
        multiple_count(
            range_low(first, last),
            range_high(first, last),
            tick_step(first, last, max_ticks),
        ) > 0,
    ensures
        super::nice_step::is_nice(tick_step(first, last, max_ticks)),
        forall|i: int|
            0 <= i < integer_ticks(first, last, max_ticks).len() ==> #[trigger] integer_ticks(
                first,
                last,
                max_ticks,
            )[i] % tick_step(first, last, max_ticks) == 0,
        forall|i: int|
            0 <= i < integer_ticks(first, last, max_ticks).len() - 1 ==> #[trigger] integer_ticks(
                first,
                last,
                max_ticks,
            )[i + 1] - integer_ticks(first, last, max_ticks)[i] == tick_step(first, last, max_ticks),
{
    reveal_with_fuel(super::nice_step::pow10, 1);
    assert(super::nice_step::nice(0) == 1);
    let lo = if first <= last { first } else { last };
    let hi = if first <= last { last } else { first };
    let s = nice_step((hi - lo) as nat, max_ticks);
    super::nice_step::lemma_nice_step_is_least((hi - lo) as nat, max_ticks);
    lemma_nice_step_positive((hi - lo) as nat, max_ticks);
    let f = first_multiple(lo, s);
    let ticks = integer_ticks(first, last, max_ticks);
    assert(f % s == 0) by {
        vstd::arithmetic::div_mod::lemma_fundamental_div_mod(lo, s);
        let q = lo / s;
        if floor_multiple(lo, s) == lo {
            vstd::arithmetic::div_mod::lemma_fundamental_div_mod_converse(f, s, q, 0);
        } else {
            assert(f == (q + 1) * s) by (nonlinear_arith)
                requires
                    f == q * s + s,
            ;
            vstd::arithmetic::div_mod::lemma_fundamental_div_mod_converse(f, s, q + 1, 0);
        }
    }
    assert forall|i: int| 0 <= i < ticks.len() implies #[trigger] ticks[i] % s == 0 by {
        let q = f / s;
        vstd::arithmetic::div_mod::lemma_fundamental_div_mod(f, s);
        assert(f + i * s == (q + i) * s) by (nonlinear_arith)
            requires
                f == s * q,
        ;
        vstd::arithmetic::div_mod::lemma_fundamental_div_mod_converse(f + i * s, s, q + i, 0);
    }
    assert forall|i: int| 0 <= i < ticks.len() - 1 implies #[trigger] ticks[i + 1] - ticks[i] == s by {
        assert(f + (i + 1) * s - (f + i * s) == s) by (nonlinear_arith);
    }
}

/// A nice number of 10 or more is a multiple of 5.
proof fn lemma_large_nice_multiple_of_five(k: nat)
    requires
        super::nice_step::nice(k) >= 10,
    ensures
        super::nice_step::nice(k) % 5 == 0,
{
    let j = k / 3;
    if j == 0 {
        assert(k < 3);
        reveal_with_fuel(super::nice_step::pow10, 1);
        assert(super::nice_step::nice(k) <= 5);
    } else {
        let p = super::nice_step::pow10((j - 1) as nat);
        assert(super::nice_step::pow10(j) == 10 * p);
        let m = super::nice_step::nice_multiplier(k);
        assert(super::nice_step::nice(k) == m * (10 * p));
        assert(m * (10 * p) == 5 * (2 * m * p)) by (nonlinear_arith);
        vstd::arithmetic::div_mod::lemma_fundamental_div_mod_converse(
            super::nice_step::nice(k) as int,
            5,
            (2 * m * p) as int,
            0,
        );
    }
}

/// When the step is larger than every value of the type, zero is the only
/// multiple of it that the type holds: the ticks are zero when the range
/// holds it, and none otherwise.
proof fn lemma_step_beyond_type(lo: int, hi: int, step: int, min: int, max: int)
    requires
        super::nice_step::is_nice(step),
        step > max,
        max >= 127,
        min <= lo <= hi <= max,
        min == 0 || (min == -(max + 1) && min % 5 != 0),
    ensures
        multiple_count(lo, hi, step) == (if lo <= 0 <= hi {
            1nat
        } else {
            0nat
        }),
        lo <= 0 <= hi ==> first_multiple(lo, step) == 0,
{
    let k = choose|k: nat| super::nice_step::nice(k) == step;
    lemma_large_nice_multiple_of_five(k);
    assert(step % 5 == 0);
    lemma_first_multiple(lo, step);
    let f = first_multiple(lo, step);
    lemma_first_multiple_is_multiple(lo, step);
    vstd::arithmetic::div_mod::lemma_fundamental_div_mod(f, step);
    let q = f / step;
    assert(f == step * q);
    if lo <= 0 {
        assert(q <= 0) by (nonlinear_arith)
            requires
                f == step * q,
                f < step,
                step > 0,
        ;
        if q < 0 {
            assert(f <= -step) by (nonlinear_arith)
                requires
                    f == step * q,
                    q < 0,
                    step > 0,
            ;
            lemma_no_multiple_at_type_minimum(step, min, max);
            assert(false);
        }
        assert(q == 0);
        assert(f == 0) by (nonlinear_arith)
            requires
                f == step * q,
                q == 0,
        ;
        if hi >= 0 {
            vstd::arithmetic::div_mod::lemma_fundamental_div_mod_converse(hi, step, 0, hi);
        }
    } else {
        assert(q >= 1) by (nonlinear_arith)
            requires
                f == step * q,
                f >= lo,
                lo > 0,
                step > 0,
        ;
        assert(f >= step) by (nonlinear_arith)
            requires
                f == step * q,
                q >= 1,
                step > 0,
        ;
    }
}

/// A step beyond the type that is a multiple of 5 cannot reach down to the
/// type's minimum: `-step` is below every value.
proof fn lemma_no_multiple_at_type_minimum(step: int, min: int, max: int)
    requires
        step > max,
        max >= 127,
        step % 5 == 0,
        min == 0 || (min == -(max + 1) && min % 5 != 0),
    ensures
        -step < min,
{
    if -step >= min {
        assert(min != 0);
        assert(step == max + 1);
        vstd::arithmetic::div_mod::lemma_fundamental_div_mod(step, 5);
        let t = step / 5;
        vstd::arithmetic::div_mod::lemma_fundamental_div_mod_converse(min, 5, -t, 0);
    }
}

/// The first multiple at least `lo` is a multiple of the step.
proof fn lemma_first_multiple_is_multiple(lo: int, step: int)
    requires
        step > 0,
    ensures
        first_multiple(lo, step) % step == 0,
{
    vstd::arithmetic::div_mod::lemma_fundamental_div_mod(lo, step);
    let q = lo / step;
    let f = first_multiple(lo, step);
    if floor_multiple(lo, step) == lo {
        vstd::arithmetic::div_mod::lemma_fundamental_div_mod_converse(f, step, q, 0);
    } else {
        assert(f == (q + 1) * step) by (nonlinear_arith)
            requires
                f == q * step + step,
        ;
        vstd::arithmetic::div_mod::lemma_fundamental_div_mod_converse(f, step, q + 1, 0);
    }
}

/// Generates the ticks of `integer_ticks`: find the first multiple of the nice
/// step in range, then walk upwards by the step while the values stay in range.
pub fn generate_ticks<T: IntegerTick>(first: T, last: T, max_ticks: usize) -> (ticks: Vec<T>)
    ensures
        int_values(ticks@) == integer_ticks(first.int_value(), last.int_value(), max_ticks as nat),
{
    // Handle zero range
    if first.same(last) {
        let ticks = vec![first];
        assert(int_values(ticks@) =~= seq![first.int_value()]);
        return ticks;
    }
    // Ensure first <= last for calculation
    let (lo, hi) = if first.at_most(last) {
        (first, last)
    } else {
        (last, first)
    };
    proof {
        lo.lemma_bounds();
        hi.lemma_bounds();
    }
    let ghost l = lo.int_value();
    let ghost h = hi.int_value();
    let range = T::unsigned_range(lo, hi);
    let nice = find_nice_step(range, max_ticks);
    proof {
        lemma_nice_step_positive(range as nat, max_ticks as nat);
        super::nice_step::lemma_nice_step_is_least(range as nat, max_ticks as nat);
    }
    let mut ticks: Vec<T> = Vec::new();
    if nice > T::max_as_u128() {
        // Only zero is a multiple of a step beyond the type's values.
        proof {
            lemma_step_beyond_type(l, h, nice as int, T::min_int(), T::max_int());
        }
        let zero = T::from_u128(0);
        if lo.at_most(zero) && zero.at_most(hi) {
            ticks.push(zero);
            assert(int_values(ticks@) =~= seq![0int]);
            assert(aligned_ticks(l, h, nice as int) =~= seq![0int]);
        } else {
            ticks.push(lo);
            assert(int_values(ticks@) =~= seq![l]);
        }
        return ticks;
    }
    let step = T::from_u128(nice);
    let ghost s = step.int_value();
    let ghost f = first_multiple(l, s);
    proof {
        lemma_first_multiple(l, s);
    }
    if let Some(start) = T::align_up(lo, step) {
        // Generate ticks
        let mut current = start;
        let ghost mut k: int = 0;
        loop
            invariant_except_break
                current.int_value() == f + k * s,
                k >= 0,
                k >= 1 ==> f + (k - 1) * s <= h,
                int_values(ticks@) =~= Seq::new(k as nat, |i: int| f + i * s),
            invariant
                l == lo.int_value(),
                h == hi.int_value(),
                s == step.int_value(),
                s >= 1,
                l < h,
                h <= T::max_int(),
                f == first_multiple(l, s),
                l <= f < l + s,
            ensures
                int_values(ticks@) =~= Seq::new(multiple_count(l, h, s), |i: int| f + i * s),
            decreases T::max_int() - current.int_value(),
        {
            proof {
                current.lemma_bounds();
            }
            if !current.at_most(hi) {
                proof {
                    if k >= 1 {
                        lemma_count_from_bounds(l, h, s, k);
                    } else {
                        assert(k == 0);
                        assert(k * s == 0);
                    }
                }
                break;
            }
            let ghost before = ticks@;
            ticks.push(current);
            assert(int_values(ticks@) =~= int_values(before).push(current.int_value()));
            if let Some(next) = current.checked_add(step) {
                current = next;
                proof {
                    k = k + 1;
                    assert(f + k * s == f + (k - 1) * s + s) by (nonlinear_arith);
                }
            } else {
                proof {
                    assert(f + (k + 1) * s == f + k * s + s) by (nonlinear_arith);
                    lemma_count_from_bounds(l, h, s, k + 1);
                }
                break;
            }
        }
    } else {
        assert(multiple_count(l, h, s) == 0);
    }

    // Ensure we have at least one tick
    if ticks.len() == 0 {
        ticks.push(lo);
        assert(int_values(ticks@) =~= seq![l]);
    }
    ticks
}

/// Generates integer ticks aligned to "nice" values (1, 2, 5, 10, 20, 50, 100...).
///
/// This generator works entirely in the integer domain, producing clean integer
/// labels without decimal points.
#[non_exhaustive]
pub struct AlignedIntegers<T> {
    _marker: PhantomData<T>,
}

impl<T> AlignedIntegers<T> {
    /// Creates the integer tick generator.
    pub fn new() -> (r: Self) {
        AlignedIntegers { _marker: PhantomData }
    }
}

impl<T> Default for AlignedIntegers<T> {
    fn default() -> (r: Self) {
        AlignedIntegers { _marker: PhantomData }
    }
}

impl<T: IntegerTick> AlignedIntegers<T> {
    /// Generate ticks between `first` and `last` (in either order), at about
    /// `max_ticks` ticks.
    pub fn generate(&self, first: &T, last: &T, max_ticks: usize) -> (r: GeneratedTicks<
        T,
        IntegerFormat<T>,
    >)
        ensures
            int_values(r.ticks@) == integer_ticks(
                first.int_value(),
                last.int_value(),
                max_ticks as nat,
            ),
    {
        GeneratedTicks::new(IntegerFormat::new(), generate_ticks(*first, *last, max_ticks))
    }
}

impl<T: IntegerTick, S> GeneratedTicks<T, S> {
    /// Equality of generated ticks compares only the ticks, not the format
    /// state.
    pub fn same_ticks(&self, other: &Self) -> (r: bool)
        ensures
            r == (int_values(self.ticks@) == int_values(other.ticks@)),
    {
        if self.ticks.len() != other.ticks.len() {
            assert(int_values(self.ticks@).len() != int_values(other.ticks@).len());
            return false;
        }
        let mut i: usize = 0;
        while i < self.ticks.len()
            invariant
                self.ticks@.len() == other.ticks@.len(),
                0 <= i <= self.ticks@.len(),
                forall|j: int|
                    0 <= j < i ==> #[trigger] self.ticks@[j].int_value()
                        == other.ticks@[j].int_value(),
            decreases self.ticks@.len() - i,
        {
            if !self.ticks[i].same(other.ticks[i]) {
                assert(int_values(self.ticks@)[i as int] != int_values(other.ticks@)[i as int]);
                return false;
            }
            i = i + 1;
        }
        assert(int_values(self.ticks@) =~= int_values(other.ticks@));
        true
    }
}

/// Format state for integer ticks - simply converts to string.
pub struct IntegerFormat<T> {
    _marker: PhantomData<T>,
}

impl<T> IntegerFormat<T> {
    /// Creates the integer format state.
    pub fn new() -> (r: Self) {
        Self { _marker: PhantomData }
    }
}

impl<T: IntegerTick> Format for IntegerFormat<T> {
    type Tick = T;

    fn format(&self, value: &Self::Tick) -> (s: String)
        ensures
            s@ == decimal_text(value.int_value()),
    {
        value.to_decimal()
    }
}

} // verus!
