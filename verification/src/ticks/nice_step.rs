use vstd::prelude::*;

verus! {

/// Ten to the power `j`.
pub open spec fn pow10(j: nat) -> nat
    decreases j,
{
    if j == 0 {
        1
    } else {
        10 * pow10((j - 1) as nat)
    }
}

/// The multiplier of the `k`-th nice number: 1, 2, 5, 1, 2, 5, ...
pub open spec fn nice_multiplier(k: nat) -> nat {
    if k % 3 == 0 {
        1
    } else if k % 3 == 1 {
        2
    } else {
        5
    }
}

/// The `k`-th nice number: 1, 2, 5, 10, 20, 50, 100, ...
pub open spec fn nice(k: nat) -> nat {
    nice_multiplier(k) * pow10(k / 3)
}

/// `v` is a nice number: 1, 2 or 5 times a power of ten.
pub open spec fn is_nice(v: int) -> bool {
    exists|k: nat| nice(k) == v
}

/// The smallest step a generator may use: the range spread over the ticks,
/// rounded up so that `max_ticks` steps cover the range, but never below one.
pub open spec fn min_step(range: nat, max_ticks: nat) -> int
    recommends
        max_ticks > 0,
{
    let quotient = range / max_ticks;
    let ceiling = if range % max_ticks == 0 {
        quotient
    } else {
        quotient + 1
    };
    if ceiling >= 1 {
        ceiling as int
    } else {
        1
    }
}

pub proof fn lemma_pow10_positive(j: nat)
    ensures
        pow10(j) >= 1,
    decreases j,
{
    if j > 0 {
        lemma_pow10_positive((j - 1) as nat);
    }
}

pub proof fn lemma_pow10_monotone(i: nat, j: nat)
    requires
        i <= j,
    ensures
        pow10(i) <= pow10(j),
    decreases j,
{
    if i < j {
        lemma_pow10_monotone(i, (j - 1) as nat);
        lemma_pow10_positive((j - 1) as nat);
    }
}

/// Consecutive nice numbers strictly increase.
pub proof fn lemma_nice_step_up(k: nat)
    ensures
        nice(k) < nice(k + 1),
{
    lemma_pow10_positive(k / 3);
    let p = pow10(k / 3);
    if k % 3 == 2 {
        assert((k + 1) / 3 == k / 3 + 1);
        assert(pow10((k + 1) / 3) == 10 * p);
        assert(nice(k) == 5 * p);
        assert(nice(k + 1) == 10 * p);
    } else {
        assert((k + 1) / 3 == k / 3);
        assert(nice(k) == nice_multiplier(k) * p);
        assert(nice(k + 1) == nice_multiplier(k + 1) * p);
        assert(nice_multiplier(k) < nice_multiplier(k + 1));
        assert(nice_multiplier(k) * p < nice_multiplier(k + 1) * p) by (nonlinear_arith)
            requires
                nice_multiplier(k) < nice_multiplier(k + 1),
                p >= 1,
        ;
    }
}

/// Nice numbers strictly increase with their index.
pub proof fn lemma_nice_strictly_increasing(i: nat, j: nat)
    requires
        i < j,
    ensures
        nice(i) < nice(j),
    decreases j - i,
{
    lemma_nice_step_up(i);
    if i + 1 < j {
        lemma_nice_strictly_increasing(i + 1, j);
    }
}

/// Every nice number is at least its index plus one.
pub proof fn lemma_nice_at_least_index(k: nat)
    ensures
        nice(k) >= k + 1,
    decreases k,
{
    if k == 0 {
        assert(nice(0) == 1) by {
            reveal_with_fuel(pow10, 1);
        }
    } else {
        lemma_nice_at_least_index((k - 1) as nat);
        lemma_nice_step_up((k - 1) as nat);
    }
}

/// The index of the first nice number, from index `k` on, that is at least `m`.
pub open spec fn first_nice_index_from(k: nat, m: int) -> nat
    decreases (if m > k { m - k } else { 0 }),
{
    if nice(k) >= m {
        k
    } else {
        proof {
            lemma_nice_at_least_index(k);
        }
        first_nice_index_from(k + 1, m)
    }
}

/// The step `find_nice_step` picks for a range and an approximate tick count.
pub open spec fn nice_step(range: nat, max_ticks: nat) -> int {
    if range == 0 || max_ticks <= 1 {
        1
    } else {
        nice(first_nice_index_from(0, min_step(range, max_ticks))) as int
    }
}

proof fn lemma_first_nice_index_from(k: nat, m: int)
    ensures
        first_nice_index_from(k, m) >= k,
        nice(first_nice_index_from(k, m)) >= m,
        forall|i: nat| k <= i < first_nice_index_from(k, m) ==> nice(i) < m,
    decreases (if m > k { m - k } else { 0 }),
{
    if nice(k) < m {
        lemma_nice_at_least_index(k);
        lemma_first_nice_index_from(k + 1, m);
    }
}

/// A step covers the range in `max_ticks` steps exactly when it is at least
/// the minimum step.
pub proof fn lemma_min_step_covers(range: nat, max_ticks: nat, v: int)
    requires
        range > 0,
        max_ticks > 1,
        v >= 0,
    ensures
        v >= min_step(range, max_ticks) <==> v * max_ticks >= range,
{
    let q = (range / max_ticks) as int;
    let r = (range % max_ticks) as int;
    vstd::arithmetic::div_mod::lemma_fundamental_div_mod(range as int, max_ticks as int);
    let mt = max_ticks as int;
    let rg = range as int;
    assert(rg == mt * q + r && 0 <= r < mt);
    assert(q >= 0) by (nonlinear_arith)
        requires
            rg == mt * q + r,
            0 <= r < mt,
            rg > 0,
    ;
    let m = min_step(range, max_ticks);
    if r == 0 {
        assert(q >= 1) by (nonlinear_arith)
            requires
                rg == mt * q,
                rg > 0,
                mt > 1,
        ;
        assert(m == q);
        assert(v >= q <==> v * mt >= rg) by (nonlinear_arith)
            requires
                rg == mt * q,
                mt > 1,
                v >= 0,
        ;
    } else {
        assert(m == q + 1);
        assert(v >= q + 1 <==> v * mt >= rg) by (nonlinear_arith)
            requires
                rg == mt * q + r,
                0 < r < mt,
                mt > 1,
                v >= 0,
        ;
    }
}

/// The step picked is the smallest nice number that is at least the minimum
/// step, or 1 when the range is empty or at most one tick is asked for: the
/// smallest nice step with which `max_ticks` steps cover the range.
pub proof fn lemma_nice_step_is_least(range: nat, max_ticks: nat)
    ensures
        range == 0 || max_ticks <= 1 ==> nice_step(range, max_ticks) == 1,
        range > 0 && max_ticks > 1 ==> {
            &&& is_nice(nice_step(range, max_ticks))
            &&& nice_step(range, max_ticks) >= min_step(range, max_ticks)
            &&& forall|v: int|
                is_nice(v) && v >= min_step(range, max_ticks) ==> nice_step(range, max_ticks) <= v
            &&& nice_step(range, max_ticks) * max_ticks >= range
            &&& forall|v: int|
                is_nice(v) && v < nice_step(range, max_ticks) ==> v * max_ticks < range
        },
{
    if range > 0 && max_ticks > 1 {
        let m = min_step(range, max_ticks);
        lemma_first_nice_index_from(0, m);
        let k = first_nice_index_from(0, m);
        lemma_min_step_covers(range, max_ticks, nice(k) as int);
        assert forall|v: int| is_nice(v) && v < nice(k) implies v * max_ticks < range by {
            let i = choose|i: nat| nice(i) == v;
            if i >= k {
                if i > k {
                    lemma_nice_strictly_increasing(k, i);
                }
            }
            assert(i < k);
            assert(v < m);
            lemma_min_step_covers(range, max_ticks, v);
        }
        let m = min_step(range, max_ticks);
        let k = first_nice_index_from(0, m);
        lemma_first_nice_index_from(0, m);
        assert(is_nice(nice(k) as int));
        assert forall|v: int| is_nice(v) && v >= m implies nice(k) <= v by {
            let i = choose|i: nat| nice(i) == v;
            if i < k {
                assert(nice(i) < m);
            } else if k < i {
                lemma_nice_strictly_increasing(k, i);
            }
        }
    }
}

proof fn lemma_pow10_38()
    ensures
        pow10(38) == 100_000_000_000_000_000_000_000_000_000_000_000_000nat,
        pow10(37) == 10_000_000_000_000_000_000_000_000_000_000_000_000nat,
{
    reveal_with_fuel(pow10, 39);
}

/// Nice step sizes follow the pattern: 1, 2, 5 at each power of 10.
/// Given a range and approximate max tick count, find the smallest nice step
/// that produces at most max_ticks ticks.
pub fn find_nice_step(range: u128, max_ticks: usize) -> (step: u128)
    ensures
        step == nice_step(range as nat, max_ticks as nat),
{
    if range == 0 || max_ticks <= 1 {
        return 1;
    }
    // Calculate minimum step needed
    let quotient = range / max_ticks as u128;
    assert(quotient <= u128::MAX / 2) by (nonlinear_arith)
        requires
            quotient == range / max_ticks as u128,
            max_ticks >= 2,
    ;
    let ceiling = if range % max_ticks as u128 == 0 {
        quotient
    } else {
        quotient + 1
    };
    let min_step_value = if ceiling >= 1 {
        ceiling
    } else {
        1
    };
    let ghost m = min_step(range as nat, max_ticks as nat);
    assert(min_step_value == m);
    assert(m <= u128::MAX / 2 + 1) by {
        assert(range as nat / max_ticks as nat <= range as nat / 2) by (nonlinear_arith)
            requires
                max_ticks >= 2,
        ;
        assert(range as nat / 2 <= u128::MAX / 2);
    }
    proof {
        lemma_first_nice_index_from(0, m);
    }

    // Find the nice step >= min_step
    // Nice steps are: 1, 2, 5, 10, 20, 50, 100, 200, 500, ...
    let mut power: u128 = 1;
    let ghost mut j: nat = 0;
    loop
        invariant
            power == pow10(j),
            1 <= m <= u128::MAX / 2 + 1,
            min_step_value == m,
            range > 0 && max_ticks > 1,
            m == min_step(range as nat, max_ticks as nat),
            first_nice_index_from(0, m) >= 3 * j,
            forall|i: nat| i < first_nice_index_from(0, m) ==> nice(i) < m,
            nice(first_nice_index_from(0, m)) >= m,
        decreases u128::MAX - power,
    {
        let multipliers: [u128; 3] = [1, 2, 5];
        let mut idx: usize = 0;
        while idx < 3
            invariant
                power == pow10(j),
                1 <= m <= u128::MAX / 2 + 1,
                min_step_value == m,
                range > 0 && max_ticks > 1,
                m == min_step(range as nat, max_ticks as nat),
                0 <= idx <= 3,
                multipliers@ == seq![1u128, 2u128, 5u128],
                first_nice_index_from(0, m) >= 3 * j + idx,
                forall|i: nat| i < first_nice_index_from(0, m) ==> nice(i) < m,
                nice(first_nice_index_from(0, m)) >= m,
                idx > 0 ==> nice((3 * j + idx - 1) as nat) < m,
            decreases 3 - idx,
        {
            let multiplier = multipliers[idx];
            let ghost k: nat = (3 * j + idx) as nat;
            assert(k / 3 == j && k % 3 == idx);
            assert(nice(k) == multiplier * power);
            proof {
                if idx > 0 {
                    let kp: nat = (k - 1) as nat;
                    assert(kp / 3 == j && kp % 3 == idx - 1);
                    assert(nice(kp) == multipliers@[idx - 1] * power);
                }
                if idx == 2 {
                    // 2 * power < m <= MAX / 2 + 1, and power is a power of ten
                    assert(power <= u128::MAX / 4);
                    lemma_pow10_38();
                    if j >= 38 {
                        lemma_pow10_monotone(38, j);
                    }
                    if j == 38 {
                    } else {
                        assert(j <= 37);
                        lemma_pow10_monotone(j, 37);
                    }
                }
            }
            proof {
                if idx == 1 {
                    assert(power < m);
                }
            }
            let step = power * multiplier;
            if step >= min_step_value {
                proof {
                    if first_nice_index_from(0, m) > k {
                        assert(nice(k) < m);
                    }
                    assert(first_nice_index_from(0, m) == k);
                    assert(step == nice(k));
                }
                return step;
            }
            idx = idx + 1;
        }
        // Prevent overflow
        if power > u128::MAX / 10 {
            proof {
                let k: nat = 3 * j + 2;
                assert(k / 3 == j && k % 3 == 2);
                assert(nice(k) == 5 * power);
            }
            return power * 5;
        }
        proof {
            lemma_pow10_positive(j);
        }
        power = power * 10;
        proof {
            j = j + 1;
        }
    }
}

} // verus!
