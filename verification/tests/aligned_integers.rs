use chartistry::ticks::aligned_integers::generate_ticks;
use chartistry::ticks::{find_nice_step, AlignedIntegers, Format, IntegerFormat, IntegerTick};

/// The number of ticks a horizontal span of `width` pixels fits, with one
/// pixel per label character and no padding: the span length over the width
/// of the wider end label, at least two.
fn span_max_ticks<T: IntegerTick>(first: T, last: T, width: f64) -> usize {
    let format = IntegerFormat::<T>::new();
    let consumed = format.format(&first).len().max(format.format(&last).len()) as f64;
    if consumed <= 0.0 {
        return 10;
    }
    (width / consumed).max(2.0) as usize
}

fn generate<T: IntegerTick>(first: T, last: T, width: f64) -> Vec<T> {
    let gen = AlignedIntegers::<T>::default();
    let max_ticks = span_max_ticks(first, last, width);
    gen.generate(&first, &last, max_ticks).ticks
}

fn generate_i64(first: i64, last: i64, width: f64) -> Vec<i64> {
    generate(first, last, width)
}

fn generate_u64(first: u64, last: u64, width: f64) -> Vec<u64> {
    generate(first, last, width)
}

#[test]
fn test_find_nice_step() {
    // Small ranges
    assert_eq!(find_nice_step(5, 10), 1);
    assert_eq!(find_nice_step(10, 5), 2);
    assert_eq!(find_nice_step(10, 3), 5);
    assert_eq!(find_nice_step(10, 2), 5);

    // Medium ranges
    assert_eq!(find_nice_step(100, 20), 5);
    assert_eq!(find_nice_step(100, 10), 10);
    assert_eq!(find_nice_step(100, 5), 20);
    assert_eq!(find_nice_step(100, 3), 50);

    // Large ranges
    assert_eq!(find_nice_step(1000, 10), 100);
    assert_eq!(find_nice_step(1000, 5), 200);
    assert_eq!(find_nice_step(1000, 3), 500);

    // Edge cases
    assert_eq!(find_nice_step(0, 10), 1);
    assert_eq!(find_nice_step(100, 0), 1);
    assert_eq!(find_nice_step(100, 1), 1);
}

#[test]
fn test_small_range_signed() {
    // Range -2 to 5 with large space should include all values
    let ticks = generate_i64(-2, 5, 100.0);
    assert!(!ticks.is_empty());
    assert!(ticks.iter().all(|&t| t >= -2 && t <= 5));
    // Verify step is a nice number
    if ticks.len() > 1 {
        let step = ticks[1] - ticks[0];
        assert!(step == 1 || step == 2 || step == 5, "step was {}", step);
    }

    // Range -2 to 5 with small space should give fewer ticks
    let ticks = generate_i64(-2, 5, 10.0);
    assert!(ticks.len() >= 2);
    assert!(ticks.iter().all(|&t| t >= -2 && t <= 5));
}

#[test]
fn test_small_range_unsigned() {
    // Range 0 to 10 with large space
    let ticks = generate_u64(0, 10, 100.0);
    assert!(!ticks.is_empty());
    assert!(ticks.iter().all(|&t| t <= 10));
    // Verify step is a nice number
    if ticks.len() > 1 {
        let step = ticks[1] - ticks[0];
        assert!(step == 1 || step == 2 || step == 5, "step was {}", step);
    }

    // Range 0 to 10 with smaller space
    let ticks = generate_u64(0, 10, 20.0);
    assert!(ticks.len() >= 2);
    assert!(ticks.iter().all(|&t| t <= 10));
}

#[test]
fn test_medium_range() {
    // Range 0 to 100 with medium space
    let ticks = generate_i64(0, 100, 100.0);
    assert!(!ticks.is_empty());
    assert!(ticks.first().unwrap() >= &0);
    assert!(ticks.last().unwrap() <= &100);
    // Verify step is a nice number
    if ticks.len() > 1 {
        let step = ticks[1] - ticks[0];
        assert!(
            step == 1
                || step == 2
                || step == 5
                || step == 10
                || step == 20
                || step == 25
                || step == 50
                || step == 100,
            "step was {}",
            step
        );
    }
}

#[test]
fn test_large_range() {
    // Range 0 to 1000000 with small space
    let ticks = generate_i64(0, 1_000_000, 50.0);
    assert!(ticks.len() >= 2 && ticks.len() <= 10);
    if ticks.len() > 1 {
        let step = ticks[1] - ticks[0];
        // Step should be a nice number (100000, 200000, 500000, etc.)
        assert!(
            step == 100_000 || step == 200_000 || step == 500_000 || step == 1_000_000,
            "step was {}",
            step
        );
    }
}

#[test]
fn test_negative_range() {
    // Entirely negative range
    let ticks = generate_i64(-100, -10, 50.0);
    assert!(ticks.iter().all(|&t| t >= -100 && t <= -10));
    assert!(!ticks.is_empty());

    // Large negative range
    let ticks = generate_i64(-1000, -500, 50.0);
    if ticks.len() > 1 {
        let step = ticks[1] - ticks[0];
        assert!(
            step == 50 || step == 100 || step == 200,
            "step was {}",
            step
        );
    }
}

#[test]
fn test_zero_range() {
    // Single value range
    let ticks = generate_i64(42, 42, 100.0);
    assert_eq!(ticks, vec![42]);

    let ticks = generate_u64(100, 100, 100.0);
    assert_eq!(ticks, vec![100]);
}

#[test]
fn test_reversed_range() {
    // Handles reversed first/last
    let ticks = generate_i64(10, 0, 100.0);
    assert!(!ticks.is_empty());
    assert!(ticks.iter().all(|&t| t >= 0 && t <= 10));
}

#[test]
fn test_format() {
    let format = IntegerFormat::<i64>::new();
    assert_eq!(format.format(&0), "0");
    assert_eq!(format.format(&42), "42");
    assert_eq!(format.format(&-100), "-100");
    assert_eq!(format.format(&1_000_000), "1000000");

    let format = IntegerFormat::<u64>::new();
    assert_eq!(format.format(&0), "0");
    assert_eq!(format.format(&u64::MAX), "18446744073709551615");
}

#[test]
fn test_all_integer_types() {
    // Verify all types compile and work
    assert!(!generate::<i8>(0, 10, 50.0).is_empty());
    assert!(!generate::<i16>(0, 10, 50.0).is_empty());
    assert!(!generate::<i32>(0, 10, 50.0).is_empty());
    assert!(!generate::<i64>(0, 10, 50.0).is_empty());
    assert!(!generate::<i128>(0, 10, 50.0).is_empty());
    assert!(!generate::<isize>(0, 10, 50.0).is_empty());
    assert!(!generate::<u8>(0, 10, 50.0).is_empty());
    assert!(!generate::<u16>(0, 10, 50.0).is_empty());
    assert!(!generate::<u32>(0, 10, 50.0).is_empty());
    assert!(!generate::<u64>(0, 10, 50.0).is_empty());
    assert!(!generate::<u128>(0, 10, 50.0).is_empty());
    assert!(!generate::<usize>(0, 10, 50.0).is_empty());
}

// Exact outcomes of the generator and the laws on concrete values.

fn ticks_for<T: IntegerTick>(first: T, last: T, max_ticks: usize) -> Vec<T> {
    AlignedIntegers::<T>::new().generate(&first, &last, max_ticks).ticks
}

#[test]
fn ticks_are_multiples_of_the_nice_step_inside_the_range() {
    // range 100 over 5 ticks: step 20
    assert_eq!(ticks_for(0i64, 100, 5), vec![0, 20, 40, 60, 80, 100]);
    // an unaligned lower end starts at the next multiple: range 44 over 4
    // ticks needs a step of at least 11, so 20
    assert_eq!(ticks_for(3i32, 47, 4), vec![20, 40]);
    // negative lower ends align downwards, then only values in range are kept
    assert_eq!(ticks_for(-7i16, 12, 4), vec![-5, 0, 5, 10]);
    assert_eq!(ticks_for(-100i64, -10, 5), vec![-100, -80, -60, -40, -20]);
}

#[test]
fn ticks_fall_back_to_the_lower_end_when_no_multiple_fits() {
    // range 42 over 2 ticks: min step 21, nice step 50; no multiple of 50 in [1, 43]
    assert_eq!(ticks_for(1u8, 43, 2), vec![1]);
    assert_eq!(ticks_for(43u8, 1, 2), vec![1]);
}

#[test]
fn reversed_ends_give_the_same_ticks() {
    assert_eq!(ticks_for(100u32, 0, 5), ticks_for(0u32, 100, 5));
    assert_eq!(ticks_for(5i8, -2, 3), ticks_for(-2i8, 5, 3));
}

#[test]
fn single_value_gives_itself() {
    assert_eq!(ticks_for(-3i8, -3, 10), vec![-3]);
    assert_eq!(ticks_for(u128::MAX, u128::MAX, 10), vec![u128::MAX]);
}

#[test]
fn ticks_near_the_type_limits() {
    // the multiples of 50 in [-128, -28]
    assert_eq!(ticks_for(-128i8, -28, 2), vec![-100, -50]);
    // the nice step 200 is beyond i8: only zero is a multiple in range
    assert_eq!(ticks_for(-120i8, 127, 2), vec![0]);
    assert_eq!(ticks_for(0u32, u32::MAX, 2), vec![0]);
    assert_eq!(ticks_for(1u32, u32::MAX, 2), vec![1]);
    // the whole i128 range
    let step = 50_000_000_000_000_000_000_000_000_000_000_000_000i128;
    assert_eq!(
        ticks_for(i128::MIN, i128::MAX, 10),
        vec![-3 * step, -2 * step, -step, 0, step, 2 * step, 3 * step]
    );
    // a short range at the bottom of i64
    assert_eq!(ticks_for(i64::MIN, i64::MIN + 10, 10), (0..=10).map(|i| i64::MIN + i).collect::<Vec<_>>());
    assert_eq!(ticks_for(u128::MAX - 3, u128::MAX, 2), vec![u128::MAX - 3, u128::MAX - 1]);
}

#[test]
fn nice_step_covers_the_range_in_at_most_max_ticks_steps() {
    // 11 over 5 steps needs at least 3: the nice step is 5
    assert_eq!(find_nice_step(11, 5), 5);
    assert_eq!(find_nice_step(20, 10), 2);
    assert_eq!(find_nice_step(21, 10), 5);
}

#[test]
fn nice_step_is_the_smallest_nice_number_at_least_the_minimum() {
    assert_eq!(find_nice_step(7, 2), 5);
    assert_eq!(find_nice_step(42, 2), 50);
    assert_eq!(find_nice_step(u128::MAX, 2), 200_000_000_000_000_000_000_000_000_000_000_000_000);
    assert_eq!(find_nice_step(1000, 2000), 1);
    assert_eq!(find_nice_step(1_000_001, 1), 1);
}

#[test]
fn format_writes_decimal_for_every_type() {
    assert_eq!(IntegerFormat::<i8>::new().format(&i8::MIN), "-128");
    assert_eq!(IntegerFormat::<i128>::new().format(&i128::MIN), "-170141183460469231731687303715884105728");
    assert_eq!(IntegerFormat::<u128>::new().format(&u128::MAX), "340282366920938463463374607431768211455");
    assert_eq!(IntegerFormat::<isize>::new().format(&-7), "-7");
    assert_eq!(IntegerFormat::<u16>::new().format(&9), "9");
    assert_eq!(IntegerFormat::<i32>::new().format(&-10), "-10");
}

#[test]
fn no_ticks_format_as_a_dash() {
    let none = chartistry::ticks::GeneratedTicks::<u8, _>::none();
    assert!(none.ticks.is_empty());
    assert_eq!(none.state.format(&3u8), "-");
}

#[test]
fn generated_ticks_compare_only_ticks() {
    let a = AlignedIntegers::<i32>::new().generate(&0, &100, 5);
    let b = AlignedIntegers::<i32>::new().generate(&100, &0, 5);
    let c = AlignedIntegers::<i32>::new().generate(&0, &100, 10);
    assert!(a.same_ticks(&b));
    assert!(!a.same_ticks(&c));
}

#[test]
fn generate_ticks_ignores_the_order_of_the_ends() {
    assert_eq!(generate_ticks(-2i64, 5, 3), generate_ticks(5i64, -2, 3));
    assert_eq!(generate_ticks(-2i64, 5, 3), vec![0, 5]);
    assert_eq!(generate_ticks(i128::MAX, i128::MIN, 4), generate_ticks(i128::MIN, i128::MAX, 4));
    assert_eq!(generate_ticks(200u8, 3, 7), generate_ticks(3u8, 200, 7));
}
