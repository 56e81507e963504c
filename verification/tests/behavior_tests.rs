use monthgen::generator::MonthGenerator;
use monthgen::month::Month;

#[test]
fn month_new_rejects_out_of_range_numbers() {
    assert_eq!(Month::new(2019, 0), None);
    assert_eq!(Month::new(2019, 13), None);
    assert_eq!(Month::new(2019, 255), None);
}

#[test]
fn month_accessors_return_the_parts() {
    let m = Month::new(-44, 3).unwrap();
    assert_eq!(m.year(), -44);
    assert_eq!(m.month_number(), 3);
}

#[test]
fn forward_step_within_a_year() {
    let jun = Month::new(2019, 6).unwrap();
    let mut iter = MonthGenerator::new(jun);

    assert_eq!(iter.next(), Month::new(2019, 6));
    assert_eq!(iter.next(), Month::new(2019, 7));
}

#[test]
fn forward_step_rolls_december_into_next_january() {
    let dec = Month::new(1999, 12).unwrap();
    let mut iter = MonthGenerator::new(dec);

    assert_eq!(iter.next(), Month::new(1999, 12));
    assert_eq!(iter.next(), Month::new(2000, 1));
}

#[test]
fn backward_step_within_a_year() {
    let jun = Month::new(2019, 6).unwrap();
    let mut iter = MonthGenerator::new(jun);

    assert_eq!(iter.prev(), Month::new(2019, 6));
    assert_eq!(iter.prev(), Month::new(2019, 5));
}

#[test]
fn backward_step_rolls_january_into_previous_december() {
    let jan = Month::new(2000, 1).unwrap();
    let mut iter = MonthGenerator::new(jan);

    assert_eq!(iter.prev(), Month::new(2000, 1));
    assert_eq!(iter.prev(), Month::new(1999, 12));
}

#[test]
fn forward_then_backward_returns_to_the_start() {
    let dec = Month::new(2019, 12).unwrap();
    let mut iter = MonthGenerator::new(dec);

    iter.next();
    iter.prev();

    assert_eq!(iter.next(), Month::new(2019, 12));
}

#[test]
fn backward_then_forward_returns_to_the_start() {
    let jan = Month::new(2019, 1).unwrap();
    let mut iter = MonthGenerator::new(jan);

    iter.prev();
    iter.next();

    assert_eq!(iter.prev(), Month::new(2019, 1));
}

#[test]
fn nth_prev_zero_is_one_backward_step() {
    let mar = Month::new(2019, 3).unwrap();
    let mut by_count = MonthGenerator::new(mar);
    let mut by_steps = MonthGenerator::new(mar);

    assert_eq!(by_count.nth_prev(0), by_steps.prev());
    assert_eq!(by_count.nth_prev(0), by_steps.prev());
}

#[test]
fn nth_prev_matches_sequential_backward_steps() {
    let mar = Month::new(2019, 3).unwrap();
    let mut by_count = MonthGenerator::new(mar);
    let mut by_steps = MonthGenerator::new(mar);

    by_steps.prev();
    by_steps.prev();
    let last = by_steps.prev();

    assert_eq!(by_count.nth_prev(2), last);
}

#[test]
fn nth_zero_returns_the_starting_month() {
    let jul = Month::new(2019, 7).unwrap();
    let mut iter = MonthGenerator::new(jul);

    assert_eq!(iter.nth(0), Month::new(2019, 7));
}

#[test]
fn fresh_generators_reproduce_the_same_sequence() {
    let oct = Month::new(2019, 10).unwrap();
    let mut first = MonthGenerator::new(oct);
    let mut second = MonthGenerator::new(oct);

    for _ in 0..30 {
        assert_eq!(first.next(), second.next());
    }
}

#[test]
fn forward_exhaustion_at_the_largest_year_is_terminal() {
    let last = Month::new(i32::MAX, 12).unwrap();
    let mut iter = MonthGenerator::new(last);

    assert_eq!(iter.next(), Month::new(i32::MAX, 12));
    assert_eq!(iter.next(), None);
    assert_eq!(iter.next(), None);
    assert_eq!(iter.prev(), None);
    assert_eq!(iter.nth(3), None);
    assert_eq!(iter.nth_prev(3), None);
}

#[test]
fn backward_exhaustion_at_the_smallest_year_is_terminal() {
    let first = Month::new(i32::MIN, 1).unwrap();
    let mut iter = MonthGenerator::new(first);

    assert_eq!(iter.prev(), Month::new(i32::MIN, 1));
    assert_eq!(iter.prev(), None);
    assert_eq!(iter.prev(), None);
    assert_eq!(iter.next(), None);
    assert_eq!(iter.nth_prev(0), None);
}

#[test]
fn nth_prev_propagates_exhaustion() {
    let second = Month::new(i32::MIN, 2).unwrap();
    let mut iter = MonthGenerator::new(second);

    assert_eq!(iter.nth_prev(5), None);
}

#[test]
fn nth_propagates_exhaustion() {
    let eleventh = Month::new(i32::MAX, 11).unwrap();
    let mut iter = MonthGenerator::new(eleventh);

    assert_eq!(iter.nth(5), None);
}
