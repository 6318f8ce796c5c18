use sensor_station::aggregate::Mean;

#[test]
fn mean_of_no_values_is_refused() {
    assert!(Mean::of(&[]).is_none());
}

#[test]
fn mean_of_values_keeps_sum_and_count() {
    let mean = Mean::of(&[200, 210, 220, 230]).unwrap();
    assert_eq!(mean.sum_of_samples(), 860);
    assert_eq!(mean.sample_count(), 4);
    assert_eq!(mean.to_thousandths(), 21500);
}

#[test]
fn mean_of_equal_values_is_that_value() {
    let mean = Mean::of(&[500; 10]).unwrap();
    assert_eq!(mean.sum_of_samples(), 5000);
    assert_eq!(mean.sample_count(), 10);
    assert_eq!(mean.to_thousandths(), 50000);
}

#[test]
fn mean_of_extreme_values_does_not_overflow() {
    let high = Mean::of(&[i32::MAX; 7]).unwrap();
    assert_eq!(high.sum_of_samples(), 7 * (i32::MAX as i128));
    assert_eq!(high.to_thousandths(), 214748364700);
    let low = Mean::of(&[i32::MIN; 7]).unwrap();
    assert_eq!(low.sum_of_samples(), 7 * (i32::MIN as i128));
    assert_eq!(low.to_thousandths(), -214748364800);
}

#[test]
fn mean_of_one_sample() {
    let mean = Mean::of_sample(-215);
    assert_eq!(mean.sum_of_samples(), -215);
    assert_eq!(mean.sample_count(), 1);
    assert_eq!(mean.to_thousandths(), -21500);
}

#[test]
fn new_mean_needs_a_sample_and_a_sum_in_range() {
    assert!(Mean::new(0, 0).is_none());
    assert!(Mean::new(5, 0).is_none());
    assert!(Mean::new(5, 1).is_some());
    assert!(Mean::new(i32::MAX as i128, 1).is_some());
    assert!(Mean::new(i32::MAX as i128 + 1, 1).is_none());
    assert!(Mean::new(i32::MIN as i128, 1).is_some());
    assert!(Mean::new(i32::MIN as i128 - 1, 1).is_none());
    assert!(Mean::new(2 * (i32::MAX as i128), 2).is_some());
    assert!(Mean::new(2 * (i32::MAX as i128) + 1, 2).is_none());
    let mean = Mean::new(-430, 20).unwrap();
    assert_eq!(mean.sum_of_samples(), -430);
    assert_eq!(mean.sample_count(), 20);
}

#[test]
fn thousandths_are_exact_where_the_count_divides() {
    assert_eq!(Mean::new(2450, 10).unwrap().to_thousandths(), 24500);
    assert_eq!(Mean::new(5530, 10).unwrap().to_thousandths(), 55300);
    assert_eq!(Mean::new(1, 8).unwrap().to_thousandths(), 13);
    assert_eq!(Mean::new(1, 4).unwrap().to_thousandths(), 25);
}

#[test]
fn thousandths_round_to_the_nearest() {
    // 10/3 tenths are 333.33.. thousandths, 20/3 tenths are 666.66..
    assert_eq!(Mean::new(10, 3).unwrap().to_thousandths(), 333);
    assert_eq!(Mean::new(20, 3).unwrap().to_thousandths(), 667);
    assert_eq!(Mean::new(-10, 3).unwrap().to_thousandths(), -333);
    assert_eq!(Mean::new(-20, 3).unwrap().to_thousandths(), -667);
}

#[test]
fn thousandths_round_a_half_away_from_zero() {
    // 1/200 tenths are half a thousandth, 3/200 are one and a half
    assert_eq!(Mean::new(1, 200).unwrap().to_thousandths(), 1);
    assert_eq!(Mean::new(-1, 200).unwrap().to_thousandths(), -1);
    assert_eq!(Mean::new(3, 200).unwrap().to_thousandths(), 2);
    assert_eq!(Mean::new(-3, 200).unwrap().to_thousandths(), -2);
    assert_eq!(Mean::new(1, 201).unwrap().to_thousandths(), 0);
    assert_eq!(Mean::new(-1, 201).unwrap().to_thousandths(), 0);
}
