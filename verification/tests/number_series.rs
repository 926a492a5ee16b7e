use quadratic_core::decimal::Decimal;
use quadratic_core::series::{copy_series, find_auto_complete, find_number_series, SeriesOptions};
use quadratic_core::values::CellValue;

fn cell_value_number(values: Vec<i32>) -> Vec<CellValue> {
    values
        .iter()
        .map(|s| CellValue::Number(Decimal::parse(&s.to_string()).unwrap()))
        .collect()
}

fn cell_value_text(values: Vec<&str>) -> Vec<CellValue> {
    values
        .iter()
        .map(|s| CellValue::Text(s.to_string()))
        .collect()
}

#[test]
fn find_a_number_series_positive_addition_by_one() {
    let options = SeriesOptions {
        series: cell_value_number(vec![1, 2, 3]),
        spaces: 4,
        negative: false,
    };
    let results = find_auto_complete(options);
    assert_eq!(results, cell_value_number(vec![4, 5, 6, 7]));
}

#[test]
fn find_a_number_series_positive_addition_by_two() {
    let options = SeriesOptions {
        series: cell_value_number(vec![2, 4, 6]),
        spaces: 4,
        negative: false,
    };
    let results = find_auto_complete(options);
    assert_eq!(results, cell_value_number(vec![8, 10, 12, 14]));
}

#[test]
fn find_a_number_series_positive_addition_by_minus_one() {
    let options = SeriesOptions {
        series: cell_value_number(vec![6, 5, 4]),
        spaces: 4,
        negative: false,
    };
    let results = find_auto_complete(options);
    assert_eq!(results, cell_value_number(vec![3, 2, 1, 0]));
}

#[test]
fn find_a_number_series_positive_addition_by_minus_two() {
    let options = SeriesOptions {
        series: cell_value_number(vec![6, 4, 2]),
        spaces: 4,
        negative: false,
    };
    let results = find_auto_complete(options);
    assert_eq!(results, cell_value_number(vec![0, -2, -4, -6]));
}

#[test]
fn find_a_number_series_positive_addition_by_add_one_negative() {
    let options = SeriesOptions {
        series: cell_value_number(vec![1, 2, 3]),
        spaces: 4,
        negative: true,
    };
    let results = find_auto_complete(options);
    assert_eq!(results, cell_value_number(vec![-3, -2, -1, 0]));
}

#[test]
fn find_a_number_series_positive_addition_by_add_two_negative() {
    let options = SeriesOptions {
        series: cell_value_number(vec![2, 4, 6]),
        spaces: 4,
        negative: true,
    };
    let results = find_auto_complete(options);
    assert_eq!(results, cell_value_number(vec![-6, -4, -2, 0]));
}

#[test]
fn find_a_number_series_positive_addition_by_minus_one_negative() {
    let options = SeriesOptions {
        series: cell_value_number(vec![6, 5, 4]),
        spaces: 4,
        negative: true,
    };
    let results = find_auto_complete(options);
    assert_eq!(results, cell_value_number(vec![10, 9, 8, 7]));
}

#[test]
fn find_a_number_series_positive_addition_by_minus_two_negative() {
    let options = SeriesOptions {
        series: cell_value_number(vec![6, 4, 2]),
        spaces: 4,
        negative: true,
    };
    let results = find_auto_complete(options);
    assert_eq!(results, cell_value_number(vec![14, 12, 10, 8]));
}

#[test]
fn find_a_number_series_positive_positive_multiplication() {
    let options = SeriesOptions {
        series: cell_value_number(vec![2, 4, 8]),
        spaces: 4,
        negative: false,
    };
    let results = find_auto_complete(options);
    assert_eq!(results, cell_value_number(vec![16, 32, 64, 128]));
}

#[test]
fn find_a_number_series_positive_descending_multiplication() {
    let options = SeriesOptions {
        series: cell_value_number(vec![128, 64, 32]),
        spaces: 4,
        negative: false,
    };
    let results = find_auto_complete(options);
    assert_eq!(results, cell_value_number(vec![16, 8, 4, 2]));
}

#[test]
fn find_a_number_series_positive_positive_multiplication_negative() {
    let options = SeriesOptions {
        series: cell_value_number(vec![16, 32, 64, 128]),
        spaces: 4,
        negative: true,
    };
    let results = find_auto_complete(options);
    assert_eq!(results, cell_value_number(vec![1, 2, 4, 8]));
}

#[test]
fn find_a_number_series_positive_descending_multiplication_negative() {
    let options = SeriesOptions {
        series: cell_value_number(vec![128, 64, 32]),
        spaces: 4,
        negative: true,
    };
    let results = find_auto_complete(options);
    assert_eq!(results, cell_value_number(vec![2048, 1024, 512, 256]));
}

#[test]
fn a_single_number_is_repeated() {
    let options = SeriesOptions {
        series: cell_value_number(vec![7]),
        spaces: 3,
        negative: false,
    };
    assert_eq!(find_number_series(options), cell_value_number(vec![7, 7, 7]));
}

#[test]
fn numbers_without_a_common_step_are_repeated() {
    let options = SeriesOptions {
        series: cell_value_number(vec![1, 2, 4, 7]),
        spaces: 6,
        negative: false,
    };
    assert_eq!(
        find_auto_complete(options),
        cell_value_number(vec![1, 2, 4, 7, 1, 2])
    );
    // before the values the repetition ends with the last of them
    let options = SeriesOptions {
        series: cell_value_number(vec![1, 2, 4, 7]),
        spaces: 6,
        negative: true,
    };
    assert_eq!(
        find_auto_complete(options),
        cell_value_number(vec![4, 7, 1, 2, 4, 7])
    );
}

#[test]
fn a_series_through_zero_goes_on_by_its_difference() {
    let options = SeriesOptions {
        series: cell_value_number(vec![-2, 0, 2]),
        spaces: 2,
        negative: false,
    };
    assert_eq!(find_auto_complete(options), cell_value_number(vec![4, 6]));
    let options = SeriesOptions {
        series: cell_value_number(vec![0, 0]),
        spaces: 2,
        negative: true,
    };
    assert_eq!(find_auto_complete(options), cell_value_number(vec![0, 0]));
}

#[test]
fn other_values_are_repeated_and_nothing_follows_from_nothing() {
    let options = SeriesOptions {
        series: cell_value_text(vec!["a", "b"]),
        spaces: 3,
        negative: false,
    };
    assert_eq!(
        find_auto_complete(options),
        cell_value_text(vec!["a", "b", "a"])
    );
    let options = SeriesOptions {
        series: vec![],
        spaces: 3,
        negative: false,
    };
    assert_eq!(find_auto_complete(options), vec![]);
    let options = SeriesOptions {
        series: cell_value_text(vec!["a"]),
        spaces: -1,
        negative: false,
    };
    assert_eq!(copy_series(options), vec![]);
}

#[test]
fn decimals_compare_by_value_and_keep_their_precision() {
    let half = Decimal::parse("0.5").unwrap();
    let five_tenths = Decimal::parse("0.50").unwrap();
    assert_eq!(half, five_tenths);
    assert_ne!(half, Decimal::parse("0.51").unwrap());
    let sum = half.checked_add(&five_tenths).unwrap();
    assert_eq!(sum, Decimal::parse("1").unwrap());
    assert_eq!(
        Decimal::parse("7").unwrap().checked_sub(&Decimal::parse("9").unwrap()),
        Decimal::parse("-2")
    );
    assert_eq!(
        Decimal::parse("1.5").unwrap().checked_mul(&Decimal::parse("4").unwrap()),
        Decimal::parse("6")
    );
    assert_eq!(
        Decimal::parse("1").unwrap().checked_div(&Decimal::parse("8").unwrap()),
        Decimal::parse("0.125")
    );
    assert_eq!(
        Decimal::parse("1").unwrap().checked_div(&Decimal::zero()),
        None
    );
    assert!(Decimal::parse("0.000").unwrap().is_zero());
    assert!(Decimal::zero().is_zero());
    assert_eq!(Decimal::parse("abc"), None);
    assert_eq!(Decimal::parse(""), None);
    // a scale beyond the range is not taken for a number
    assert_eq!(Decimal::parse("1e-20000"), None);
    assert!(Decimal::parse("1e-9999").is_some());
}

#[test]
fn equal_numbers_of_many_digits_and_different_scales_are_the_same() {
    let long = Decimal::parse("7922816251533193472.0000000000").unwrap();
    let short = Decimal::parse("7922816251533193472").unwrap();
    assert_eq!(long.scale, 10);
    assert_eq!(short.scale, 0);
    assert!(long.same_as(&short));
    assert!(short.same_as(&long));
    assert_eq!(long, short);
    let other = Decimal::parse("7922816251533193472.0000000001").unwrap();
    assert!(!long.same_as(&other));
    assert!(!other.same_as(&short));
    // zero is the same as zero, however it is written
    assert!(Decimal::zero().same_as(&Decimal::parse("0.000").unwrap()));
    assert!(Decimal::parse("-0").unwrap().same_as(&Decimal::zero()));
    assert!(!Decimal::parse("-1").unwrap().same_as(&Decimal::parse("1").unwrap()));
}
