use list_buckets::decimal::decimal_text;
use list_buckets::report::join_lines;
use list_buckets::summary::{all_regions_summary_text, region_summary_text};

#[test]
fn single_digits() {
    let digits = ["0", "1", "2", "3", "4", "5", "6", "7", "8", "9"];
    for (n, digit) in digits.iter().enumerate() {
        assert_eq!(decimal_text(n), *digit);
    }
}

#[test]
fn several_digits() {
    assert_eq!(decimal_text(10), "10");
    assert_eq!(decimal_text(42), "42");
    assert_eq!(decimal_text(100), "100");
    assert_eq!(decimal_text(1009), "1009");
    assert_eq!(decimal_text(9_876_543_210), "9876543210");
}

#[test]
fn largest_count() {
    assert_eq!(decimal_text(usize::MAX), format!("{}", usize::MAX));
}

#[test]
fn decimal_text_agrees_with_std() {
    let mut n: usize = 0;
    while n < 20_000 {
        assert_eq!(decimal_text(n), format!("{}", n));
        n += 7;
    }
}

#[test]
fn summary_of_all_regions() {
    assert_eq!(all_regions_summary_text(0), "Found 0 buckets in all regions.");
    assert_eq!(all_regions_summary_text(1), "Found 1 buckets in all regions.");
    assert_eq!(all_regions_summary_text(250), "Found 250 buckets in all regions.");
}

#[test]
fn summary_of_one_region() {
    assert_eq!(
        region_summary_text(3, "eu-west-1", 17),
        "Found 3 buckets in the eu-west-1 region out of a total of 17 buckets."
    );
    assert_eq!(
        region_summary_text(0, "us-east-1", 0),
        "Found 0 buckets in the us-east-1 region out of a total of 0 buckets."
    );
}

#[test]
fn summary_keeps_the_region_as_written() {
    assert_eq!(
        region_summary_text(1, "Us-East 1", 1),
        "Found 1 buckets in the Us-East 1 region out of a total of 1 buckets."
    );
}

#[test]
fn joining_no_lines() {
    assert_eq!(join_lines(&vec![]), "");
}

#[test]
fn joining_one_line() {
    assert_eq!(join_lines(&vec!["alone".to_string()]), "alone");
}

#[test]
fn joining_lines_puts_breaks_between_them() {
    let lines = vec!["a".to_string(), String::new(), "b".to_string(), String::new()];
    assert_eq!(join_lines(&lines), "a\n\nb\n");
}
