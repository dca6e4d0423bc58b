//! Fixed-point arithmetic and rendering.

use polybot::fixed::Dec;
use polybot::text::{dec_string, str_eq, u64_string};

#[test]
fn multiplication_rounds_down() {
    // 0.45 * 0.03 = 0.0135
    assert_eq!(Dec::new(450_000).mul(Dec::new(30_000)), Dec::new(13_500));
    // 1/3 of 0.000001 truncates to zero
    assert_eq!(Dec::new(1).mul(Dec::new(333_333)), Dec::new(0));
}

#[test]
fn division_rounds_down_and_caps() {
    // 9 / 0.9 = 10
    assert_eq!(
        Dec::new(9_000_000).div(Dec::new(900_000)),
        Dec::new(10_000_000)
    );
    // capped variant takes the ceiling when the quotient is above it
    assert_eq!(
        Dec::new(9_000_000).div_capped(Dec::new(900_000), Dec::new(5_000_000)),
        Dec::new(5_000_000)
    );
    assert_eq!(
        Dec::new(9_000_000).div_capped(Dec::new(900_000), Dec::new(50_000_000)),
        Dec::new(10_000_000)
    );
}

#[test]
fn percent_ratio_matches_hand_computation() {
    // 0.5 of 300 is 0.166666% truncated at six digits: 0.001666 * 100
    let pct = Dec::new(500_000).percent_ratio(Dec::new(300_000_000));
    assert_eq!(pct, Dec::new(166_600));
    // "0.16" with two places
    assert_eq!(dec_string(pct, 2), "0.16");
}

#[test]
fn arithmetic_helpers() {
    assert_eq!(Dec::new(3).add(Dec::new(4)), Dec::new(7));
    assert_eq!(Dec::new(9).sub(Dec::new(4)), Dec::new(5));
    assert_eq!(Dec::new(9).min(Dec::new(4)), Dec::new(4));
    assert_eq!(Dec::new(9).halve(), Dec::new(4));
    assert!(Dec::new(1).is_positive());
    assert!(!Dec::new(0).is_positive());
    assert!(Dec::new(1).lt(Dec::new(2)));
    assert!(Dec::new(2).gt(Dec::new(1)));
    assert!(Dec::new(2).le(Dec::new(2)));
}

#[test]
fn rendering_amounts() {
    assert_eq!(u64_string(0), "0");
    assert_eq!(u64_string(42), "42");
    assert_eq!(u64_string(1_000_000), "1000000");
    assert_eq!(dec_string(Dec::new(300_000_000), 2), "300.00");
    assert_eq!(dec_string(Dec::new(500_000), 4), "0.5000");
    assert_eq!(dec_string(Dec::new(123_456_789), 6), "123.456789");
    assert_eq!(dec_string(Dec::new(123_456_789), 1), "123.4");
    assert_eq!(dec_string(Dec::new(1), 6), "0.000001");
}

#[test]
fn string_equality_helper() {
    assert!(str_eq("15-min", "15-min"));
    assert!(!str_eq("15-min", "15-mins"));
    assert!(!str_eq("YES", "NO"));
    assert!(str_eq("", ""));
}
