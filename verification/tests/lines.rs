use tid::fixed::{push_decimal, push_millis, round_ten_thousandths};
use tid::line::{timed_line, timer_line};

fn decimal(n: u64) -> String {
    let mut out = String::new();
    push_decimal(&mut out, n);
    out
}

fn float_text(ns: u64) -> String {
    format!("{:.4}", ns as f64 / 1_000_000.0)
}

fn millis(ns: u64) -> String {
    let mut out = String::new();
    push_millis(&mut out, ns);
    out
}

#[test]
fn decimal_of_small_and_large_numbers() {
    assert_eq!(decimal(0), "0");
    assert_eq!(decimal(7), "7");
    assert_eq!(decimal(10), "10");
    assert_eq!(decimal(1234567890), "1234567890");
    assert_eq!(decimal(u64::MAX), "18446744073709551615");
}

#[test]
fn decimal_is_appended_to_what_is_there() {
    let mut out = String::from("n=");
    push_decimal(&mut out, 405);
    assert_eq!(out, "n=405");
}

#[test]
fn rounding_goes_to_the_nearest_unit() {
    assert_eq!(round_ten_thousandths(0), 0);
    assert_eq!(round_ten_thousandths(49), 0);
    assert_eq!(round_ten_thousandths(51), 1);
    assert_eq!(round_ten_thousandths(100), 1);
    assert_eq!(round_ten_thousandths(149), 1);
    assert_eq!(round_ten_thousandths(151), 2);
    assert_eq!(round_ten_thousandths(100_000_000), 1_000_000);
}

#[test]
fn rounding_of_a_tie_follows_the_binary_quotient() {
    assert_eq!(round_ten_thousandths(50), 1);
    assert_eq!(round_ten_thousandths(150), 1);
    assert_eq!(round_ten_thousandths(250), 3);
    assert_eq!(round_ten_thousandths(350), 3);
    assert_eq!(millis(50), "0.0001");
    assert_eq!(millis(150), "0.0001");
    assert_eq!(millis(250), "0.0003");
    assert_eq!(millis(350), "0.0003");
}

#[test]
fn rounding_of_a_tie_that_binary_holds_goes_to_the_even_unit() {
    assert_eq!(round_ten_thousandths(31_250), 312);
    assert_eq!(round_ten_thousandths(93_750), 938);
    assert_eq!(millis(31_250), "0.0312");
    assert_eq!(millis(93_750), "0.0938");
}

#[test]
fn rounding_of_a_count_beyond_53_bits_goes_through_the_nearest_binary_number() {
    assert_eq!(round_ten_thousandths(u64::MAX), 184_467_440_737_095_508);
    assert_eq!(millis(u64::MAX), "18446744073709.5508");
    assert_eq!(millis(u64::MAX), float_text(u64::MAX));
}

#[test]
fn millis_have_four_fractional_digits() {
    assert_eq!(millis(0), "0.0000");
    assert_eq!(millis(1), "0.0000");
    assert_eq!(millis(100), "0.0001");
    assert_eq!(millis(1_000), "0.0010");
    assert_eq!(millis(1_000_000), "1.0000");
    assert_eq!(millis(1_234_567), "1.2346");
    assert_eq!(millis(120_040), "0.1200");
    assert_eq!(millis(21_981_220), "21.9812");
    assert_eq!(millis(999_999_960), "1000.0000");
}

#[test]
fn millis_agree_with_float_formatting() {
    let samples: [u64; 24] = [
        0,
        1,
        50,
        99,
        150,
        250,
        350,
        12_345,
        31_250,
        93_750,
        1_000_000,
        7_001_240,
        100_000_000,
        250_000_000,
        999_999_949,
        999_999_950,
        86_400_000_000_123,
        9_007_199_254_740_991,
        9_007_199_254_740_992,
        9_007_199_254_740_993,
        9_007_199_254_740_995,
        1_000_000_000_000_000_050,
        u64::MAX - 1024,
        u64::MAX,
    ];
    for ns in samples {
        assert_eq!(millis(ns), float_text(ns), "{} ns", ns);
    }
}

#[test]
fn millis_agree_with_float_formatting_on_every_tie_below_20_ms() {
    let mut ns: u64 = 50;
    while ns < 20_000_000 {
        assert_eq!(millis(ns), float_text(ns), "{} ns", ns);
        ns += 100;
    }
}

#[test]
fn millis_agree_with_float_formatting_on_every_count_below_200_us() {
    for ns in 0..200_000u64 {
        assert_eq!(millis(ns), float_text(ns), "{} ns", ns);
    }
}

#[test]
fn millis_agree_with_float_formatting_on_ties_of_every_size() {
    let mut state: u64 = 0x9E37_79B9_7F4A_7C15;
    for i in 0..100_000u32 {
        state = state.wrapping_mul(6_364_136_223_846_793_005).wrapping_add(1_442_695_040_888_963_407);
        let k = state >> (i % 58 + 6);
        let ns = match k.checked_mul(100).and_then(|n| n.checked_add(50)) {
            Some(ns) => ns,
            None => k,
        };
        assert_eq!(millis(ns), float_text(ns), "{} ns", ns);
    }
}

#[test]
fn millis_agree_with_float_formatting_on_counts_of_every_size() {
    let mut state: u64 = 0x2545_F491_4F6C_DD1D;
    for i in 0..200_000u32 {
        state = state.wrapping_mul(6_364_136_223_846_793_005).wrapping_add(1_442_695_040_888_963_407);
        let ns = state >> (i % 64);
        assert_eq!(millis(ns), float_text(ns), "{} ns", ns);
    }
}

#[test]
fn millis_agree_with_float_formatting_around_powers_of_two() {
    for bit in 0..64u32 {
        let p: u64 = 1 << bit;
        for d in 0..300u64 {
            let up = p.saturating_add(d);
            let down = p.saturating_sub(d);
            assert_eq!(millis(up), float_text(up), "{} ns", up);
            assert_eq!(millis(down), float_text(down), "{} ns", down);
        }
    }
    for d in 0..5000u64 {
        let ns = u64::MAX - d;
        assert_eq!(millis(ns), float_text(ns), "{} ns", ns);
    }
}

#[test]
fn lines_agree_with_float_formatting() {
    let mut state: u64 = 0xD6E8_FEB8_6659_FD93;
    for i in 0..20_000u32 {
        state = state.wrapping_mul(6_364_136_223_846_793_005).wrapping_add(1_442_695_040_888_963_407);
        let ns = state >> (i % 64);
        assert_eq!(
            timed_line("hei", ns),
            format!("[timed] {:<26} {:9.4}ms", "hei", ns as f64 / 1_000_000.0)
        );
        assert_eq!(
            timer_line("Doing f", ns),
            format!("\t[timer] {:<26} {:9.4}ms", "Doing f", ns as f64 / 1_000_000.0)
        );
    }
}

#[test]
fn timed_line_has_the_documented_format() {
    assert_eq!(timed_line("hei", 1), "[timed] hei                           0.0000ms");
    assert_eq!(
        timed_line("pushing some stuff", 1_500_000),
        "[timed] pushing some stuff            1.5000ms"
    );
    assert_eq!(
        timed_line("hei", 1_500_000),
        format!("[timed] {:<26} {:9.4}ms", "hei", 1_500_000 as f64 / 1_000_000.0)
    );
}

#[test]
fn timer_line_has_the_documented_format() {
    assert_eq!(timer_line("Doing f", 120_040), "\t[timer] Doing f                       0.1200ms");
    assert_eq!(
        timer_line("G is executed", 21_981_220),
        format!("\t[timer] {:<26} {:9.4}ms", "G is executed", 21_981_220 as f64 / 1_000_000.0)
    );
}

#[test]
fn label_of_three_characters_gets_23_spaces() {
    let line = timed_line("abc", 0);
    let expected = format!("[timed] abc{}    0.0000ms", " ".repeat(23));
    assert_eq!(line, expected);
    assert_eq!(line, format!("[timed] {:<26} {:9.4}ms", "abc", 0.0f64));
    assert_eq!(&line[8..11], "abc");
    assert_eq!(&line[11..34], " ".repeat(23));
    assert_eq!(&line[34..35], " ");
    assert_eq!(&line[35..], "   0.0000ms");
}

#[test]
fn label_of_26_characters_gets_no_padding() {
    let label = "abcdefghijklmnopqrstuvwxyz";
    assert_eq!(label.len(), 26);
    assert_eq!(timed_line(label, 2_500_000), "[timed] abcdefghijklmnopqrstuvwxyz    2.5000ms");
    assert_eq!(
        timer_line(label, 2_500_000),
        "\t[timer] abcdefghijklmnopqrstuvwxyz    2.5000ms"
    );
}

#[test]
fn longer_label_is_kept_whole() {
    let label = "a label that is longer than the column";
    assert_eq!(
        timed_line(label, 3_000_000),
        "[timed] a label that is longer than the column    3.0000ms"
    );
    assert_eq!(
        timed_line(label, 3_000_000),
        format!("[timed] {:<26} {:9.4}ms", label, 3.0f64)
    );
}

#[test]
fn empty_label_is_all_padding() {
    assert_eq!(timed_line("", 0), format!("[timed] {}    0.0000ms", " ".repeat(26)));
    assert_eq!(timed_line("", 0), format!("[timed] {:<26} {:9.4}ms", "", 0.0f64));
}

#[test]
fn label_width_counts_characters_not_bytes() {
    let label = "blåbærsyltetøy";
    assert_eq!(timed_line(label, 0), format!("[timed] {:<26} {:9.4}ms", label, 0.0f64));
    assert_eq!(timed_line(label, 0).chars().count(), 8 + 26 + 1 + 9 + 2);
}

#[test]
fn wide_milliseconds_are_not_cut() {
    assert_eq!(timed_line("x", 12_345_678_900_000), format!("[timed] {:<26} 12345678.9000ms", "x"));
    assert_eq!(timed_line("x", 1_234_567_890_000), format!("[timed] {:<26} 1234567.8900ms", "x"));
    assert_eq!(timed_line("x", 123_456_789_000), format!("[timed] {:<26} 123456.7890ms", "x"));
    assert_eq!(timed_line("x", 12_345_678_900), format!("[timed] {:<26} 12345.6789ms", "x"));
    assert_eq!(timed_line("x", 1_234_567_800), format!("[timed] {:<26} 1234.5678ms", "x"));
    assert_eq!(timed_line("x", 123_456_700), format!("[timed] {:<26}  123.4567ms", "x"));
}
