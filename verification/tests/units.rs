use std::cmp::Ordering;
use uniswap_backend::rate::{rate_places, rate_terms, rate_text};
use uniswap_backend::units::{
    add_base, compare_base, from_base_units, from_base_units_exact, is_digits, to_base_units,
};

fn base(u: &str, d: u32) -> String {
    to_base_units(u, d).unwrap_or_default()
}

#[test]
fn token_units_become_base_units_exactly_or_are_refused() {
    assert_eq!(base("1.5", 6), "1500000");
    assert_eq!(base("1000", 6), "1000000000");
    assert_eq!(base(".5", 18), "500000000000000000");
    assert_eq!(base("5.", 18), "5000000000000000000");
    assert_eq!(base("0.000000000000000001", 18), "1");
    assert_eq!(base("0", 18), "0", "zero is an amount of nothing, not a refusal");
    assert_eq!(base("0.0", 6), "0");
    assert_eq!(base("007", 2), "700");
    assert_eq!(base("  2 ", 0), "2");
    for refused in [("1.1234567", 6), ("ten", 6), ("-1", 6), ("1,5", 6), ("", 6), (".", 6), ("1.2.3", 6)] {
        assert_eq!(to_base_units(refused.0, refused.1), None, "{refused:?}");
    }
}

#[test]
fn base_units_read_back_exactly_and_display_truncated() {
    let exact = |b: &str, d| from_base_units_exact(b, d).unwrap_or_default();
    assert_eq!(exact("1500000", 6), "1.5");
    assert_eq!(exact("1", 18), "0.000000000000000001");
    assert_eq!(exact("5000000000000000000", 18), "5");
    assert_eq!(exact("0", 18), "0");
    assert_eq!(exact("42", 0), "42");
    let shown = |b: &str, d| from_base_units(b, d).unwrap_or_default();
    assert_eq!(shown("333277787035494084", 18), "0.33327");
    assert_eq!(shown("199999", 6), "0.19999", "never rounding up");
    assert_eq!(shown("1", 18), "<0.00001");
    assert_eq!(shown("0", 18), "0");
    assert_eq!(shown("1500000", 6), "1.5");
    assert_eq!(from_base_units("abc", 6), None);
}

#[test]
fn amounts_compare_numerically() {
    assert_eq!(compare_base("999", "1000"), Ordering::Less);
    assert_eq!(compare_base("1000", "999"), Ordering::Greater);
    assert_eq!(compare_base("0001000", "1000"), Ordering::Equal);
    assert_eq!(compare_base("1999", "2000"), Ordering::Less);
    assert_eq!(compare_base("5000000000000", "5000000000001"), Ordering::Less);
    assert_eq!(compare_base("0", "000"), Ordering::Equal);
}

#[test]
fn amounts_add_exactly_past_any_integer_width() {
    assert_eq!(add_base("999", "1").as_deref(), Some("1000"));
    assert_eq!(add_base("0", "0").as_deref(), Some("0"));
    assert_eq!(add_base("007", "3").as_deref(), Some("10"));
    let big = "115792089237316195423570985008687907853269984665640564039457584007913129639935";
    assert_eq!(
        add_base(big, "1").as_deref(),
        Some("115792089237316195423570985008687907853269984665640564039457584007913129639936")
    );
    assert_eq!(add_base("1", "x"), None);
    assert_eq!(add_base("", "1"), None);
}

/// The rate line as an application works it out: the float between the library's two halves.
fn rate_of(amount_in: &str, decimals_in: u32, amount_out: &str, decimals_out: u32) -> Option<String> {
    let (i, o) = rate_terms(amount_in, decimals_in, amount_out, decimals_out)?;
    let (i, o): (f64, f64) = (i.parse().ok()?, o.parse().ok()?);
    if !(i > 0.0) || !(o > 0.0) {
        return None;
    }
    let r = o / i;
    let places = rate_places(&format!("{r:.5e}"));
    Some(rate_text(&format!("{r:.*}", places)))
}

#[test]
fn the_rate_line_has_six_significant_digits() {
    assert_eq!(rate_of("1000000000", 6, "333277787035494084", 18).as_deref(), Some("0.000333278"));
    assert_eq!(rate_of("333277787035494084", 18, "1000000000", 6).as_deref(), Some("3000.5"));
    assert_eq!(rate_of("0", 6, "5", 18), None);
    assert_eq!(rate_of("x", 6, "5", 18), None);
    assert_eq!(rate_of("1", 0, "1234567", 0).as_deref(), Some("1234567"), "past %g's range");
    assert_eq!(rate_of("100000", 0, "1", 0).as_deref(), Some("0.00001"));
}

#[test]
fn a_rate_is_written_to_six_significant_digits_or_twelve_places() {
    for (scientific, places) in [
        ("3.33278e-4", 9),
        ("1.00000e-5", 12),
        ("3.00050e3", 2),
        ("1.23457e5", 0),
        ("1.23457e6", 12),
        ("1.00000e0", 5),
        ("1.00000e+2", 3),
        ("NaN", 5),
        ("1e99999999999999999999", 5),
        ("1e-2147483648", 12),
        ("1e-2147483649", 5),
    ] {
        assert_eq!(rate_places(scientific), places, "{scientific}");
    }
    assert_eq!(rate_text("100"), "100");
    assert_eq!(rate_text("100.00"), "100");
    assert_eq!(rate_text("0.1200"), "0.12");
    assert_eq!(rate_terms("15", 1, "7", 0), Some(("1.5".to_string(), "7".to_string())));
    assert_eq!(rate_terms("15", 1, "-7", 0), None);
    for (sold, bought) in [("0", "7"), ("7", "000"), ("00", "0")] {
        assert_eq!(rate_terms(sold, 1, bought, 0), None, "nothing has no rate");
    }
}

/// What is typed survives the trip to base units and back, and its display is never above it.
#[test]
fn a_typed_amount_reads_back_as_it_was_typed() {
    for (typed, decimals) in [("1.5", 6), ("0.000001", 6), ("42", 0), ("123456789.987654321", 18)] {
        let base = to_base_units(typed, decimals).unwrap();
        assert_eq!(from_base_units_exact(&base, decimals).as_deref(), Some(typed));
    }
    assert_eq!(to_base_units("1", 77).map(|s| s.len()), Some(78));
    assert_eq!(to_base_units("1", 78), None, "no token has more than 77 places");
    assert_eq!(from_base_units("999999", 6).as_deref(), Some("0.99999"));
    assert_eq!(from_base_units("0001", 6).as_deref(), Some("<0.00001"));
    assert_eq!(from_base_units("00", 6).as_deref(), Some("0"));
}

#[test]
fn digits_are_ascii_digits_and_nothing_else() {
    assert!(is_digits("0123456789"));
    for other in ["", " 1", "1 ", "-1", "1.0", "\u{661}", "0x1"] {
        assert!(!is_digits(other), "{other}");
    }
}
