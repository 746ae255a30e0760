use nalufx::numeric::fixed::Fixed;
use nalufx::numeric::sample::Sample;
use nalufx::utils::currency::{format_currency, to_cents};

fn fixed(value: f64) -> Fixed {
    Sample::from_bits(value.to_bits()).to_fixed()
}

#[test]
fn amounts_are_grouped_and_rounded_to_cents() {
    assert_eq!(format_currency(fixed(1234.5678)), "$1,234.57");
    assert_eq!(format_currency(fixed(-1234.5678)), "-$1,234.57");
    assert_eq!(format_currency(fixed(0.0)), "$0.00");
    assert_eq!(format_currency(fixed(0.07)), "$0.07");
    assert_eq!(format_currency(fixed(5.5)), "$5.50");
    assert_eq!(format_currency(fixed(999.0)), "$999.00");
    assert_eq!(format_currency(fixed(1000.0)), "$1,000.00");
    assert_eq!(format_currency(fixed(1000000.0)), "$1,000,000.00");
    assert_eq!(format_currency(fixed(1234567.891)), "$1,234,567.89");
    assert_eq!(format_currency(fixed(100200.03)), "$100,200.03");
    assert_eq!(format_currency(fixed(-12.0)), "-$12.00");
}

#[test]
fn halves_of_a_cent_go_away_from_zero() {
    assert_eq!(format_currency(fixed(999.999)), "$1,000.00");
    assert_eq!(format_currency(fixed(0.125)), "$0.13");
    assert_eq!(format_currency(fixed(-0.125)), "-$0.13");
    assert_eq!(format_currency(fixed(0.375)), "$0.38");
    assert_eq!(format_currency(fixed(2.25)), "$2.25");
    assert_eq!(to_cents(fixed(0.125)), 13);
    assert_eq!(to_cents(fixed(-0.125)), 13);
    assert_eq!(to_cents(Fixed::from_raw(21474836)), 0);
    assert_eq!(to_cents(Fixed::from_raw(21474837)), 1);
}

#[test]
fn a_negative_amount_below_half_a_cent_keeps_its_sign() {
    assert_eq!(format_currency(fixed(-0.001)), "-$0.00");
    assert_eq!(format_currency(fixed(0.001)), "$0.00");
}

#[test]
fn the_ends_of_the_range_are_formatted() {
    assert_eq!(format_currency(Fixed::from_raw(i64::MAX)), "$2,147,483,648.00");
    assert_eq!(format_currency(Fixed::from_raw(i64::MIN)), "-$2,147,483,648.00");
    assert_eq!(to_cents(Fixed::from_raw(i64::MIN)), 214748364800);
}
