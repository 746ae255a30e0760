use nalufx::numeric::fixed::{clamp_wide, quotient_wide, Fixed, Share, FRACTION_BITS, ONE_RAW};
use nalufx::numeric::sample::{Sample, CASH_FLOW_LIMIT_BITS, RETURN_LIMIT_BITS};

const ONE: i64 = 4294967296;

fn sample(value: f64) -> Sample {
    Sample::from_bits(value.to_bits())
}

fn fixed(value: f64) -> Fixed {
    sample(value).to_fixed()
}

#[test]
fn constants_describe_the_format() {
    assert_eq!(FRACTION_BITS, 32);
    assert_eq!(ONE_RAW, 1i64 << FRACTION_BITS);
    assert_eq!(Fixed::one().raw(), ONE);
    assert_eq!(Fixed::zero().raw(), 0);
    assert!(Fixed::zero().is_zero());
    assert!(!Fixed::one().is_zero());
    assert_eq!(Fixed::from_raw(-7).raw(), -7);
}

#[test]
fn sums_and_differences_saturate() {
    assert_eq!(fixed(1.5).add(fixed(2.25)), fixed(3.75));
    assert_eq!(fixed(1.5).sub(fixed(2.25)), fixed(-0.75));
    assert_eq!(Fixed::from_raw(i64::MAX).add(Fixed::from_raw(1)).raw(), i64::MAX);
    assert_eq!(Fixed::from_raw(i64::MIN).sub(Fixed::from_raw(1)).raw(), i64::MIN);
    assert_eq!(Fixed::from_raw(i64::MIN).add(Fixed::from_raw(i64::MIN)).raw(), i64::MIN);
}

#[test]
fn products_round_toward_zero_and_saturate() {
    assert_eq!(fixed(1.5).mul(fixed(2.0)).raw(), 12884901888);
    assert_eq!(fixed(-1.5).mul(fixed(0.5)).raw(), -3221225472);
    assert_eq!(Fixed::from_raw(1).mul(Fixed::from_raw(1)).raw(), 0);
    assert_eq!(Fixed::from_raw(-1).mul(Fixed::from_raw(1)).raw(), 0);
    assert_eq!(Fixed::from_raw(-3).mul(fixed(0.5)).raw(), -1);
    assert_eq!(Fixed::from_raw(i64::MAX).mul(fixed(2.0)).raw(), i64::MAX);
    assert_eq!(Fixed::from_raw(i64::MIN).mul(fixed(2.0)).raw(), i64::MIN);
    assert_eq!(Fixed::from_raw(i64::MIN).mul(Fixed::from_raw(i64::MIN)).raw(), i64::MAX);
}

#[test]
fn quotients_round_toward_zero_and_saturate() {
    assert_eq!(fixed(1.0).div(fixed(3.0)).raw(), 1431655765);
    assert_eq!(fixed(-1.0).div(fixed(3.0)).raw(), -1431655765);
    assert_eq!(fixed(1.0).div(fixed(-3.0)).raw(), -1431655765);
    assert_eq!(fixed(-1.0).div(fixed(-3.0)).raw(), 1431655765);
    assert_eq!(fixed(6.0).div(fixed(1.5)), fixed(4.0));
    assert_eq!(fixed(5.0).div(Fixed::from_raw(1)).raw(), i64::MAX);
    assert_eq!(fixed(-5.0).div(Fixed::from_raw(1)).raw(), i64::MIN);
    assert_eq!(fixed(0.0).div(fixed(-3.0)).raw(), 0);
}

#[test]
fn whole_multiples_saturate() {
    assert_eq!(fixed(0.25).times(7).raw(), 7516192768);
    assert_eq!(fixed(-0.25).times(0).raw(), 0);
    assert_eq!(Fixed::from_raw(i64::MAX).times(2).raw(), i64::MAX);
    assert_eq!(Fixed::from_raw(i64::MIN).times(usize::MAX).raw(), i64::MIN);
    assert_eq!(Fixed::from_raw(1).times(usize::MAX).raw(), usize::MAX.min(i64::MAX as usize) as i64);
}

#[test]
fn shares_hold_what_a_fixed_point_number_cannot() {
    assert_eq!(Share::from_raw(5).raw(), 5);
    assert_eq!(Share::from_raw(5).to_fixed().raw(), 5);
    assert_eq!(Share::from_raw(-(ONE as i128)).to_fixed(), fixed(-1.0));
    assert_eq!(Share::from_raw(1i128 << 95).to_fixed().raw(), i64::MAX);
    assert_eq!(Share::from_raw(-(1i128 << 95)).to_fixed().raw(), i64::MIN);
}

#[test]
fn wide_helpers_round_and_clamp() {
    assert_eq!(quotient_wide(7, 2), 3);
    assert_eq!(quotient_wide(-7, 2), -3);
    assert_eq!(quotient_wide(7, -2), -3);
    assert_eq!(quotient_wide(-7, -2), 3);
    assert_eq!(quotient_wide(0, -5), 0);
    assert_eq!(quotient_wide(i128::MAX, 1), i128::MAX);
    assert_eq!(clamp_wide(5).raw(), 5);
    assert_eq!(clamp_wide(i128::MAX).raw(), i64::MAX);
    assert_eq!(clamp_wide(i128::MIN).raw(), i64::MIN);
    assert_eq!(clamp_wide(i64::MIN as i128).raw(), i64::MIN);
}

#[test]
fn patterns_are_classified() {
    assert!(sample(f64::NAN).is_nan());
    assert!(sample(-f64::NAN).is_nan());
    assert!(Sample::from_bits(0x7FF0_0000_0000_0001).is_nan());
    assert!(!sample(f64::INFINITY).is_nan());
    assert!(!sample(1.0).is_nan());
    assert!(sample(f64::INFINITY).is_infinite());
    assert!(sample(f64::NEG_INFINITY).is_infinite());
    assert!(!sample(f64::MAX).is_infinite());
    assert!(!sample(f64::NAN).is_infinite());
    assert!(sample(f64::MAX).is_finite());
    assert!(sample(-0.0).is_finite());
    assert!(sample(5e-324).is_finite());
    assert!(!sample(f64::NAN).is_finite());
    assert!(!sample(f64::NEG_INFINITY).is_finite());
    assert_eq!(sample(1.0).to_bits(), 0x3FF0_0000_0000_0000);
}

#[test]
fn limits_are_one_and_one_million() {
    assert_eq!(RETURN_LIMIT_BITS, 1.0f64.to_bits());
    assert_eq!(CASH_FLOW_LIMIT_BITS, 1_000_000.0f64.to_bits());
    assert_eq!(Sample::return_limit(), sample(1.0));
    assert_eq!(Sample::cash_flow_limit(), sample(1_000_000.0));
}

#[test]
fn magnitudes_are_compared_as_doubles_are() {
    let values = [
        0.0,
        -0.0,
        5e-324,
        -5e-324,
        2.2250738585072014e-308,
        0.5,
        -0.5,
        1.0,
        -1.0,
        1.0000000000000002,
        999999.9999999999,
        1e6,
        -1000000.0000000001,
        1e300,
        f64::MAX,
        f64::INFINITY,
        f64::NEG_INFINITY,
        f64::NAN,
    ];
    for a in values {
        for b in values {
            assert_eq!(sample(a).exceeds(sample(b)), a.abs() > b.abs(), "{a} against {b}");
        }
    }
}

#[test]
fn finite_doubles_become_fixed_point_numbers() {
    assert_eq!(fixed(0.0).raw(), 0);
    assert_eq!(fixed(-0.0).raw(), 0);
    assert_eq!(fixed(1.0).raw(), ONE);
    assert_eq!(fixed(-2.5).raw(), -10737418240);
    assert_eq!(fixed(0.1).raw(), 429496729);
    assert_eq!(fixed(-0.1).raw(), -429496729);
    assert_eq!(fixed(0.02).raw(), 85899345);
    assert_eq!(fixed(1e6).raw(), 4294967296000000);
    assert_eq!(fixed(2147483647.5).raw(), 9223372034707292160);
    assert_eq!(fixed(5e-324).raw(), 0);
    assert_eq!(fixed(2.3283064365386963e-10).raw(), 1);
    assert_eq!(fixed(-2.3283064365386963e-10).raw(), -1);
    assert_eq!(fixed(2.3e-10).raw(), 0);
}

#[test]
fn only_finite_doubles_convert() {
    assert_eq!(sample(0.5).try_to_fixed(), Some(Fixed::from_raw(ONE / 2)));
    assert_eq!(sample(-1e300).try_to_fixed(), Some(Fixed::from_raw(i64::MIN)));
    assert_eq!(sample(f64::NAN).try_to_fixed(), None);
    assert_eq!(sample(f64::INFINITY).try_to_fixed(), None);
    assert_eq!(sample(f64::NEG_INFINITY).try_to_fixed(), None);
}

#[test]
fn doubles_out_of_range_saturate() {
    assert_eq!(fixed(2147483648.0).raw(), i64::MAX);
    assert_eq!(fixed(-2147483648.0).raw(), i64::MIN);
    assert_eq!(fixed(-2147483648.5).raw(), i64::MIN);
    assert_eq!(fixed(1e300).raw(), i64::MAX);
    assert_eq!(fixed(-1e300).raw(), i64::MIN);
    assert_eq!(fixed(f64::MAX).raw(), i64::MAX);
}

#[test]
fn conversion_agrees_with_scaling_for_ordinary_values() {
    let values = [3.25, -17.125, 1234.56789, 0.000123, -99999.5, 1048576.0, 0.999999999];
    for x in values {
        assert_eq!(fixed(x).raw(), (x * 4294967296.0).trunc() as i64, "{x}");
    }
}

#[test]
fn fixed_point_numbers_become_doubles() {
    let exact = [0.0, 0.5, -2.5, 1.0, -1.0, 1e6, 1048576.0, 0.125, 3.0e-9, 123456.789];
    for x in exact {
        let value = fixed(x);
        let back = f64::from_bits(Sample::from_fixed(value).to_bits());
        assert_eq!(back, value.raw() as f64 / 4294967296.0, "{x}");
        assert_eq!(Sample::from_fixed(value).to_fixed(), value, "{x}");
    }
    assert_eq!(Sample::from_fixed(fixed(0.5)).to_bits(), 0.5f64.to_bits());
    assert_eq!(Sample::from_fixed(fixed(-2.5)).to_bits(), (-2.5f64).to_bits());
    assert_eq!(Sample::from_fixed(fixed(1e6)), Sample::cash_flow_limit());
    assert_eq!(Sample::from_fixed(Fixed::one()), Sample::return_limit());
    assert_eq!(Sample::from_fixed(Fixed::zero()).to_bits(), 0);
    assert_eq!(
        Sample::from_fixed(Fixed::from_raw(1)).to_bits(),
        2.3283064365386963e-10f64.to_bits()
    );
    assert_eq!(
        Sample::from_fixed(Fixed::from_raw(-1)).to_bits(),
        (-2.3283064365386963e-10f64).to_bits()
    );
}

#[test]
fn long_numbers_keep_their_leading_digits() {
    let longest = f64::from_bits(Sample::from_fixed(Fixed::from_raw(i64::MAX)).to_bits());
    assert_eq!(longest, 9223372036854774784.0 / 4294967296.0);
    assert!(longest < 2147483648.0);
    let least = f64::from_bits(Sample::from_fixed(Fixed::from_raw(i64::MIN)).to_bits());
    assert_eq!(least, -2147483648.0);
    let odd = Fixed::from_raw((1i64 << 53) + 1);
    let cut = f64::from_bits(Sample::from_fixed(odd).to_bits());
    assert_eq!(cut, (1i64 << 53) as f64 / 4294967296.0);
    assert_eq!(Sample::from_fixed(odd).to_fixed().raw(), 1i64 << 53);
    let below = Fixed::from_raw((1i64 << 53) - 1);
    assert_eq!(Sample::from_fixed(below).to_fixed(), below);
}
