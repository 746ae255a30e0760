use nalufx::errors::AllocationError;
use nalufx::numeric::fixed::Fixed;
use nalufx::numeric::sample::Sample;
use nalufx::utils::features::{
    extract_features, integer_root, standardize, FeatureMatrix, FEATURE_COLUMNS,
};

const ONE: i64 = 4294967296;

fn samples(values: &[f64]) -> Vec<Sample> {
    values.iter().map(|x| Sample::from_bits(x.to_bits())).collect()
}

fn raws(values: &[Fixed]) -> Vec<i64> {
    values.iter().map(|v| v.raw()).collect()
}

#[test]
fn roots_are_rounded_down() {
    assert_eq!(integer_root(0), 0);
    assert_eq!(integer_root(1), 1);
    assert_eq!(integer_root(2), 1);
    assert_eq!(integer_root(3), 1);
    assert_eq!(integer_root(4), 2);
    assert_eq!(integer_root(99), 9);
    assert_eq!(integer_root(100), 10);
    assert_eq!(integer_root(1_000_000_000_000_000_000), 1_000_000_000);
    assert_eq!(integer_root(999_999_999_999_999_999), 999_999_999);
    assert_eq!(integer_root((1u128 << 96) - 1), (1u128 << 48) - 1);
    assert_eq!(integer_root(u128::MAX), (1u128 << 64) - 1);
    assert_eq!(integer_root(1u128 << 126), 1u128 << 63);
}

#[test]
fn spread_is_the_population_standard_deviation() {
    // 2, 4, 4, 4, 5, 5, 7, 9 has mean 5 and standard deviation 2
    let column = samples(&[2.0, 4.0, 4.0, 4.0, 5.0, 5.0, 7.0, 9.0]);
    assert_eq!(
        raws(&standardize(&column)),
        vec![-3 * ONE / 2, -ONE / 2, -ONE / 2, -ONE / 2, 0, 0, ONE, 2 * ONE]
    );
}

#[test]
fn columns_are_standardized() {
    assert_eq!(raws(&standardize(&samples(&[1.0, 3.0]))), vec![-ONE, ONE]);
    assert_eq!(
        raws(&standardize(&samples(&[0.02, -0.01, 0.03, 0.01]))),
        vec![2177945930, -6533837791, 5081873837, -725981976]
    );
    assert_eq!(
        raws(&standardize(&samples(&[1000.0, 1010.0, 1005.0, 1015.0]))),
        vec![-5762303300, 1920767766, -1920767766, 5762303300]
    );
}

#[test]
fn columns_of_any_size_are_standardized() {
    assert_eq!(raws(&standardize(&samples(&[1e6, -1e6]))), vec![ONE, -ONE]);
    assert_eq!(raws(&standardize(&samples(&[3e9, 4e9]))), vec![-ONE, ONE]);
    assert_eq!(raws(&standardize(&samples(&[1e-300, 2e-300]))), vec![-ONE, ONE]);
    assert_eq!(
        raws(&standardize(&samples(&[1e300, -1e300, 3e300]))),
        vec![0, -5260239168, 5260239168]
    );
}

#[test]
fn rescaling_a_column_leaves_it_as_it_was() {
    let column = [1.0, -1.0, 0.5, 0.25, -0.75];
    let plain = standardize(&samples(&column));
    for factor in [1e6, 1e-6, 4.0, 1e12] {
        let scaled: Vec<f64> = column.iter().map(|x| x * factor).collect();
        let other = standardize(&samples(&scaled));
        for (a, b) in plain.iter().zip(other.iter()) {
            assert!((a.raw() - b.raw()).abs() <= 16, "factor {factor}");
        }
    }
    let shifted: Vec<f64> = column.iter().map(|x| x + 1000000.0).collect();
    let other = standardize(&samples(&shifted));
    for (a, b) in plain.iter().zip(other.iter()) {
        assert!((a.raw() - b.raw()).abs() <= 16);
    }
}

#[test]
fn values_at_the_limits_are_standardized() {
    let matrix = extract_features(
        &samples(&[1.0, -1.0]),
        &samples(&[1000000.0, -1000000.0]),
        &samples(&[1.0, 2.0]),
        &samples(&[3.0, 4.0]),
    )
    .unwrap();
    assert_eq!(
        raws(&matrix.values),
        vec![ONE, ONE, -ONE, -ONE, -ONE, -ONE, ONE, ONE]
    );
}

#[test]
fn constant_columns_become_zero() {
    assert_eq!(raws(&standardize(&samples(&[2.0, 2.0, 2.0]))), vec![0, 0, 0]);
    assert_eq!(raws(&standardize(&samples(&[-7.5]))), vec![0]);
}

#[test]
fn matrix_is_stored_row_by_row() {
    let matrix = extract_features(
        &samples(&[0.5, 0.25]),
        &samples(&[100.0, 200.0]),
        &samples(&[1.0, 2.0]),
        &samples(&[7.0, 7.0]),
    )
    .unwrap();
    assert_eq!(FEATURE_COLUMNS, 4);
    assert_eq!(matrix.rows(), 2);
    assert_eq!(
        raws(&matrix.values),
        vec![ONE, -ONE, -ONE, 0, -ONE, ONE, ONE, 0]
    );
    assert_eq!(matrix.get(0, 0).raw(), ONE);
    assert_eq!(matrix.get(0, 1).raw(), -ONE);
    assert_eq!(matrix.get(1, 0).raw(), -ONE);
    assert_eq!(matrix.get(1, 2).raw(), ONE);
    assert_eq!(matrix.get(1, 3).raw(), 0);
}

#[test]
fn standardized_columns_have_mean_zero() {
    let matrix = extract_features(
        &samples(&[0.02, -0.01, 0.03, 0.01, 0.02, -0.01, 0.03, 0.01]),
        &samples(&[100.0, 50.0, 75.0, 120.0, 110.0, 60.0, 80.0, 130.0]),
        &samples(&[1000.0, 1010.0, 1005.0, 1015.0, 1020.0, 1030.0, 1025.0, 1035.0]),
        &samples(&[0.8, 0.9, 0.85, 0.95, 0.88, 0.92, 0.87, 0.93]),
    )
    .unwrap();
    assert_eq!(matrix.rows(), 8);
    assert_eq!(matrix.values.len(), 32);
    for column in 0..4 {
        let mut sum = 0.0;
        let mut squares = 0.0;
        for row in 0..8 {
            let z = matrix.get(row, column).raw() as f64 / ONE as f64;
            sum += z;
            squares += z * z;
        }
        assert!((sum / 8.0).abs() < 1e-4, "mean of column {column}");
        assert!((squares / 8.0 - 1.0).abs() < 1e-3, "spread of column {column}");
    }
}

#[test]
fn features_are_refused_for_invalid_series() {
    let two = samples(&[0.5, 0.25]);
    let one = samples(&[0.5]);
    let none = samples(&[]);
    let bad = samples(&[0.5, f64::INFINITY]);
    let large = samples(&[0.5, 1.5]);
    let error = |r: Result<FeatureMatrix, AllocationError>| r.err();
    assert_eq!(
        error(extract_features(&two, &one, &two, &two)),
        Some(AllocationError::InputMismatch)
    );
    assert_eq!(
        error(extract_features(&none, &none, &none, &none)),
        Some(AllocationError::EmptyInput)
    );
    assert_eq!(
        error(extract_features(&two, &two, &bad, &two)),
        Some(AllocationError::InvalidData)
    );
    assert_eq!(
        error(extract_features(&large, &two, &two, &two)),
        Some(AllocationError::OutlierData)
    );
    assert_eq!(error(extract_features(&two, &large, &large, &large)), None);
}
