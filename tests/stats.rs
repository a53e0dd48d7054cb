use sci_calc::stats::{median_indices, modes};
use sci_calc::Error;

fn bits(xs: &[f64]) -> Vec<u64> {
    xs.iter().map(|x| x.to_bits()).collect()
}

#[test]
fn median_positions_of_ten() {
    assert_eq!(median_indices(10), Ok((4, 5)));
    let data: Vec<f64> = (1..=10).map(|i| i as f64).collect();
    let (lo, hi) = median_indices(data.len()).unwrap();
    assert_eq!((data[lo] + data[hi]) / 2.0, 5.5);
}

#[test]
fn median_positions_of_odd_counts() {
    assert_eq!(median_indices(5), Ok((2, 2)));
    assert_eq!(median_indices(1), Ok((0, 0)));
    assert_eq!(median_indices(2), Ok((0, 1)));
}

#[test]
fn empty_data_set() {
    assert_eq!(median_indices(0), Err(Error::EmptyDataSet));
}

#[test]
fn all_distinct_values_are_modes() {
    let data: Vec<f64> = (1..=10).map(|i| i as f64).collect();
    let m = modes(&bits(&data));
    assert_eq!(m.len(), 10);
    for x in &data {
        assert!(m.contains(&x.to_bits()));
    }
}

#[test]
fn ties_are_kept() {
    let m = modes(&bits(&[1.0, 2.0, 2.0, 3.0, 3.0]));
    assert_eq!(m, bits(&[2.0, 3.0]));
    let m = modes(&bits(&[4.0, 1.0, 4.0]));
    assert_eq!(m, bits(&[4.0]));
    assert!(modes(&vec![]).is_empty());
}

#[test]
fn signed_zeros_are_distinct() {
    let m = modes(&bits(&[0.0, -0.0, -0.0]));
    assert_eq!(m, bits(&[-0.0]));
}
