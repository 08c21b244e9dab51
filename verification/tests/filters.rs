use std::time::Instant;

use stateful_filter::filter::first_order::FirstOrderIirFilter;
use stateful_filter::filter::Filter;
use stateful_filter::FilterBuilder;

fn truncate_decimal_digits(number: f64, decimal_digits: u32) -> f64 {
    let multiplier = 10_f64.powi(decimal_digits as i32);
    (number * multiplier).trunc() / multiplier
}

fn truncate_vec(vals: Vec<f64>) -> Vec<f64> {
    vals.into_iter()
        .map(|v| truncate_decimal_digits(v, 5))
        .collect()
}

#[test]
fn first_order_correctness_test() {
    // Example coefficients and input data
    let coef_a = -0.50952545;
    let coeffs_b = (0.24523728, 0.24523728);
    let mut f = FirstOrderIirFilter::new(coef_a, coeffs_b);
    let input_data1 = (0..5).into_iter().map(|f| f as f64).collect::<Vec<_>>();
    let input_data2 = (5..10).into_iter().map(|f| f as f64).collect::<Vec<_>>();
    let input_data3 = (10..15).into_iter().map(|f| f as f64).collect::<Vec<_>>();
    let real_res_from_py: Vec<_> = truncate_vec(vec![
        0.0,
        0.24523728,
        0.86066646,
        1.66471784,
        2.56487703,
        3.5140056,
        4.48808531,
        5.47487826,
        6.46814894,
        7.46472017,
        8.46297313,
        9.46208297,
        10.46162941,
        11.46139831,
        12.46128056,
    ]);
    let results: Vec<_> = truncate_vec(
        [
            f.filt(&input_data1),
            f.filt(&input_data2),
            f.filt(&input_data3),
        ]
        .concat(),
    );
    assert_eq!(real_res_from_py, results);
}

#[test]
fn coeffs_test() {
    let coef_a = -0.50952545;
    let coeffs_b = (0.24523728, 0.24523728);
    let mut f = FirstOrderIirFilter::new(coef_a, coeffs_b);
    let b = f.get_b_coeffs();
    assert_eq!(*b, vec![coeffs_b.0, coeffs_b.1]);
}

#[test]
fn lib_correctness_test() {
    // Example coefficients and input data
    let coeffs_a = vec![1.0, -2.36951301, 2.31398841, -1.05466541, 0.18737949];
    let coeffs_b = vec![0.00482434, 0.01929737, 0.02894606, 0.01929737, 0.00482434];
    let input_data1 = (0..10).into_iter().map(|f| f as f64).collect::<Vec<_>>();
    let input_data2 = (10..20).into_iter().map(|f| f as f64).collect::<Vec<_>>();
    let mut f = FilterBuilder::from(&coeffs_a, &coeffs_b).unwrap();
    let out = [f.filt(&input_data1), f.filt(&input_data2)].concat();
    println!("{:?}", out);
    assert_eq!(out.len(), 20);
    assert_eq!(out[0], 0.0);
    // The second output is b[0]*x[1] alone: the history holds zeros and x[0] is 0.
    assert_eq!(out[1], 0.00482434);
}

#[test]
fn correctness_test_f32() {
    // Example coefficients and input data
    let coeffs_a: Vec<f32> = vec![1.0, -2.36951301, 2.31398841, -1.05466541, 0.18737949];
    let coeffs_b = vec![0.00482434, 0.01929737, 0.02894606, 0.01929737, 0.00482434];
    let input_data1 = (0..10).into_iter().map(|f| f as f32).collect::<Vec<_>>();
    let input_data2 = (10..20).into_iter().map(|f| f as f32).collect::<Vec<_>>();
    let mut f = FilterBuilder::from(&coeffs_a, &coeffs_b).unwrap();
    let out = [f.filt(&input_data1), f.filt(&input_data2)].concat();
    println!("{:?}", out);
    assert_eq!(out.len(), 20);
    assert_eq!(out[1], 0.00482434_f32);
}

#[test]
fn first_order_iir_filter() {
    // Example coefficients and input data
    let coeffs_a = vec![1.0, -0.50952545];
    let coeffs_b = vec![0.24523728, 0.24523728];
    let input_data = (0..1_000_000).into_iter().map(|f| f as f64).collect::<Vec<_>>();
    let mut f = FilterBuilder::from(&coeffs_a, &coeffs_b).unwrap();
    let start = Instant::now();
    for _ in 0..40 {
        f.filt(&input_data);
        f.filt(&input_data);
    }
    println!("{:?}", start.elapsed());
}

#[test]
fn first_order_iir_filter_f32() {
    // Example coefficients and input data
    let coeffs_a = vec![1.0, -0.50952545];
    let coeffs_b = vec![0.24523728, 0.24523728];
    let input_data = (0..1_000_000).into_iter().map(|f| f as f32).collect::<Vec<_>>();
    let mut f = FilterBuilder::from(&coeffs_a, &coeffs_b).unwrap();
    let start = Instant::now();
    for _ in 0..40 {
        f.filt(&input_data);
        f.filt(&input_data);
    }
    println!("{:?}", start.elapsed());
}

#[test]
fn third_order_iir_filter() {
    // Example coefficients and input data
    let third_order_a = vec![1.0, -2.36951301, 2.31398841, -1.05466541, 0.18737949];
    let third_order_b = vec![0.00482434, 0.01929737, 0.02894606, 0.01929737, 0.00482434];
    let input_data = (0..1_000_000).into_iter().map(|f| f as f64).collect::<Vec<_>>();
    let mut f = FilterBuilder::from(&third_order_a, &third_order_b).unwrap();
    let start = Instant::now();
    for _ in 0..40 {
        f.filt(&input_data);
        f.filt(&input_data);
    }
    println!("{:?}", start.elapsed());
}

#[test]
fn fifth_order_iir_filter() {
    // Example coefficients and input data
    let fifth_order_a = vec![1.0, -2.36951301, 2.31398841, -1.05466541, 0.18737949];
    let fifth_order_b = vec![0.00482434, 0.01929737, 0.02894606, 0.01929737, 0.00482434];
    let input_data = (0..1_000_000).into_iter().map(|f| f as f64).collect::<Vec<_>>();
    let mut f = FilterBuilder::from(&fifth_order_a, &fifth_order_b).unwrap();
    let start = Instant::now();
    for _ in 0..40 {
        f.filt(&input_data);
        f.filt(&input_data);
    }
    println!("{:?}", start.elapsed());
}
