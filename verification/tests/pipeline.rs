use stateful_filter::filter::built::BuiltFilter;
use stateful_filter::filter::first_order::FirstOrderIirFilter;
use stateful_filter::filter::order_n::GenericIirFilter;
use stateful_filter::pipeline::{extract_feature, flag_below, EventDetectionPipeline, Stage};
use stateful_filter::scorer::Metrics;
use stateful_filter::FilterBuilder;

#[test]
fn extract_feature_reseeds_the_baseline_and_carries_the_feature_filter() {
    // Baseline: the sample before. Feature: the change of the residual.
    let mut low = FirstOrderIirFilter::new(0i64, (0, 1));
    let mut high = FirstOrderIirFilter::new(0i64, (1, -1));
    // Baseline [5, 5, 7, 10], residual [0, 2, 3, 5], feature [0, 2, 1, 2].
    assert_eq!(extract_feature(&mut low, &mut high, &[5, 7, 10, 15]), vec![0, 2, 1, 2]);
    // The baseline starts again from the first sample: [20, 20, 18], residual
    // [0, -2, -8]. The feature filter remembers the residual 5.
    assert_eq!(extract_feature(&mut low, &mut high, &[20, 18, 10]), vec![-5, -2, -6]);
}

#[test]
fn extract_feature_of_an_empty_chunk_is_empty() {
    let mut low = GenericIirFilter::new(&[1i64, 0, 0], &[0, 1, 0]);
    let mut high = FirstOrderIirFilter::new(0i64, (1, -1));
    assert_eq!(extract_feature(&mut low, &mut high, &[]), Vec::<i64>::new());
    // Nothing was seeded and nothing was filtered.
    assert_eq!(extract_feature(&mut low, &mut high, &[3, 4]), vec![0, 1]);
}

#[test]
fn flag_below_gives_stream_indices_in_order() {
    let feature = [5i64, -10, -20, 3, -30, -9];
    assert_eq!(flag_below(&feature, Some(-9), 100), vec![101, 102, 104]);
    assert_eq!(flag_below(&feature, Some(-100), 100), Vec::<u64>::new());
    assert_eq!(flag_below(&feature, Some(6), 0), vec![0, 1, 2, 3, 4, 5]);
}

#[test]
fn flag_below_without_a_threshold_flags_nothing() {
    assert_eq!(flag_below(&[-5i64, -6, -7], None, 0), Vec::<u64>::new());
}

#[test]
fn flag_below_flags_nothing_in_a_chunk_of_one_sample() {
    assert_eq!(flag_below(&[-5i64], Some(0), 0), Vec::<u64>::new());
    let none: [i64; 0] = [];
    assert_eq!(flag_below(&none, Some(0), 0), Vec::<u64>::new());
    assert_eq!(flag_below(&[-5i64, 1], Some(0), 0), vec![0]);
}

#[test]
fn flag_below_places_no_value_that_is_not_a_number() {
    let feature = [f64::NAN, -4.0, f64::NEG_INFINITY, -3.0];
    assert_eq!(flag_below(&feature, Some(-3.0), 10), vec![11, 12]);
    assert_eq!(flag_below(&feature, Some(f64::NAN), 10), Vec::<u64>::new());
}

fn identity() -> BuiltFilter<i64> {
    FilterBuilder::from(&[1i64, 0], &[1, 0]).unwrap()
}

fn silent() -> BuiltFilter<i64> {
    FilterBuilder::from(&[1i64, 0], &[0, 0]).unwrap()
}

#[test]
fn pipeline_walks_the_stream_chunk_by_chunk() {
    let stream: Vec<i64> = vec![0, -5, -6, -7, 0, 0, -9, -9, 0, 0, -8, -8];
    let mut p = EventDetectionPipeline::new(silent(), identity(), vec![2, 3, 7, 50], 5);
    assert_eq!(p.stage(), Stage::Idle);

    let feature = p.next_chunk(&stream).unwrap();
    assert_eq!(p.stage(), Stage::Processing(0));
    assert_eq!(feature, vec![0, -5, -6, -7, 0]);
    assert_eq!(p.score_chunk(&feature, Some(-4)), vec![1, 2, 3]);

    let feature = p.next_chunk(&stream).unwrap();
    assert_eq!(p.stage(), Stage::Processing(1));
    assert_eq!(feature, vec![0, -9, -9, 0, 0]);
    assert_eq!(p.score_chunk(&feature, Some(-4)), vec![6, 7]);

    // The last chunk is shorter.
    let feature = p.next_chunk(&stream).unwrap();
    assert_eq!(p.stage(), Stage::Processing(2));
    assert_eq!(feature, vec![-8, -8]);
    assert_eq!(p.score_chunk(&feature, None), Vec::<u64>::new());

    assert_eq!(p.next_chunk(&stream), None);
    assert_eq!(p.stage(), Stage::Done);
    assert_eq!(p.next_chunk(&stream), None);
    assert_eq!(p.stage(), Stage::Done);
    assert_eq!(
        p.finish(),
        Metrics { true_positive: 3, false_positive: 0, false_negative: 1 }
    );
}

#[test]
fn pipeline_on_an_empty_stream_is_done_at_once() {
    let mut p = EventDetectionPipeline::new(silent(), identity(), vec![1, 2], 4);
    let stream: Vec<i64> = vec![];
    assert_eq!(p.next_chunk(&stream), None);
    assert_eq!(p.stage(), Stage::Done);
    assert_eq!(
        p.finish(),
        Metrics { true_positive: 0, false_positive: 0, false_negative: 2 }
    );
}

#[test]
fn pipeline_ends_on_a_whole_number_of_chunks() {
    let stream: Vec<i64> = vec![1, 2, 3, 4, 5, 6];
    let mut p = EventDetectionPipeline::new(silent(), identity(), vec![], 3);
    assert_eq!(p.next_chunk(&stream), Some(vec![1, 2, 3]));
    assert_eq!(p.next_chunk(&stream), Some(vec![4, 5, 6]));
    assert_eq!(p.stage(), Stage::Processing(1));
    assert_eq!(p.next_chunk(&stream), None);
    assert_eq!(p.stage(), Stage::Done);
}

#[test]
fn pipeline_resets_the_baseline_and_keeps_the_feature_filter() {
    let low = FilterBuilder::from(&[1i64, 0], &[0, 1]).unwrap();
    let high = FilterBuilder::from(&[1i64, 0], &[1, -1]).unwrap();
    let stream: Vec<i64> = vec![5, 7, 10, 15, 20, 18, 10];
    let mut p = EventDetectionPipeline::new(low, high, vec![], 4);
    assert_eq!(p.next_chunk(&stream), Some(vec![0, 2, 1, 2]));
    assert_eq!(p.next_chunk(&stream), Some(vec![-5, -2, -6]));
    assert_eq!(p.next_chunk(&stream), None);
}

fn deviation(data: &[f64]) -> Option<f64> {
    let n = data.len();
    if n <= 1 {
        return None;
    }
    let mean = data.iter().sum::<f64>() / (n as f64);
    let squares = data.iter().map(|&x| (x - mean).powi(2)).sum::<f64>();
    Some((squares / ((n - 1) as f64)).sqrt())
}

#[test]
fn pipeline_finds_a_dip_in_a_flat_signal() {
    // A flat signal of 400 samples with one dip of four samples at 250..254.
    let mut stream = vec![100.0_f64; 400];
    for k in 250..254 {
        stream[k] = 20.0;
    }
    let low = FilterBuilder::from(&[1.0, -0.9994], &[0.0003, 0.0003]).unwrap();
    let high = FilterBuilder::from(&[1.0, -0.5095], &[0.2452, 0.2452]).unwrap();
    let mut p = EventDetectionPipeline::new(low, high, vec![252, 253, 7, 390], 200);
    let mut flagged = Vec::new();
    while let Some(feature) = p.next_chunk(&stream) {
        let threshold = deviation(&feature).map(|s| -3.0 * s);
        flagged.extend(p.score_chunk(&feature, threshold));
    }
    assert_eq!(p.stage(), Stage::Done);
    // The feature filter smooths, so the run starts and ends one sample late.
    assert_eq!(flagged, vec![251, 252, 253, 254, 255]);
    assert_eq!(
        p.finish(),
        Metrics { true_positive: 2, false_positive: 0, false_negative: 2 }
    );
}
