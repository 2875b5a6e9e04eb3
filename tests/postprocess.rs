use faraday_art::postprocess::{
    build_cdf, build_histogram, equalize, post_process, recalibrate, stats_reduction, GlobalStats,
    Histogram, DISPLAY_MAX, NUM_BUCKETS,
};

fn counts_with(entries: &[(usize, usize)]) -> Vec<usize> {
    let mut c = vec![0usize; NUM_BUCKETS];
    for &(b, n) in entries {
        c[b] = n;
    }
    c
}

#[test]
fn stats_are_min_and_max() {
    let s = stats_reduction(&vec![3, -7, 12, 0]);
    assert_eq!(s, GlobalStats { value_min: -7, value_max: 12 });
}

#[test]
fn stats_of_empty_canvas_are_identities() {
    let s = stats_reduction(&vec![]);
    assert_eq!(s, GlobalStats { value_min: i64::MAX, value_max: i64::MIN });
}

#[test]
fn recalibration_spans_display_range() {
    let mut c = vec![2, 5, 8, 4];
    let s = stats_reduction(&c);
    recalibrate(&mut c, &s);
    assert_eq!(c, vec![0, 127, 255, 85]);
    assert_eq!(*c.iter().min().unwrap(), 0);
    assert_eq!(*c.iter().max().unwrap(), DISPLAY_MAX);
}

#[test]
fn recalibration_handles_extreme_values() {
    let mut c = vec![i64::MIN, 0, i64::MAX];
    let s = stats_reduction(&c);
    recalibrate(&mut c, &s);
    assert_eq!(c, vec![0, 127, 255]);
}

#[test]
fn recalibration_of_flat_field_is_zero() {
    let mut c = vec![42; 9];
    let s = stats_reduction(&c);
    recalibrate(&mut c, &s);
    assert_eq!(c, vec![0; 9]);
}

#[test]
fn histogram_counts_values_above_threshold() {
    let h = build_histogram(&vec![0, 1, 1, 255, 300, -4, 7], 0);
    assert_eq!(h.total_included, 5);
    assert_eq!(h.counts.len(), NUM_BUCKETS);
    assert_eq!(h.counts[0], 0);
    assert_eq!(h.counts[1], 2);
    assert_eq!(h.counts[7], 1);
    assert_eq!(h.counts[255], 2);
    assert_eq!(h.counts.iter().sum::<usize>(), h.total_included);
}

#[test]
fn histogram_with_negative_threshold_clamps_into_bucket_zero() {
    let h = build_histogram(&vec![0, -4, -100, 3], -5);
    assert_eq!(h.total_included, 3);
    assert_eq!(h.counts[0], 2);
    assert_eq!(h.counts[3], 1);
    assert_eq!(h.counts.iter().sum::<usize>(), 3);
}

#[test]
fn cdf_rounds_shares_to_display_range() {
    let h = Histogram { counts: counts_with(&[(0, 1), (255, 9)]), total_included: 10 };
    let cdf = build_cdf(&h);
    assert_eq!(cdf.table.len(), NUM_BUCKETS);
    assert_eq!(cdf.table[0], 26);
    assert_eq!(cdf.table[254], 26);
    assert_eq!(cdf.table[255], 255);
    let h = Histogram { counts: counts_with(&[(10, 1), (20, 2)]), total_included: 3 };
    let cdf = build_cdf(&h);
    assert_eq!(cdf.table[9], 0);
    assert_eq!(cdf.table[10], 85);
    assert_eq!(cdf.table[19], 85);
    assert_eq!(cdf.table[20], 255);
    assert!(cdf.table.windows(2).all(|w| w[0] <= w[1]));
}

#[test]
fn cdf_of_empty_histogram_is_zero() {
    let h = Histogram { counts: vec![0; NUM_BUCKETS], total_included: 0 };
    assert_eq!(build_cdf(&h).table, vec![0; NUM_BUCKETS]);
}

#[test]
fn equalization_looks_up_clamped_values() {
    let h = Histogram { counts: counts_with(&[(10, 1), (20, 2)]), total_included: 3 };
    let cdf = build_cdf(&h);
    let mut c = vec![10, 20, 15, -3, 900];
    equalize(&mut c, &cdf);
    assert_eq!(c, vec![85, 255, 85, 0, 255]);
}

#[test]
fn constant_field_ends_at_zero() {
    let mut c = vec![5; 16];
    let s = stats_reduction(&c);
    assert_eq!(s, GlobalStats { value_min: 5, value_max: 5 });
    recalibrate(&mut c, &s);
    assert_eq!(c, vec![0; 16]);
    let h = build_histogram(&c, 0);
    assert_eq!(h.total_included, 0);
    let cdf = build_cdf(&h);
    assert_eq!(cdf.table, vec![0; NUM_BUCKETS]);
    equalize(&mut c, &cdf);
    assert_eq!(c, vec![0; 16]);
}

#[test]
fn two_valued_field_keeps_extremes() {
    let mut c = vec![8; 10];
    c[3] = 2;
    let data = post_process(&mut c, 0);
    assert_eq!(data.stats, GlobalStats { value_min: 2, value_max: 8 });
    assert_eq!(data.histogram.total_included, 9);
    assert_eq!(data.histogram.counts[255], 9);
    assert_eq!(data.histogram.counts[0], 0);
    assert_eq!(data.cdf.table[254], 0);
    assert_eq!(data.cdf.table[255], 255);
    let mut expected = vec![255; 10];
    expected[3] = 0;
    assert_eq!(c, expected);
}

#[test]
fn two_valued_field_with_zero_included_has_two_buckets() {
    let mut c = vec![8; 10];
    c[3] = 2;
    let data = post_process(&mut c, -1);
    assert_eq!(data.histogram.total_included, 10);
    assert_eq!(data.histogram.counts[0], 1);
    assert_eq!(data.histogram.counts[255], 9);
    assert_eq!(data.cdf.table[0], 26);
    assert_eq!(data.cdf.table[255], 255);
    assert_eq!(c[3], 26);
    assert_eq!(c[0], 255);
}

#[test]
fn equalizing_twice_keeps_texel_order() {
    let mut c: Vec<i64> = (0..64).map(|i| (i * i) % 97 - 20).collect();
    post_process(&mut c, 0);
    let first = c.clone();
    let h = build_histogram(&c, 0);
    let cdf = build_cdf(&h);
    equalize(&mut c, &cdf);
    for i in 0..c.len() {
        for j in 0..c.len() {
            if first[i] <= first[j] {
                assert!(c[i] <= c[j]);
            }
        }
    }
}
