use pora_rs::window::{sample_count, window_len};

#[test]
fn window_len_is_one_more_than_the_rounded_span() {
    assert_eq!(window_len(0), 1);
    assert_eq!(window_len(1), 2);
    assert_eq!(window_len(40), 41);
    assert_eq!(window_len(160), 161);
}

#[test]
fn window_len_is_at_least_one() {
    assert_eq!(window_len(-1), 1);
    assert_eq!(window_len(-5), 1);
    assert_eq!(window_len(i64::MIN), 1);
}

#[test]
fn window_len_for_the_bench_box() {
    // half extent 3.25 m at 0.5 m: round(2 * 3.25 / 0.5) = 13 steps, 14 cells
    let rounded = (2.0f64 * 3.25 / 0.5).round() as i64;
    assert_eq!(window_len(rounded), 14);
    // half extent 2.0 m at 0.3 m: round(13.33) = 13 steps, 14 cells
    let rounded = (2.0f64 * 2.0 / 0.3).round() as i64;
    assert_eq!(window_len(rounded), 14);
}

#[test]
fn window_len_near_the_top_of_the_range() {
    if usize::BITS >= 64 {
        assert_eq!(window_len(i64::MAX - 1) as u64, i64::MAX as u64);
    }
}

#[test]
fn sample_count_includes_both_ends() {
    assert_eq!(sample_count(0), 1);
    // extent 40 m at 0.5 m: 160 steps across, 161 grid cells
    assert_eq!(sample_count(160), 161);
    // horizon 2.5 s at 0.5 s: 5 steps, 6 samples
    assert_eq!(sample_count(5), 6);
    assert_eq!(sample_count(usize::MAX - 1), usize::MAX);
}
