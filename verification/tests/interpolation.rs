use hue_programmes::interp::interpolate;
use hue_programmes::interp::segment_index;
use hue_programmes::interp::segment_progress;

fn full_day_boundaries() -> Vec<u32> {
    // 06:00, 07:00, 19:00, 20:00, 21:00, 22:00, 23:00, 23:30
    vec![0, 21600, 25200, 68400, 72000, 75600, 79200, 82800, 84600, 86400]
}

#[test]
fn interpolation_is_exact_at_progress_zero() {
    assert_eq!(interpolate(64, 255, 0), 64);
    assert_eq!(interpolate(255, 64, 0), 255);
    assert_eq!(interpolate(300, 300, 0), 300);
}

#[test]
fn interpolation_is_exact_at_progress_one() {
    assert_eq!(interpolate(64, 255, 65536), 255);
    assert_eq!(interpolate(255, 64, 65536), 64);
    assert_eq!(interpolate(300, 454, 65536), 454);
}

#[test]
fn interpolation_truncates_toward_zero() {
    // a quarter of the way from 64 to 255: 64 + 191 * 0.25 = 111.75 -> 111
    assert_eq!(interpolate(64, 255, 16384), 111);
    // descending: 255 - 191 * 0.25 = 207.25 -> truncation of the
    // subtracted part gives 255 - 47 = 208
    assert_eq!(interpolate(255, 64, 16384), 208);
}

#[test]
fn segment_index_follows_time_of_day() {
    let ts = full_day_boundaries();
    assert_eq!(segment_index(&ts, 0), 0); // midnight, pre-morning
    assert_eq!(segment_index(&ts, 21599), 0);
    assert_eq!(segment_index(&ts, 21600), 1); // morning ramp begins
    assert_eq!(segment_index(&ts, 22500), 1);
    assert_eq!(segment_index(&ts, 25200), 2); // daytime plateau
    assert_eq!(segment_index(&ts, 68399), 2);
    assert_eq!(segment_index(&ts, 68400), 3); // evening ramp
    assert_eq!(segment_index(&ts, 84600), 8); // after second bedtime
    assert_eq!(segment_index(&ts, 86399), 8);
}

#[test]
fn progress_is_exact_half_at_six_thirty() {
    // morning runs 06:00-07:00; 06:30 is exactly half way
    let ts = full_day_boundaries();
    assert_eq!(segment_progress(&ts, 23400), 0x8000);
}

#[test]
fn progress_is_zero_at_segment_start() {
    let ts = full_day_boundaries();
    assert_eq!(segment_progress(&ts, 21600), 0);
    assert_eq!(segment_progress(&ts, 0), 0);
}
