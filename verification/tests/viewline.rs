use sunrisewinds::viewline::{lon_bin, smoothing_bins, LON_BINS, SMOOTHING_WINDOW};

#[test]
fn longitude_bins_wrap() {
    assert_eq!(lon_bin(0), 0);
    assert_eq!(lon_bin(359), 359);
    assert_eq!(lon_bin(360), 0);
    assert_eq!(lon_bin(-1), 359);
    assert_eq!(lon_bin(-180), 180);
    assert_eq!(lon_bin(-720), 0);
    assert_eq!(lon_bin(725), 5);
    assert_eq!(LON_BINS, 360);
}

#[test]
fn smoothing_window_wraps_around() {
    assert_eq!(SMOOTHING_WINDOW, 15);
    assert_eq!(smoothing_bins(180), (173..=187).collect::<Vec<usize>>());
    let mut expected: Vec<usize> = (353..360).collect();
    expected.extend(0..=7);
    assert_eq!(smoothing_bins(0), expected);
    let mut expected: Vec<usize> = (352..360).collect();
    expected.extend(0..=6);
    assert_eq!(smoothing_bins(359), expected);
}
