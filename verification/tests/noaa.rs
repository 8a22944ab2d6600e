use sunrisewinds::noaa::{data_rows, KP_FORECAST_COLUMNS, SOLAR_WIND_COLUMNS};

fn row(cells: &[&str]) -> Vec<String> {
    cells.iter().map(|s| s.to_string()).collect()
}

#[test]
fn header_and_short_rows_are_dropped() {
    let rows = vec![
        row(&["time_tag", "kp", "observed", "noaa_scale"]),
        row(&["2026-03-06 00:00:00", "2.33", "observed", ""]),
        row(&["2026-03-06 03:00:00", "3.00"]),
        row(&["2026-03-06 06:00:00", "4.67", "predicted", "G1", "extra"]),
    ];
    let kept = data_rows(rows, KP_FORECAST_COLUMNS);
    assert_eq!(kept.len(), 2);
    assert_eq!(kept[0][0], "2026-03-06 00:00:00");
    assert_eq!(kept[1][3], "G1");
}

#[test]
fn empty_table_and_header_only() {
    let none: Vec<Vec<i32>> = vec![];
    assert!(data_rows(none, SOLAR_WIND_COLUMNS).is_empty());
    let header_only = vec![vec![1, 2, 3, 4, 5, 6, 7, 8]];
    assert!(data_rows(header_only, SOLAR_WIND_COLUMNS).is_empty());
}

#[test]
fn solar_wind_rows_need_eight_columns() {
    let rows = vec![
        vec![0; 8],
        vec![1; 8],
        vec![2; 7],
        vec![3; 9],
    ];
    assert_eq!(data_rows(rows, SOLAR_WIND_COLUMNS), vec![vec![1; 8], vec![3; 9]]);
    assert_eq!(KP_FORECAST_COLUMNS, 4);
    assert_eq!(SOLAR_WIND_COLUMNS, 8);
}
