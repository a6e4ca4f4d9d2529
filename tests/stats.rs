use crossword_stats::models::ResultEntry;
use crossword_stats::order::sort_by_date;
use crossword_stats::stats::{
    compute_average_time, compute_moving_averages, compute_percentiles, StatsError,
};

fn dated_times() -> Vec<ResultEntry> {
    vec![
        ResultEntry {
            date: "2023-10-25".to_string(),
            time: 100,
            ..Default::default()
        },
        ResultEntry {
            date: "2023-10-26".to_string(),
            time: 120,
            ..Default::default()
        },
        ResultEntry {
            date: "2023-10-27".to_string(),
            time: 110,
            ..Default::default()
        },
    ]
}

fn timed(times: &[i32]) -> Vec<ResultEntry> {
    times
        .iter()
        .map(|&time| ResultEntry {
            time,
            ..Default::default()
        })
        .collect()
}

#[test]
fn test_compute_moving_averages_with_partial_averages() {
    let entries = dated_times();

    let (dates, averages) = compute_moving_averages(&entries, 2, true);

    assert_eq!(dates, vec!["2023-10-25", "2023-10-26", "2023-10-27"]);
    assert_eq!(averages, vec![100, 110, 115]);
}

#[test]
fn test_compute_moving_averages_without_partial_averages() {
    let entries = dated_times();

    let (dates, averages) = compute_moving_averages(&entries, 2, false);

    assert_eq!(dates, vec!["2023-10-26", "2023-10-27"]);
    assert_eq!(averages, vec![110, 115]);
}

#[test]
fn test_compute_moving_averages_with_empty_input() {
    let entries: Vec<ResultEntry> = Vec::new();

    let (dates, averages) = compute_moving_averages(&entries, 2, true);

    assert!(dates.is_empty());
    assert!(averages.is_empty());
}

#[test]
fn test_compute_average_time() {
    let entries = dated_times();

    let average_time = compute_average_time(&entries).unwrap();

    assert_eq!(average_time, 110);
}

#[test]
fn average_time_of_no_entries_is_insufficient_data() {
    let entries: Vec<ResultEntry> = Vec::new();
    assert_eq!(compute_average_time(&entries), Err(StatsError::InsufficientData));
}

#[test]
fn average_time_truncates_toward_zero() {
    assert_eq!(compute_average_time(&timed(&[10, 11])), Ok(10));
    assert_eq!(compute_average_time(&timed(&[-10, -11])), Ok(-10));
}

#[test]
fn average_time_does_not_overflow() {
    let entries = timed(&[i32::MAX, i32::MAX, i32::MAX - 3]);
    assert_eq!(compute_average_time(&entries), Ok(i32::MAX - 1));
}

#[test]
fn moving_average_counts_follow_the_window() {
    let entries = timed(&[5, 6, 7, 8, 9]);
    for interval in 1..8usize {
        let (dates, averages) = compute_moving_averages(&entries, interval, true);
        assert_eq!(dates.len(), 5);
        assert_eq!(averages.len(), 5);
        let (dates, averages) = compute_moving_averages(&entries, interval, false);
        let full = 5usize.saturating_sub(interval - 1);
        assert_eq!(dates.len(), full);
        assert_eq!(averages.len(), full);
    }
}

#[test]
fn moving_average_is_mean_of_each_window() {
    let entries = timed(&[10, 20, 30, 40, 50]);
    let (_, averages) = compute_moving_averages(&entries, 3, true);
    for (i, average) in averages.iter().enumerate() {
        let start = i.saturating_sub(2);
        let window = &entries[start..=i];
        assert_eq!(*average, compute_average_time(window).unwrap());
    }
    assert_eq!(averages, vec![10, 15, 20, 30, 40]);
}

#[test]
fn moving_average_of_single_windows_is_the_times() {
    let entries = timed(&[31, 7, 64, 0]);
    let (_, averages) = compute_moving_averages(&entries, 1, false);
    assert_eq!(averages, vec![31, 7, 64, 0]);
}

#[test]
fn percentiles_are_reversed_selections() {
    let entries = timed(&[30, 60, 90, 120, 150]);
    let times = compute_percentiles(&entries, &[10, 25, 50, 75, 90]).unwrap();
    assert_eq!(times, vec![150, 120, 90, 60, 30]);
}

#[test]
fn percentile_of_one_hundred_clamps_to_last() {
    let entries = timed(&[30, 60, 90, 120, 150]);
    assert_eq!(compute_percentiles(&entries, &[0, 100]), Ok(vec![150, 30]));
    assert_eq!(compute_percentiles(&entries, &[]), Ok(vec![]));
}

#[test]
fn percentile_past_the_end_is_out_of_bounds() {
    let entries = timed(&[30, 60, 90, 120, 150]);
    assert_eq!(
        compute_percentiles(&entries, &[50, 140]),
        Err(StatsError::IndexOutOfBounds)
    );
}

#[test]
fn percentiles_of_no_entries_are_insufficient_data() {
    let entries: Vec<ResultEntry> = Vec::new();
    assert_eq!(
        compute_percentiles(&entries, &[50]),
        Err(StatsError::InsufficientData)
    );
}

#[test]
fn sort_by_date_is_stable() {
    let mut entries = Vec::new();
    for (date, name) in [
        ("2024-01-03", "a"),
        ("2024-01-01", "b"),
        ("2024-01-03", "c"),
        ("2024-01-02", "d"),
        ("2024-01-01", "e"),
    ] {
        entries.push(ResultEntry {
            date: date.to_string(),
            username: name.to_string(),
            ..Default::default()
        });
    }
    let sorted = sort_by_date(&entries);
    let names: Vec<&str> = sorted.iter().map(|e| e.username.as_str()).collect();
    assert_eq!(names, vec!["b", "e", "d", "a", "c"]);
}
