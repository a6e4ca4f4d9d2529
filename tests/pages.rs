use crossword_stats::calendar::{recent_dates, CivilDate};
use crossword_stats::feed::{decode_live_feed, parse_i32, FeedError};
use crossword_stats::h2h::{describe_time_difference, head_to_head_from_matches, MatchTimes};
use crossword_stats::models::{NytApiResponse, NytResultEntry, NytScore, ResultEntry};
use crossword_stats::plot::{box_plot_data, scatter_plot_data, PlottingError};
use crossword_stats::stats::StatsError;
use crossword_stats::templates::UserTemplate;
use crossword_stats::text::{convert_time_to_mm_ss, unpack_time};
use crossword_stats::user::{exclude_saturday, is_kept_date, podium_entries, UserData};

fn on(date: &str, time: i32) -> ResultEntry {
    ResultEntry {
        date: date.to_string(),
        time,
        username: "ada".to_string(),
        rank: 1,
    }
}

fn row(name: &str, rank: Option<&str>, seconds: Option<i32>) -> NytResultEntry {
    NytResultEntry {
        name: name.to_string(),
        rank: rank.map(|r| r.to_string()),
        score: seconds.map(|s| NytScore {
            seconds_spent_solving: s,
        }),
    }
}

#[test]
fn recent_dates_count_back_ten_days() {
    let most_recent = CivilDate::parse("2024-01-10").unwrap();
    let dates = recent_dates(&most_recent).unwrap();
    let expected: Vec<String> = (1..=10).rev().map(|d| format!("2024-01-{d:02}")).collect();
    assert_eq!(dates, expected);
}

#[test]
fn recent_dates_cross_month_and_year() {
    let most_recent = CivilDate::parse("2024-03-03").unwrap();
    let dates = recent_dates(&most_recent).unwrap();
    assert_eq!(dates[0], "2024-03-03");
    assert_eq!(dates[3], "2024-02-29");
    assert_eq!(dates[9], "2024-02-23");
    let new_year = CivilDate::parse("2024-01-02").unwrap();
    assert_eq!(recent_dates(&new_year).unwrap()[9], "2023-12-24");
}

#[test]
fn dates_parse_and_know_saturdays() {
    let saturday = CivilDate::parse("2024-01-06").unwrap();
    assert_eq!(
        saturday,
        CivilDate {
            year: 2024,
            month: 1,
            day: 6
        }
    );
    assert!(saturday.is_saturday());
    assert!(!CivilDate::parse("2024-01-07").unwrap().is_saturday());
    assert_eq!(saturday.to_iso_string(), "2024-01-06");
    assert!(CivilDate::parse("2024-02-30").is_none());
    assert!(CivilDate::parse("yesterday").is_none());
}

#[test]
fn exclude_saturday_drops_saturdays_and_bad_dates() {
    let entries = vec![
        on("2024-01-05", 1),
        on("2024-01-06", 2),
        on("not a date", 3),
        on("2024-01-07", 4),
    ];
    let kept = exclude_saturday(&entries);
    let times: Vec<i32> = kept.iter().map(|e| e.time).collect();
    assert_eq!(times, vec![1, 4]);
    let again = exclude_saturday(&kept);
    let times_again: Vec<i32> = again.iter().map(|e| e.time).collect();
    assert_eq!(times_again, times);
}

#[test]
fn user_data_and_page_use_first_three_times() {
    let data = UserData::from_results(vec![
        on("2024-01-06", 30),
        on("2024-01-08", 40),
        on("2024-01-09", 50),
        on("2024-01-13", 60),
    ]);
    assert_eq!(data.all_times.len(), 4);
    assert_eq!(data.times_excluding_saturday.len(), 2);
    let page = UserTemplate::new("ada".to_string(), &data, String::new(), String::new());
    let top: Vec<i32> = page.top_times.iter().map(|e| e.time).collect();
    assert_eq!(top, vec![30, 40, 50]);
    let short = UserData::from_results(vec![on("2024-01-08", 40)]);
    let page = UserTemplate::new("ada".to_string(), &short, String::new(), String::new());
    assert_eq!(page.top_times.len(), 1);
}

#[test]
fn podium_keeps_ten() {
    let results: Vec<ResultEntry> = (0..15).map(|t| on("2024-01-01", t)).collect();
    let podium = podium_entries(results);
    assert_eq!(podium.len(), 10);
    assert_eq!(podium[9].time, 9);
    assert_eq!(podium_entries(vec![on("2024-01-01", 3)]).len(), 1);
}

#[test]
fn live_feed_ties_and_stop() {
    let feed = NytApiResponse {
        data: vec![
            row("A", Some("1"), Some(60)),
            row("B", None, Some(60)),
            row("C", Some("3"), Some(70)),
            row("D", None, None),
        ],
    };
    let decoded = decode_live_feed(&feed).unwrap();
    let got: Vec<(String, i32, i32)> = decoded
        .iter()
        .map(|e| (e.username.clone(), e.time, e.rank))
        .collect();
    assert_eq!(
        got,
        vec![
            ("A".to_string(), 60, 1),
            ("B".to_string(), 60, 1),
            ("C".to_string(), 70, 3)
        ]
    );
    assert!(decoded.iter().all(|e| e.date.is_empty()));
}

#[test]
fn live_feed_stops_before_later_scores() {
    let feed = NytApiResponse {
        data: vec![
            row("A", Some("1"), Some(50)),
            row("B", Some("2"), None),
            row("C", Some("3"), Some(70)),
        ],
    };
    assert_eq!(decode_live_feed(&feed).unwrap().len(), 1);
}

#[test]
fn live_feed_without_first_rank_is_malformed() {
    let feed = NytApiResponse {
        data: vec![row("A", Some("first"), Some(50)), row("B", Some("2"), Some(60))],
    };
    assert_eq!(decode_live_feed(&feed).unwrap_err(), FeedError::MalformedFeed);
    let unsolved = NytApiResponse {
        data: vec![row("A", None, None)],
    };
    assert_eq!(decode_live_feed(&unsolved).unwrap().len(), 0);
}

#[test]
fn integers_parse_like_std() {
    for text in ["0", "17", "+5", "-42", "2147483647", "-2147483648", "007"] {
        assert_eq!(parse_i32(text), text.parse::<i32>().ok(), "{text}");
    }
    for text in ["", "-", "+", "1a", " 1", "2147483648", "-2147483649", "99999999999"] {
        assert_eq!(parse_i32(text), None, "{text}");
    }
}

#[test]
fn times_print_as_minutes_and_seconds() {
    assert_eq!(convert_time_to_mm_ss(&75), "01:15");
    assert_eq!(convert_time_to_mm_ss(&5), "00:05");
    assert_eq!(convert_time_to_mm_ss(&3600), "60:00");
    assert_eq!(convert_time_to_mm_ss(&-65), format!("{:02}:{:02}", -65 / 60, -65 % 60));
    assert_eq!(unpack_time(&None), "--");
    assert_eq!(
        unpack_time(&Some(NytScore {
            seconds_spent_solving: 61
        })),
        "01:01"
    );
}

#[test]
fn time_difference_names_the_faster_user() {
    assert_eq!(
        describe_time_difference("Ada", "Bo", true, 32),
        "On average, Ada is 3.2 seconds faster than Bo."
    );
    assert_eq!(
        describe_time_difference("Ada", "Bo", false, 32),
        "On average, Bo is 3.2 seconds faster than Ada."
    );
}

#[test]
fn head_to_head_tallies_matches() {
    let m = |a, b| MatchTimes {
        time_player1: a,
        time_player2: b,
    };
    let matches = vec![m(10, 13), m(10, 13), m(10, 13), m(10, 14), m(10, 13)];
    let stats = head_to_head_from_matches("Ada".to_string(), "Bo".to_string(), &matches).unwrap();
    assert_eq!(stats.wins_user1, 5);
    assert_eq!(stats.total_matches, 5);
    assert_eq!(stats.total_time_difference, -16);
    assert_eq!(
        stats.time_diff_description,
        "On average, Ada is 3.2 seconds faster than Bo."
    );

    let mixed = vec![m(20, 10), m(5, 9), m(7, 7), m(30, 10)];
    let stats = head_to_head_from_matches("Ada".to_string(), "Bo".to_string(), &mixed).unwrap();
    assert_eq!(
        (stats.wins_user1, stats.wins_user2, stats.ties),
        (1, 2, 1)
    );
    assert_eq!(
        stats.wins_user1 + stats.wins_user2 + stats.ties,
        stats.total_matches
    );
    assert_eq!(
        stats.time_diff_description,
        "On average, Bo is 6.5 seconds faster than Ada."
    );

    let even = vec![m(10, 10)];
    let stats = head_to_head_from_matches("Ada".to_string(), "Bo".to_string(), &even).unwrap();
    assert_eq!(
        stats.time_diff_description,
        "On average, Bo is 0.0 seconds faster than Ada."
    );
}

#[test]
fn head_to_head_without_matches_is_insufficient_data() {
    let r = head_to_head_from_matches("Ada".to_string(), "Bo".to_string(), &[]);
    assert_eq!(r.unwrap_err(), StatsError::InsufficientData);
}

#[test]
fn test_generate_scatter_plot_html_with_no_user_entries() {
    let all_user_entries: Vec<Vec<ResultEntry>> = vec![];

    let result = scatter_plot_data(&all_user_entries);

    assert!(result.is_err());
    assert_eq!(
        result.err().unwrap().to_string(),
        "Plotting error: User doesn't have enough entries to generate plot"
    );
}

#[test]
fn test_generate_scatter_plot_html_with_empty_user_entries() {
    let all_user_entries: Vec<Vec<ResultEntry>> = vec![vec![], vec![]];

    let result = scatter_plot_data(&all_user_entries);

    assert!(result.is_err());
    assert_eq!(
        result.err().unwrap().to_string(),
        "Plotting error: User doesn't have enough entries to generate plot"
    );
}

#[test]
fn test_generate_box_plot_html_with_no_user_entries() {
    let all_user_entries: Vec<Vec<ResultEntry>> = vec![];

    let result = box_plot_data(&all_user_entries);

    assert!(result.is_err());
    assert_eq!(
        result.err().unwrap().to_string(),
        "Plotting error: User doesn't have enough entries to generate plot"
    );
}

#[test]
fn test_generate_box_plot_html_with_empty_user_entries() {
    let all_user_entries: Vec<Vec<ResultEntry>> = vec![vec![], vec![]];

    let result = box_plot_data(&all_user_entries);

    assert!(result.is_err());
    assert_eq!(
        result.err().unwrap().to_string(),
        "Plotting error: User doesn't have enough entries to generate plot"
    );
}

#[test]
fn scatter_sorts_by_date_and_sets_axis() {
    let user = vec![
        on("2024-01-03", 300),
        on("2024-01-01", 100),
        on("2024-01-02", 200),
    ];
    let other = vec![on("2024-01-01", 50)];
    let data = scatter_plot_data(&[user, other]).unwrap();
    assert!(data.include_partial);
    assert_eq!(data.traces.len(), 2);
    assert_eq!(
        data.traces[0].dates,
        vec!["2024-01-01", "2024-01-02", "2024-01-03"]
    );
    assert_eq!(data.traces[0].averages, vec![100, 150, 200]);
    assert_eq!(data.traces[1].averages, vec![50]);
    assert_eq!((data.min_average, data.max_average), (50, 200));
    assert_eq!((data.y_min, data.y_max), (45, 220));
}

#[test]
fn scatter_uses_full_windows_for_long_histories() {
    let user: Vec<ResultEntry> = (0..61)
        .map(|i| on(&format!("2024-{:02}-{:02}", 1 + i / 28, 1 + i % 28), 100))
        .collect();
    let data = scatter_plot_data(&[user]).unwrap();
    assert!(!data.include_partial);
    assert_eq!(data.traces[0].averages.len(), 61 - 29);
    assert_eq!(data.traces[0].dates[0], "2024-02-02");
}

#[test]
fn box_plot_names_users_and_sets_axis() {
    let first = vec![on("2024-01-01", 10), on("2024-01-02", 20)];
    let mut second = vec![on("2024-01-01", 40)];
    second[0].username = "bo".to_string();
    let data = box_plot_data(&[first, second]).unwrap();
    assert_eq!(data.traces[0].name, "ada");
    assert_eq!(data.traces[1].name, "bo");
    assert_eq!(data.traces[0].times, vec![10, 20]);
    assert_eq!(data.max_average, 40);
    assert_eq!(data.y_max, 120);
    let one_empty = box_plot_data(&[vec![on("2024-01-01", 10)], vec![]]);
    assert_eq!(one_empty.unwrap_err(), PlottingError::NotEnoughEntries);
}

#[test]
fn plotting_errors_have_messages() {
    assert_eq!(
        PlottingError::MinMovingAverageNotFound.to_string(),
        "Plotting error: Couldn't find minimum moving average"
    );
    assert_eq!(
        PlottingError::MaxMovingAverageNotFound.to_string(),
        "Plotting error: Couldn't find maximum moving average"
    );
}

#[test]
fn kept_dates_are_parsed_non_saturdays() {
    assert!(!is_kept_date(&None));
    assert!(!is_kept_date(&Some(CivilDate {
        year: 2023,
        month: 10,
        day: 28
    })));
    assert!(is_kept_date(&Some(CivilDate {
        year: 2023,
        month: 10,
        day: 29
    })));
}
