use chrono::{DateTime, Utc};
use wanikani_tui::schedule::{
    collect_available_subject_ids, is_due, unique_available_subject_count, Moment, SummaryBucket,
};

fn moment(text: &str) -> Moment {
    let instant = DateTime::parse_from_rfc3339(text).unwrap().with_timezone(&Utc);
    Moment { seconds: instant.timestamp(), nanos: instant.timestamp_subsec_nanos() }
}

fn bucket(available_at: Option<&str>, subject_ids: Vec<u64>) -> SummaryBucket {
    SummaryBucket { available_at: available_at.map(|text| text.to_string()), subject_ids }
}

#[test]
fn available_count_ignores_future_summary_buckets() {
    let now = moment("2026-06-13T12:00:00.000000Z");
    let buckets = vec![
        bucket(Some("2026-06-13T11:00:00.000000Z"), vec![1, 2, 3]),
        bucket(Some("2026-06-13T13:00:00.000000Z"), vec![4, 5]),
    ];

    assert_eq!(unique_available_subject_count(&buckets, now), 3);
    assert_eq!(collect_available_subject_ids(&buckets, 10, now), vec![1, 2, 3]);
}

#[test]
fn buckets_without_time_are_available_and_bad_times_are_not() {
    let now = moment("2026-06-13T12:00:00Z");
    assert!(bucket(None, vec![1]).is_available_at(now));
    assert!(!bucket(Some("not a time"), vec![1]).is_available_at(now));
    assert!(bucket(Some("2026-06-13T12:00:00Z"), vec![1]).is_available_at(now));
    assert!(bucket(Some("2026-06-13T14:00:00+02:00"), vec![1]).is_available_at(now));
    assert!(!bucket(Some("2026-06-13T12:00:00.000001Z"), vec![1]).is_available_at(now));
}

#[test]
fn due_times_compare_seconds_then_nanoseconds() {
    let now = Moment { seconds: 100, nanos: 500 };
    assert!(is_due(Some(Moment { seconds: 99, nanos: 999 }), now));
    assert!(is_due(Some(Moment { seconds: 100, nanos: 500 }), now));
    assert!(!is_due(Some(Moment { seconds: 100, nanos: 501 }), now));
    assert!(!is_due(None, now));
}

#[test]
fn session_ids_are_distinct_in_order_and_limited() {
    let now = moment("2026-06-13T12:00:00Z");
    let buckets = vec![
        bucket(None, vec![5, 3, 5]),
        bucket(Some("2026-06-13T13:00:00Z"), vec![9]),
        bucket(Some("2026-06-12T13:00:00Z"), vec![3, 8, 1]),
    ];
    assert_eq!(unique_available_subject_count(&buckets, now), 4);
    assert_eq!(collect_available_subject_ids(&buckets, 0, now), vec![5, 3, 8, 1]);
    assert_eq!(collect_available_subject_ids(&buckets, 2, now), vec![5, 3]);
    assert_eq!(collect_available_subject_ids(&buckets, 3, now), vec![5, 3, 8]);
    assert_eq!(collect_available_subject_ids(&buckets, 4, now), vec![5, 3, 8, 1]);
    assert_eq!(collect_available_subject_ids(&buckets, 50, now), vec![5, 3, 8, 1]);
    assert_eq!(collect_available_subject_ids(&[], 5, now), Vec::<u64>::new());
}
