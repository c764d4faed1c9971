use flyline::content_utils::{
    duration_to_5chars, format_duration, fuzzy_indices_with_threshold, fuzzy_match_with_threshold,
    fuzzy_pattern_score_threshold, ts_to_timeago_string_5chars,
    verify_all_alphanumeric_chars_in_haystack, verify_all_alphanumeric_chars_in_matching_indices,
    Duration, FuzzyMatchThreshold,
};

#[test]
fn test_duration_to_5chars_now() {
    assert_eq!(duration_to_5chars(Duration::from_secs(0)), " now ");
}

#[test]
fn test_duration_to_5chars_nanoseconds() {
    assert_eq!(duration_to_5chars(Duration::from_nanos(1)), "  1ns");
    assert_eq!(duration_to_5chars(Duration::from_nanos(42)), " 42ns");
    assert_eq!(duration_to_5chars(Duration::from_nanos(999)), "999ns");
}

#[test]
fn test_duration_to_5chars_microseconds() {
    assert_eq!(duration_to_5chars(Duration::from_micros(1)), "  1us");
    assert_eq!(duration_to_5chars(Duration::from_micros(42)), " 42us");
    assert_eq!(duration_to_5chars(Duration::from_micros(999)), "999us");
}

#[test]
fn test_duration_to_5chars_milliseconds() {
    assert_eq!(duration_to_5chars(Duration::from_millis(1)), "  1ms");
    assert_eq!(duration_to_5chars(Duration::from_millis(42)), " 42ms");
    assert_eq!(duration_to_5chars(Duration::from_millis(999)), "999ms");
}

#[test]
fn test_duration_to_5chars_seconds() {
    assert_eq!(duration_to_5chars(Duration::from_secs(1)), " 1sec");
    assert_eq!(duration_to_5chars(Duration::from_secs(9)), " 9sec");
    assert_eq!(duration_to_5chars(Duration::from_secs(59)), "59sec");
}

#[test]
fn test_duration_to_5chars_minutes() {
    assert_eq!(duration_to_5chars(Duration::from_secs(60)), " 1min");
    assert_eq!(duration_to_5chars(Duration::from_secs(3599)), "59min");
}

#[test]
fn test_duration_to_5chars_hours() {
    assert_eq!(duration_to_5chars(Duration::from_secs(3600)), " 1hou");
    assert_eq!(duration_to_5chars(Duration::from_secs(86399)), "23hou");
}

#[test]
fn test_duration_to_5chars_days() {
    assert_eq!(duration_to_5chars(Duration::from_secs(86400)), " 1day");
}

#[test]
fn test_duration_to_5chars_months() {
    assert_eq!(duration_to_5chars(Duration::from_secs(2_628_003)), " 1Mon");
}

#[test]
fn test_duration_to_5chars_years() {
    assert_eq!(
        duration_to_5chars(Duration::from_secs(12 * 2_628_003)),
        " 1Yea"
    );
    assert_eq!(
        duration_to_5chars(Duration::from_secs(99 * 12 * 2_628_003)),
        "99Yea"
    );
}

#[test]
fn test_duration_to_5chars_old() {
    assert_eq!(
        duration_to_5chars(Duration::from_secs(100 * 12 * 2_628_003)),
        " OLD "
    );
}

#[test]
fn test_format_duration_nanoseconds() {
    assert_eq!(format_duration(Duration::from_nanos(456)), "456ns");
    assert_eq!(format_duration(Duration::from_nanos(1)), "1ns");
}

#[test]
fn test_format_duration_microseconds() {
    assert_eq!(format_duration(Duration::from_micros(124)), "124us");
    assert_eq!(format_duration(Duration::from_micros(1)), "1us");
}

#[test]
fn test_format_duration_milliseconds() {
    assert_eq!(format_duration(Duration::from_micros(312001)), "312ms");
    assert_eq!(format_duration(Duration::from_millis(5)), "5ms");
}

#[test]
fn test_format_duration_seconds() {
    assert_eq!(format_duration(Duration::from_millis(9_201)), "9.201s");
    assert_eq!(format_duration(Duration::from_millis(59_200)), "59.2s");
    assert_eq!(format_duration(Duration::from_secs(1)), "1.000s");
}

#[test]
fn test_format_duration_minutes() {
    assert_eq!(format_duration(Duration::from_secs(60 + 23)), "1m23s");
    assert_eq!(format_duration(Duration::from_secs(59 * 60 + 2)), "59m02s");
}

#[test]
fn test_format_duration_hours() {
    assert_eq!(
        format_duration(Duration::from_secs(3600 + 2 * 60 + 3)),
        "1h02m03s"
    );
}

#[test]
fn test_format_duration_days() {
    assert_eq!(
        format_duration(Duration::from_secs(86400 + 20 * 3600 + 43 * 60)),
        "1d20h43m"
    );
    assert_eq!(
        format_duration(Duration::from_secs(123 * 86400 + 10 * 3600 + 5 * 60)),
        "123d10h05m"
    );
}

#[test]
fn duration_new_carries_nanoseconds() {
    let d = Duration::new(1, 2_500_000_000);
    assert_eq!(d.as_secs(), 3);
    assert_eq!(d.subsec_nanos(), 500_000_000);
    assert_eq!(format_duration(d), "3.500s");
}

#[test]
fn duration_text_edges() {
    assert_eq!(format_duration(Duration::from_nanos(0)), "0ns");
    assert_eq!(format_duration(Duration::from_millis(10_050)), "10.0s");
    assert_eq!(format_duration(Duration::from_secs(86400)), "1d00h00m");
    assert_eq!(duration_to_5chars(Duration::from_secs(2_628_002)), "30day");
    assert_eq!(duration_to_5chars(Duration::from_nanos(1_000_000_000 - 1)), "999ms");
}

#[test]
fn five_chars_are_always_five() {
    for s in [0u64, 1, 59, 60, 3599, 3600, 86399, 86400, 2_628_003, 31_536_036, 3_122_067_564, 3_122_067_565, u64::MAX] {
        assert_eq!(duration_to_5chars(Duration::from_secs(s)).chars().count(), 5);
    }
}

#[test]
fn timeago_counts_from_now() {
    assert_eq!(ts_to_timeago_string_5chars(100, 160), " 1min");
    assert_eq!(ts_to_timeago_string_5chars(100, 100), " now ");
    assert_eq!(ts_to_timeago_string_5chars(200, 100), " now ");
}

#[test]
fn test_verify_all_alphanumeric_chars_in_haystack() {
    assert!(verify_all_alphanumeric_chars_in_haystack("momit", "ommit"));
    assert!(verify_all_alphanumeric_chars_in_haystack(
        "foo",
        "barfoobaz"
    ));
    assert!(verify_all_alphanumeric_chars_in_haystack("mommit", "ommit"));
    assert!(!verify_all_alphanumeric_chars_in_haystack("fao", "foo"));
    assert!(!verify_all_alphanumeric_chars_in_haystack("foobar", "foo"));
    // Symbols ignored
    assert!(verify_all_alphanumeric_chars_in_haystack(
        "foo-bar", "foobar"
    ));
    assert!(verify_all_alphanumeric_chars_in_haystack("foo", "f.o.o"));
}

#[test]
fn test_verify_all_alphanumeric_chars_in_matching_indices() {
    assert!(verify_all_alphanumeric_chars_in_matching_indices(
        "momit",
        "ommit",
        &vec![0, 1, 2, 3, 4]
    ));
    assert!(verify_all_alphanumeric_chars_in_matching_indices(
        "foo",
        "barfoobaz",
        &vec![3, 4, 5]
    ));

    // If the indices do not contain all the alphanumeric characters:
    assert!(!verify_all_alphanumeric_chars_in_matching_indices(
        "fao",
        "fooa",
        &vec![0, 1]
    )); // Only "f" and "o"
    assert!(verify_all_alphanumeric_chars_in_matching_indices(
        "fao",
        "fooa",
        &vec![0, 1, 3]
    )); // "f", "o", "a"
}

#[test]
fn alphanumeric_checks_ignore_case_and_far_indices() {
    assert!(verify_all_alphanumeric_chars_in_haystack("FOO", "foo"));
    assert!(verify_all_alphanumeric_chars_in_haystack("foo", "FOO"));
    assert!(verify_all_alphanumeric_chars_in_matching_indices("f", "f", &vec![0, 7]));
    assert!(!verify_all_alphanumeric_chars_in_matching_indices("f", "f", &vec![7]));
}

#[test]
fn score_thresholds() {
    assert_eq!(fuzzy_pattern_score_threshold(0, FuzzyMatchThreshold::High), 0);
    assert_eq!(fuzzy_pattern_score_threshold(2, FuzzyMatchThreshold::Medium), 10);
    assert_eq!(fuzzy_pattern_score_threshold(4, FuzzyMatchThreshold::High), 50);
    assert_eq!(fuzzy_pattern_score_threshold(8, FuzzyMatchThreshold::Medium), 35);
    assert_eq!(fuzzy_pattern_score_threshold(9, FuzzyMatchThreshold::High), 90);
}

#[test]
fn match_filters() {
    let high = FuzzyMatchThreshold::High;
    let medium = FuzzyMatchThreshold::Medium;
    assert_eq!(fuzzy_match_with_threshold(Some(60), "commit", "com", high), Some(60));
    assert_eq!(fuzzy_match_with_threshold(Some(49), "commit", "com", high), None);
    assert_eq!(fuzzy_match_with_threshold(Some(95), "commit", "commita", high), None);
    assert_eq!(fuzzy_match_with_threshold(Some(95), "commit", "commita", medium), Some(95));
    assert_eq!(fuzzy_match_with_threshold(None, "commit", "c", medium), None);
    assert_eq!(
        fuzzy_indices_with_threshold(Some((60, vec![0, 1, 2])), "commit", "com", high),
        Some((60, vec![0, 1, 2]))
    );
    assert_eq!(fuzzy_indices_with_threshold(Some((60, vec![0, 1])), "commit", "com", high), None);
}
