use sound_engine::cache::{
    bpm_needs_refresh, parse_bpm_timestamp, resolve_bpm, timestamps_close, BPM_TIMESTAMP_KEY,
    HOT_CUES_STORAGE_KEY,
};

#[test]
fn timestamps_within_two_seconds_are_close() {
    assert!(timestamps_close(10, 12));
    assert!(timestamps_close(12, 10));
    assert!(timestamps_close(7, 7));
    assert!(!timestamps_close(10, 13));
    assert!(!timestamps_close(13, 10));
    assert!(timestamps_close(u64::MAX, u64::MAX - 2));
    assert!(!timestamps_close(0, u64::MAX));
}

#[test]
fn stored_tempo_trusted_at_tolerance_only() {
    let t: u64 = 1_700_000_000;
    assert!(!bpm_needs_refresh(true, Some(t + 2), Some(t)));
    assert!(bpm_needs_refresh(true, Some(t + 3), Some(t)));
    assert!(!bpm_needs_refresh(true, Some(t - 2), Some(t)));
    assert!(bpm_needs_refresh(true, Some(t - 3), Some(t)));
}

#[test]
fn refresh_decision_table() {
    assert!(bpm_needs_refresh(false, None, None));
    assert!(bpm_needs_refresh(false, Some(5), Some(5)));
    assert!(bpm_needs_refresh(true, Some(100), None));
    assert!(bpm_needs_refresh(true, None, None));
    assert!(!bpm_needs_refresh(true, None, Some(100)));
}

#[test]
fn resolve_keeps_fresh_tag_value() {
    let r = resolve_bpm(Some(120.0f64), Some(128.0f64), Some(1000), Some(998));
    assert_eq!(r.bpm, Some(120.0));
    assert!(!r.persist);
}

#[test]
fn resolve_replaces_stale_tag_value() {
    let r = resolve_bpm(Some(120.0f64), Some(128.0f64), Some(1000), Some(997));
    assert_eq!(r.bpm, Some(128.0));
    assert!(r.persist);
    let r = resolve_bpm(Some(120.0f64), Some(128.0f64), Some(1000), None);
    assert_eq!(r.bpm, Some(128.0));
    assert!(r.persist);
}

#[test]
fn resolve_without_analysis_keeps_tag_value() {
    let r = resolve_bpm(Some(120.0f64), None, Some(1000), None);
    assert_eq!(r.bpm, Some(120.0));
    assert!(!r.persist);
    let r = resolve_bpm::<f64>(None, None, None, None);
    assert_eq!(r.bpm, None);
    assert!(!r.persist);
}

#[test]
fn resolve_without_tag_uses_analysis() {
    let r = resolve_bpm(None, Some(99.5f64), None, Some(3));
    assert_eq!(r.bpm, Some(99.5));
    assert!(r.persist);
}

#[test]
fn resolve_unknown_mtime_with_timestamp_keeps_tag() {
    let r = resolve_bpm(Some(90.0f64), Some(128.0f64), None, Some(3));
    assert_eq!(r.bpm, Some(90.0));
    assert!(!r.persist);
}

#[test]
fn timestamp_text_parses_like_u64() {
    assert_eq!(parse_bpm_timestamp("1700000000"), Some(1_700_000_000));
    assert_eq!(parse_bpm_timestamp("+5"), Some(5));
    assert_eq!(parse_bpm_timestamp("007"), Some(7));
    assert_eq!(parse_bpm_timestamp("18446744073709551615"), Some(u64::MAX));
    assert_eq!(parse_bpm_timestamp("18446744073709551616"), None);
    assert_eq!(parse_bpm_timestamp("99999999999999999999"), None);
    assert_eq!(parse_bpm_timestamp(""), None);
    assert_eq!(parse_bpm_timestamp("+"), None);
    assert_eq!(parse_bpm_timestamp("-1"), None);
    assert_eq!(parse_bpm_timestamp("12a"), None);
    assert_eq!(parse_bpm_timestamp(" 1"), None);
    assert_eq!(parse_bpm_timestamp("1é"), None);
    for text in ["0", "42", "1699999999", "+18446744073709551615", "1 2"] {
        assert_eq!(parse_bpm_timestamp(text), text.parse::<u64>().ok());
    }
}

#[test]
fn storage_keys() {
    assert_eq!(HOT_CUES_STORAGE_KEY, "NEVEALDJ::HOTCUES");
    assert_eq!(BPM_TIMESTAMP_KEY, "NEVEALDJ::BPM_TIMESTAMP");
}
