use gcsdrop::cli::{expiry_from, parse_duration, Cli};
use std::time::Duration;

#[test]
fn parse_duration_accepts_suffixes() {
    assert_eq!(parse_duration("30m").unwrap(), Duration::from_secs(1800));
    assert_eq!(parse_duration("1h").unwrap(), Duration::from_secs(3600));
    assert_eq!(parse_duration("7d").unwrap(), Duration::from_secs(604800));
    assert_eq!(parse_duration("90s").unwrap(), Duration::from_secs(90));
}

#[test]
fn parse_duration_rejects_over_seven_days() {
    let err = parse_duration("8d").unwrap_err().to_string();
    assert!(err.contains("7 days"), "got: {err}");
}

#[test]
fn parse_duration_rejects_zero() {
    assert!(parse_duration("0s").is_err());
}

#[test]
fn parse_duration_rejects_garbage() {
    assert!(parse_duration("soon").is_err());
    assert!(parse_duration("10").is_err());
    assert!(parse_duration("").is_err());
}

#[test]
fn default_is_one_hour_signed_url() {
    let cli = Cli {
        path: "./report.html".into(),
        expires: None,
    };
    assert_eq!(expiry_from(&cli).unwrap(), Duration::from_secs(3600));
}

#[test]
fn expires_flag_is_honoured() {
    let cli = Cli {
        path: "./x.html".into(),
        expires: Some("7d".into()),
    };
    assert_eq!(expiry_from(&cli).unwrap(), Duration::from_secs(604800));
}

#[test]
fn parse_duration_rejects_multibyte_without_panicking() {
    assert!(parse_duration("1天").is_err());
    assert!(parse_duration("7天").is_err());
    assert!(parse_duration("秒").is_err());
}

#[test]
fn parse_duration_messages_quote_the_trimmed_text() {
    assert_eq!(
        parse_duration("  soon ").unwrap_err(),
        "cannot read 'soon' as a duration; try 30m, 1h or 7d"
    );
    assert_eq!(
        parse_duration("0h").unwrap_err(),
        "a signed URL must last longer than zero seconds"
    );
    assert_eq!(
        parse_duration("604801s").unwrap_err(),
        "'604801s' is longer than 7 days. Google caps V4 signed URLs at 604800 seconds."
    );
}

#[test]
fn parse_duration_edge_values() {
    assert_eq!(parse_duration("604800s").unwrap(), Duration::from_secs(604800));
    assert_eq!(parse_duration("+2h").unwrap(), Duration::from_secs(7200));
    assert_eq!(parse_duration(" 1s\n").unwrap(), Duration::from_secs(1));
    assert!(parse_duration("-1h").is_err());
    assert!(parse_duration("+h").is_err());
    assert!(parse_duration("1 h").is_err());
    // Too many units to count in 64 bits is still just too long.
    assert!(parse_duration("99999999999999999999d").is_err());
    assert!(parse_duration("18446744073709551615d")
        .unwrap_err()
        .contains("longer than 7 days"));
}
