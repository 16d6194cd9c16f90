use th_chat::commands::{
    clean_days, confirms, decimal, delete_decision, duration_days, format_age, format_timestamp,
    format_timestamp_at, parse_duration_days, parse_u64, rename_decision, session_brief,
    session_detailed, session_info_lines, DeleteDecision, DurationError, RenameDecision,
};
use th_chat::session_manager::{SessionData, SessionInfo, SessionManager};

#[test]
fn ages_in_words() {
    assert_eq!(format_age(0), "just now");
    assert_eq!(format_age(1), "1 hour ago");
    assert_eq!(format_age(2), "2 hours ago");
    assert_eq!(format_age(23), "23 hours ago");
    assert_eq!(format_age(24), "1 day ago");
    assert_eq!(format_age(47), "1 day ago");
    assert_eq!(format_age(48), "2 days ago");
    assert_eq!(format_age(24 * 365), "365 days ago");
}

#[test]
fn timestamps_in_words() {
    assert_eq!(format_timestamp_at(1000, 1000), "just now");
    assert_eq!(format_timestamp_at(1000, 1000 + 3 * 3600 + 59), "3 hours ago");
    assert_eq!(format_timestamp_at(1000, 1000 + 72 * 3600), "3 days ago");
    assert_eq!(format_timestamp_at(1000, 999), "in the future");
    assert_eq!(format_timestamp(u64::MAX), "in the future");
    assert!(format_timestamp(0).ends_with(" days ago"));
}

#[test]
fn numbers_in_decimal() {
    assert_eq!(decimal(0), "0");
    assert_eq!(decimal(7), "7");
    assert_eq!(decimal(10), "10");
    assert_eq!(decimal(1234567890), "1234567890");
    assert_eq!(decimal(u64::MAX), "18446744073709551615");
}

#[test]
fn numbers_from_text() {
    assert_eq!(parse_u64("0"), Some(0));
    assert_eq!(parse_u64("42"), Some(42));
    assert_eq!(parse_u64("+42"), Some(42));
    assert_eq!(parse_u64("007"), Some(7));
    assert_eq!(parse_u64("18446744073709551615"), Some(u64::MAX));
    assert_eq!(parse_u64("18446744073709551616"), None);
    assert_eq!(parse_u64("99999999999999999999999"), None);
    assert_eq!(parse_u64(""), None);
    assert_eq!(parse_u64("+"), None);
    assert_eq!(parse_u64("-1"), None);
    assert_eq!(parse_u64("1 2"), None);
    assert_eq!(parse_u64("12a"), None);
    assert_eq!(parse_u64("١٢"), None);
    for text in ["0", "+5", "", "+", "1x", "18446744073709551616", "00012"] {
        assert_eq!(parse_u64(text), text.parse::<u64>().ok());
    }
}

#[test]
fn durations_in_days() {
    assert_eq!(parse_duration_days("30d"), Ok(30));
    assert_eq!(parse_duration_days("7d"), Ok(7));
    assert_eq!(parse_duration_days("24h"), Ok(1));
    assert_eq!(parse_duration_days("47h"), Ok(1));
    assert_eq!(parse_duration_days("23h"), Ok(0));
    assert_eq!(parse_duration_days("0d"), Ok(0));
    // White space around and upper case do not matter.
    assert_eq!(parse_duration_days("  30D \n"), Ok(30));
    assert_eq!(parse_duration_days("48H"), Ok(2));
    assert_eq!(parse_duration_days("d"), Err(DurationError::InvalidNumber));
    assert_eq!(parse_duration_days("xd"), Err(DurationError::InvalidNumber));
    assert_eq!(parse_duration_days("3 d"), Err(DurationError::InvalidNumber));
    assert_eq!(parse_duration_days("30"), Err(DurationError::InvalidFormat));
    assert_eq!(parse_duration_days("30m"), Err(DurationError::InvalidFormat));
    assert_eq!(parse_duration_days(""), Err(DurationError::InvalidFormat));
    assert_eq!(duration_days("30D"), Err(DurationError::InvalidFormat));
    assert_eq!(duration_days(" 30d"), Err(DurationError::InvalidNumber));
    assert_eq!(clean_days(None), Ok(30));
    assert_eq!(clean_days(Some("7d")), Ok(7));
    assert_eq!(clean_days(Some("soon")), Err(DurationError::InvalidFormat));
}

#[test]
fn answers_that_confirm() {
    assert!(confirms("y"));
    assert!(confirms("yes\n"));
    assert!(confirms("  Y\n"));
    assert!(confirms("Yeah"));
    assert!(!confirms(""));
    assert!(!confirms("\n"));
    assert!(!confirms("n"));
    assert!(!confirms("no, yes"));
}

#[test]
fn decisions_on_delete_and_rename() {
    let mut manager = SessionManager::new("dir".to_string());
    manager.create_session_at("work", "c".to_string(), "s".to_string(), None, None, 1).unwrap();
    manager.create_session_at("default", "c".to_string(), "s".to_string(), None, None, 1).unwrap();
    assert_eq!(delete_decision(&manager, "default", true), DeleteDecision::RefuseDefault);
    assert_eq!(delete_decision(&manager, "ghost", true), DeleteDecision::NotFound);
    assert_eq!(delete_decision(&manager, "work", false), DeleteDecision::Confirm);
    assert_eq!(delete_decision(&manager, "work", true), DeleteDecision::Delete);
    assert_eq!(rename_decision(&manager, "ghost", "new"), RenameDecision::SourceNotFound);
    assert_eq!(rename_decision(&manager, "work", "default"), RenameDecision::TargetExists);
    assert_eq!(rename_decision(&manager, "work", "play"), RenameDecision::Rename);
}

#[test]
fn session_lines() {
    let session = SessionData::new_at("work".to_string(), "conv".to_string(), "store".to_string(), 1000)
        .with_description("the project".to_string())
        .with_preset("fast".to_string());
    let info = SessionInfo::from_session_data(&session, "dir/work.json".to_string());
    let now = 1000 + 5 * 3600;
    assert_eq!(session_brief(&info, now), "  work (0 messages, 5 hours ago) [fast]");
    assert_eq!(
        session_detailed(&info, now),
        vec![
            "  📝 work",
            "     Description: the project",
            "     Messages: 0",
            "     Last used: 5 hours ago",
            "     Preset: fast",
            "",
        ]
    );
    assert_eq!(
        session_info_lines(&session, now),
        vec![
            "📝 Session: work",
            "   Description: the project",
            "   Created: 5 hours ago",
            "   Last accessed: 5 hours ago",
            "   Messages: 0",
            "   Config preset: fast",
            "   Conversation ID: conv",
            "   Store ID: store",
        ]
    );

    let mut bare = SessionData::new_at("b".to_string(), "c".to_string(), "s".to_string(), 0);
    bare.increment_message_count_at(0);
    let info = SessionInfo::from_session_data(&bare, "p".to_string());
    assert_eq!(session_brief(&info, 0), "  b (1 messages, just now)");
    assert_eq!(
        session_detailed(&info, 0),
        vec!["  📝 b", "     Messages: 1", "     Last used: just now", ""]
    );
    assert_eq!(session_info_lines(&bare, 0).len(), 6);
}
