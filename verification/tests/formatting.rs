use guild_audit::cases::{
    action_display_name, event_display_name, format_case_label, format_compact_duration,
    parse_case_label,
};
use guild_audit::display::{
    action_display, build_test_items, extract_attachment_filenames, format_content_display,
    format_history_content, message_display_name, sanitize, sanitize_mentions,
    truncate_for_embed, truncate_text,
};

#[test]
fn case_label_roundtrip() {
    assert_eq!(format_case_label("warn", 5), "WARN5");
    assert_eq!(format_case_label("Ban", 17), "BAN17");
    assert_eq!(parse_case_label("WARN5"), Some(("WARN".to_owned(), 5)));
    assert_eq!(parse_case_label("  warn5  "), Some(("WARN".to_owned(), 5)));
}

#[test]
fn parse_case_label_rejects_malformed() {
    assert_eq!(parse_case_label(""), None);
    assert_eq!(parse_case_label("   "), None);
    assert_eq!(parse_case_label("warn"), None);
    assert_eq!(parse_case_label("5"), None);
    assert_eq!(parse_case_label("warn0"), None);
    assert_eq!(parse_case_label("warn5x"), None);
    // A leading plus sign on the number is accepted, as `parse` accepts it.
    assert_eq!(parse_case_label("warn+5"), Some(("WARN".to_owned(), 5)));
    // A number too large for 64 bits is rejected.
    assert_eq!(parse_case_label("warn18446744073709551616"), None);
    assert_eq!(
        parse_case_label("warn18446744073709551615"),
        Some(("WARN".to_owned(), u64::MAX))
    );
}

#[test]
fn action_display_names() {
    assert_eq!(action_display_name("warn"), "Warned");
    assert_eq!(action_display_name("ban"), "Banned");
    assert_eq!(action_display_name("unwarn_all"), "Unwarned All");
    assert_eq!(action_display_name("purge"), "Purged");
    // Unknown actions get their first character uppercased.
    assert_eq!(action_display_name("mute"), "Mute");
    assert_eq!(action_display_name(""), "Unknown");
}

#[test]
fn compact_durations() {
    assert_eq!(format_compact_duration(0), "0s");
    assert_eq!(format_compact_duration(59), "59s");
    assert_eq!(format_compact_duration(60), "1m");
    assert_eq!(format_compact_duration(61), "1m 1s");
    assert_eq!(format_compact_duration(3600), "1h");
    assert_eq!(format_compact_duration(5400), "1h 30m");
    assert_eq!(format_compact_duration(86400), "1d");
    assert_eq!(format_compact_duration(90000), "1d 1h");
    assert_eq!(format_compact_duration(86400 + 1800), "1d");
}

#[test]
fn event_display_names() {
    assert_eq!(event_display_name("created"), "Created");
    assert_eq!(event_display_name("reason_updated"), "Reason Updated");
    assert_eq!(event_display_name("note_added"), "Note Added");
    assert_eq!(event_display_name("whatever"), "Updated");
}

#[test]
fn filter_action_display() {
    assert_eq!(action_display("log_only"), "Only Log");
    assert_eq!(action_display("delete_and_log"), "Delete and Log");
    assert_eq!(action_display("warn_and_log"), "Warn, Delete and Log");
    assert_eq!(action_display("timeout_delete_and_log"), "Timeout, Delete and Log");
    assert_eq!(action_display("other"), "Unknown");
}

#[test]
fn mention_sanitizers() {
    assert_eq!(sanitize_mentions("hi @everyone"), "hi @\u{200B}everyone");
    assert_eq!(sanitize_mentions("plain"), "plain");
    assert_eq!(sanitize("a@b\nc"), "a@\u{200B}b c");
}

#[test]
fn truncation() {
    assert_eq!(truncate_for_embed("hello", 3), "hel…");
    assert_eq!(truncate_for_embed("hi", 5), "hi");
    assert_eq!(truncate_text("hello", 5), "hello");
    assert_eq!(truncate_text("hello!", 5), "hello…");
}

#[test]
fn history_lines() {
    assert_eq!(
        format_history_content("user", Some(" Ann\nB "), "yo"),
        "Ann B: yo"
    );
    assert_eq!(format_history_content("user", None, "yo"), "unknown: yo");
    assert_eq!(format_history_content("user", Some("   "), "yo"), "unknown: yo");
    assert_eq!(format_history_content("assistant", Some("Ann"), "reply"), "reply");
}

#[test]
fn test_items_pagination_fixture() {
    let items = build_test_items();
    assert_eq!(items.len(), 24);
    assert_eq!(items[0], "Sample pagination item #1");
    assert_eq!(items[23], "Sample pagination item #24");
}

#[test]
fn attachment_filename_lists() {
    assert_eq!(
        extract_attachment_filenames("a.png (http://u/a.png)\nplain line"),
        "[a.png](http://u/a.png), plain line"
    );
    assert_eq!(extract_attachment_filenames(""), "");
    assert_eq!(extract_attachment_filenames("  \n\n"), "");
}

#[test]
fn content_display_variants() {
    assert_eq!(
        format_content_display("https://tenor.com/view/x"),
        "[GIF](https://tenor.com/view/x)"
    );
    assert_eq!(
        format_content_display("http://a/x.PNG rest"),
        "[Image](http://a/x.PNG)"
    );
    assert_eq!(
        format_content_display("https://a/clip.mp4"),
        "[Video](https://a/clip.mp4)"
    );
    assert_eq!(
        format_content_display("  hello @everyone\nworld  "),
        "hello @\u{200B}everyone world"
    );
}

#[test]
fn display_name_preference() {
    assert_eq!(message_display_name(Some("Nick"), Some("Glob"), "user"), "Nick");
    assert_eq!(message_display_name(Some("  "), Some("Glob"), "user"), "Glob");
    assert_eq!(message_display_name(None, Some(" "), "user"), "user");
    assert_eq!(message_display_name(None, None, "user"), "user");
}
