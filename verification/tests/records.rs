use punch_clock::record::find_delimiter;
use punch_clock::record::parse_line;
use punch_clock::record::split_fields;
use punch_clock::record::Action;
use punch_clock::record::LineError;
use punch_clock::record::LogEntry;
use punch_clock::text::chars_of;
use punch_clock::text::same_text;
use punch_clock::timestamp::Timestamp;

fn at(seconds: i64) -> Timestamp {
    Timestamp::from_secs(seconds).expect("representable")
}

#[test]
fn chars_of_lists_the_characters() {
    assert_eq!(chars_of(""), Vec::<char>::new());
    assert_eq!(chars_of("a: b"), vec!['a', ':', ' ', 'b']);
    assert_eq!(chars_of("h\u{e9}: \u{4e16}"), vec!['h', '\u{e9}', ':', ' ', '\u{4e16}']);
}

#[test]
fn same_text_compares_character_by_character() {
    assert!(same_text("", ""));
    assert!(same_text("Clocked In", "Clocked In"));
    assert!(!same_text("Clocked In", "Clocked Out"));
    assert!(!same_text("Clocked In", "Clocked In "));
    assert!(!same_text("clocked in", "Clocked In"));
    assert!(!same_text("abc", "abd"));
}

#[test]
fn action_names_are_the_labels_of_the_log() {
    assert_eq!(Action::ClockIn.name(), "Clocked In");
    assert_eq!(Action::ClockOut.name(), "Clocked Out");
}

#[test]
fn action_names_read_back() {
    assert_eq!(Action::from_name("Clocked In"), Some(Action::ClockIn));
    assert_eq!(Action::from_name("Clocked Out"), Some(Action::ClockOut));
    assert_eq!(Action::from_name(Action::ClockIn.name()), Some(Action::ClockIn));
    assert_eq!(Action::from_name(Action::ClockOut.name()), Some(Action::ClockOut));
}

#[test]
fn only_the_exact_action_names_are_known() {
    assert_eq!(Action::from_name(""), None);
    assert_eq!(Action::from_name("Bogus"), None);
    assert_eq!(Action::from_name("clocked in"), None);
    assert_eq!(Action::from_name("Clocked In "), None);
    assert_eq!(Action::from_name(" Clocked Out"), None);
    assert_eq!(Action::from_name("Clocked"), None);
}

#[test]
fn find_delimiter_gives_the_first_position() {
    assert_eq!(find_delimiter(&chars_of("")), None);
    assert_eq!(find_delimiter(&chars_of(":")), None);
    assert_eq!(find_delimiter(&chars_of(": ")), Some(0));
    assert_eq!(find_delimiter(&chars_of("garbage")), None);
    assert_eq!(find_delimiter(&chars_of("a:b :c")), None);
    assert_eq!(find_delimiter(&chars_of("a: b: c")), Some(1));
    assert_eq!(find_delimiter(&chars_of("Clocked In: 2024-01-01 09:00:00")), Some(10));
    assert_eq!(find_delimiter(&chars_of("trailing: ")), Some(8));
    assert_eq!(find_delimiter(&chars_of("\u{4e16}\u{754c}: x")), Some(2));
}

#[test]
fn split_fields_splits_at_the_first_delimiter() {
    assert_eq!(
        split_fields("Clocked In: 2024-01-01 09:00:00"),
        Some(("Clocked In", "2024-01-01 09:00:00"))
    );
    assert_eq!(split_fields("a: b: c"), Some(("a", "b: c")));
    assert_eq!(split_fields(": "), Some(("", "")));
    assert_eq!(split_fields("x: "), Some(("x", "")));
    assert_eq!(split_fields(": y"), Some(("", "y")));
    assert_eq!(split_fields("\u{4e16}\u{754c}: \u{e9}t\u{e9}"), Some(("\u{4e16}\u{754c}", "\u{e9}t\u{e9}")));
}

#[test]
fn split_fields_finds_none_without_a_delimiter() {
    assert_eq!(split_fields(""), None);
    assert_eq!(split_fields("garbage"), None);
    assert_eq!(split_fields("Clocked In:2024-01-01"), None);
    assert_eq!(split_fields("Clocked In :2024-01-01"), None);
}

#[test]
fn parse_line_reads_a_clock_in() {
    assert_eq!(
        parse_line("Clocked In: 2024-01-01 09:00:00"),
        Ok(LogEntry { action: Action::ClockIn, time: at(1_704_099_600) })
    );
}

#[test]
fn parse_line_reads_a_clock_out() {
    assert_eq!(
        parse_line("Clocked Out: 2024-01-01 17:00:00"),
        Ok(LogEntry { action: Action::ClockOut, time: at(1_704_128_400) })
    );
}

#[test]
fn a_line_without_delimiter_is_malformed() {
    assert_eq!(
        parse_line("garbage"),
        Err(LineError::Malformed { line: "garbage".to_string() })
    );
    assert_eq!(parse_line(""), Err(LineError::Malformed { line: String::new() }));
    assert_eq!(
        parse_line("Clocked In:2024-01-01 09:00:00"),
        Err(LineError::Malformed { line: "Clocked In:2024-01-01 09:00:00".to_string() })
    );
}

#[test]
fn a_line_with_another_first_field_is_an_unknown_action() {
    assert_eq!(
        parse_line("Bogus: 2024-01-01 09:00:00"),
        Err(LineError::UnknownAction { name: "Bogus".to_string() })
    );
    assert_eq!(
        parse_line("clocked in: 2024-01-01 09:00:00"),
        Err(LineError::UnknownAction { name: "clocked in".to_string() })
    );
    assert_eq!(
        parse_line(": 2024-01-01 09:00:00"),
        Err(LineError::UnknownAction { name: String::new() })
    );
}

#[test]
fn the_action_is_looked_at_before_the_timestamp() {
    assert_eq!(
        parse_line("Bogus: yesterday"),
        Err(LineError::UnknownAction { name: "Bogus".to_string() })
    );
}

#[test]
fn a_line_with_another_second_field_is_a_bad_timestamp() {
    assert_eq!(
        parse_line("Clocked In: yesterday"),
        Err(LineError::BadTimestamp { text: "yesterday".to_string() })
    );
    assert_eq!(
        parse_line("Clocked Out: "),
        Err(LineError::BadTimestamp { text: String::new() })
    );
    assert_eq!(
        parse_line("Clocked In: 2024-01-01 09:00:00: again"),
        Err(LineError::BadTimestamp { text: "2024-01-01 09:00:00: again".to_string() })
    );
    assert_eq!(
        parse_line("Clocked In: +10000-01-01 00:00:00"),
        Err(LineError::BadTimestamp { text: "+10000-01-01 00:00:00".to_string() })
    );
}

#[test]
fn notices_name_the_fault_and_what_was_read() {
    assert_eq!(
        LineError::Malformed { line: "garbage".to_string() }.notice(),
        "Malformed log entry: garbage"
    );
    assert_eq!(
        LineError::UnknownAction { name: "Bogus".to_string() }.notice(),
        "Unknown action in log: Bogus"
    );
    assert_eq!(
        LineError::BadTimestamp { text: "yesterday".to_string() }.notice(),
        "Failed to parse timestamp: yesterday"
    );
}

#[test]
fn to_line_writes_action_delimiter_timestamp() {
    let began = LogEntry { action: Action::ClockIn, time: at(1_704_099_600) };
    let ended = LogEntry { action: Action::ClockOut, time: at(1_704_128_400) };
    assert_eq!(began.to_line(), "Clocked In: 2024-01-01 09:00:00");
    assert_eq!(ended.to_line(), "Clocked Out: 2024-01-01 17:00:00");
}

#[test]
fn what_to_line_writes_parse_line_reads_back() {
    for seconds in [-62_167_219_200i64, -1, 0, 1_704_099_600, 253_402_300_799] {
        for action in [Action::ClockIn, Action::ClockOut] {
            let entry = LogEntry { action, time: at(seconds) };
            assert_eq!(parse_line(&entry.to_line()), Ok(entry));
        }
    }
}
