use punch_clock::command::Command;
use punch_clock::keeper::TimeKeeper;
use punch_clock::record::parse_line;
use punch_clock::record::Action;
use punch_clock::record::LogEntry;
use punch_clock::timestamp::Timestamp;

const NINE: i64 = 1_704_099_600;
const FIVE: i64 = 1_704_128_400;

fn at(seconds: i64) -> Timestamp {
    Timestamp::from_secs(seconds).expect("representable")
}

#[test]
fn command_words_are_read() {
    assert_eq!(Command::from_word("clock_in"), Command::ClockIn);
    assert_eq!(Command::from_word("clock_out"), Command::ClockOut);
    assert_eq!(Command::from_word("show_logs"), Command::ShowLogs);
    assert_eq!(Command::from_word("total_time"), Command::TotalTime);
    assert_eq!(Command::from_word("exit"), Command::Exit);
}

#[test]
fn other_words_are_unknown_commands() {
    assert_eq!(Command::from_word(""), Command::Unknown);
    assert_eq!(Command::from_word("clock in"), Command::Unknown);
    assert_eq!(Command::from_word("Clock_In"), Command::Unknown);
    assert_eq!(Command::from_word("exit "), Command::Unknown);
    assert_eq!(Command::from_word(" exit"), Command::Unknown);
    assert_eq!(Command::from_word("quit"), Command::Unknown);
    assert_eq!(Command::from_word("clock_in\n"), Command::Unknown);
}

#[test]
fn clock_in_opens_a_session_and_writes_its_record() {
    let mut keeper = TimeKeeper::new();
    let written = keeper.clock_in(at(NINE));
    assert_eq!(written, Some("Clocked In: 2024-01-01 09:00:00".to_string()));
    assert!(keeper.is_clocked_in());
    assert_eq!(keeper.open_since(), Some(at(NINE)));
    assert_eq!(keeper.total_seconds(), 0);
}

#[test]
fn clock_out_closes_the_session_and_writes_its_record() {
    let mut keeper = TimeKeeper::new();
    keeper.clock_in(at(NINE));
    let written = keeper.clock_out(at(FIVE));
    assert_eq!(written, Some("Clocked Out: 2024-01-01 17:00:00".to_string()));
    assert!(!keeper.is_clocked_in());
    assert_eq!(keeper.open_since(), None);
    assert_eq!(keeper.total_seconds(), 8 * 3600);
}

#[test]
fn a_second_clock_in_is_refused() {
    let mut keeper = TimeKeeper::new();
    assert!(keeper.clock_in(at(NINE)).is_some());
    assert_eq!(keeper.clock_in(at(NINE + 3600)), None);
    assert!(keeper.is_clocked_in());
    assert_eq!(keeper.open_since(), Some(at(NINE)));
    assert_eq!(keeper.total_seconds(), 0);
    assert_eq!(keeper.clock_in(at(NINE - 3600)), None);
    assert_eq!(keeper.open_since(), Some(at(NINE)));
}

#[test]
fn a_clock_out_without_session_is_refused() {
    let mut keeper = TimeKeeper::new();
    assert_eq!(keeper.clock_out(at(FIVE)), None);
    assert_eq!(keeper.total_seconds(), 0);
    assert!(!keeper.is_clocked_in());
    keeper.clock_in(at(NINE));
    keeper.clock_out(at(FIVE));
    assert_eq!(keeper.clock_out(at(FIVE + 3600)), None);
    assert_eq!(keeper.total_seconds(), 8 * 3600);
    assert_eq!(keeper.open_since(), None);
}

#[test]
fn a_clock_out_before_the_beginning_adds_nothing_live() {
    let mut keeper = TimeKeeper::new();
    keeper.clock_in(at(FIVE));
    let written = keeper.clock_out(at(NINE));
    assert_eq!(written, Some("Clocked Out: 2024-01-01 09:00:00".to_string()));
    assert_eq!(keeper.total_seconds(), 0);
    assert!(!keeper.is_clocked_in());
}

#[test]
fn an_open_session_does_not_count_yet() {
    let mut keeper = TimeKeeper::new();
    keeper.clock_in(at(NINE));
    keeper.clock_out(at(NINE + 90));
    keeper.clock_in(at(FIVE));
    assert_eq!(keeper.total_seconds(), 90);
    assert_eq!(keeper.total_time(), "00:01:30");
}

#[test]
fn the_log_of_a_live_session_replays_to_the_same_time_worked() {
    let mut live = TimeKeeper::new();
    let mut log: Vec<String> = Vec::new();
    log.push(live.clock_in(at(NINE)).expect("clocked in"));
    log.push(live.clock_out(at(FIVE)).expect("clocked out"));
    let mut restarted = TimeKeeper::new();
    let errors = restarted.load_logs(&log);
    assert!(errors.is_empty());
    assert_eq!(restarted.total_seconds(), live.total_seconds());
    assert_eq!(restarted.total_seconds(), 8 * 3600);
    assert_eq!(restarted.open_since(), live.open_since());
    assert_eq!(restarted.is_clocked_in(), live.is_clocked_in());
}

#[test]
fn the_log_of_many_live_commands_replays_to_the_same_state() {
    let mut live = TimeKeeper::new();
    let mut log: Vec<String> = vec!["Clocked In: 2023-12-31 22:00:00".to_string()];
    live.load_logs(&log);
    let mut now = NINE;
    for round in 0..40i64 {
        let written = if round % 3 == 1 {
            live.clock_out(at(now))
        } else {
            live.clock_in(at(now))
        };
        if let Some(line) = written {
            log.push(line);
        }
        now += 1_000 * (round % 5) - 500;
        let mut restarted = TimeKeeper::new();
        assert!(restarted.load_logs(&log).is_empty());
        assert_eq!(restarted.total_seconds(), live.total_seconds());
        assert_eq!(restarted.open_since(), live.open_since());
        assert_eq!(restarted.is_clocked_in(), live.is_clocked_in());
    }
    assert!(live.total_seconds() > 0);
}

#[test]
fn a_session_on_the_local_clock_replays_to_the_same_time_worked() {
    let reading = chrono::Local::now().naive_local().and_utc().timestamp();
    let began = at(reading);
    let ended = at(reading + 1_234);
    let mut keeper = TimeKeeper::new();
    let mut log: Vec<String> = Vec::new();
    let line = keeper.clock_in(began).expect("clocked in");
    assert_eq!(parse_line(&line), Ok(LogEntry { action: Action::ClockIn, time: began }));
    log.push(line);
    assert_eq!(keeper.clock_in(ended), None);
    let line = keeper.clock_out(ended).expect("clocked out");
    assert_eq!(parse_line(&line), Ok(LogEntry { action: Action::ClockOut, time: ended }));
    log.push(line);
    assert_eq!(keeper.total_seconds(), 1_234);
    let mut restarted = TimeKeeper::new();
    assert!(restarted.load_logs(&log).is_empty());
    assert_eq!(restarted.total_seconds(), keeper.total_seconds());
    assert_eq!(restarted.is_clocked_in(), keeper.is_clocked_in());
}
