//! Play time by day, and what is counted of players.

use vvv::log_parser::StatsEvent;
use vvv::stats::{
    format_duration, login_reminder, new_player_welcome, recent_dates, split_session_by_day,
    Greeting, PendingState, StatsTracker, Timezone, TrackerAction, FIRST_DAY, FIRST_SECOND,
    LAST_DAY, LAST_SECOND,
};
use vvv::storage::records::PlayerStats;
use vvv::storage::tables::RowWrite;

fn zone(name: &str) -> Timezone {
    Timezone::parse(name).unwrap()
}

#[test]
fn split_same_day_session() {
    let tz = zone("UTC");
    let splits = split_session_by_day(1_700_000_000, 1_700_001_800, &tz);
    assert_eq!(splits.len(), 1);
    assert_eq!(splits[0].1, 1800);
}

#[test]
fn split_cross_midnight_session() {
    let tz = zone("UTC");
    // 23:00 to 01:00 next day = 2 hours total
    let splits = split_session_by_day(1_700_004_000, 1_700_011_200, &tz);
    assert_eq!(splits.len(), 2);
    let total: u64 = splits.iter().map(|s| s.1).sum();
    assert_eq!(total, 7200);
}

#[test]
fn split_multi_day_session() {
    let tz = zone("UTC");
    // 3.5 days
    let start = 1_700_000_000;
    let end = 1_700_000_000 + (3 * 86_400 + 43_200);
    let splits = split_session_by_day(start, end, &tz);
    let total: u64 = splits.iter().map(|s| s.1).sum();
    assert_eq!(total, 3 * 86_400 + 43_200);
}

#[test]
fn format_duration_zero() {
    assert_eq!(format_duration(0), "0m");
}

#[test]
fn format_duration_minutes_only() {
    assert_eq!(format_duration(300), "5m");
}

#[test]
fn format_duration_hours_and_minutes() {
    assert_eq!(format_duration(3_900), "1h 5m");
}

#[test]
fn format_duration_days_hours_minutes() {
    assert_eq!(format_duration(100_000), "1d 3h 46m");
}

#[test]
fn split_ist_timezone() {
    let tz = zone("Asia/Kolkata");
    // IST is UTC+5:30, so midnight IST = 18:30 UTC previous day
    let start = 1_700_000_000;
    let end = 1_700_007_000;
    let splits = split_session_by_day(start, end, &tz);
    let total: u64 = splits.iter().map(|s| s.1).sum();
    assert_eq!(total, 7000);
}

#[test]
fn durations_leave_out_what_is_zero() {
    assert_eq!(format_duration(86_400), "1d");
    assert_eq!(format_duration(86_460), "1d 1m");
    assert_eq!(format_duration(59), "0m");
    assert_eq!(format_duration(u64::MAX), "213503982334601d 7h");
}

#[test]
fn days_of_a_session() {
    assert_eq!(
        split_session_by_day(1_700_004_000, 1_700_011_200, &zone("UTC")),
        [("2023-11-14".to_string(), 2400), ("2023-11-15".to_string(), 4800)]
    );
    assert_eq!(
        split_session_by_day(1_699_986_600, 1_699_986_700, &zone("Asia/Kolkata")),
        [("2023-11-15".to_string(), 100)]
    );
    assert!(split_session_by_day(5, 5, &zone("UTC")).is_empty());
    assert!(split_session_by_day(6, 5, &zone("UTC")).is_empty());
    assert_eq!(
        split_session_by_day(-100, 100, &zone("UTC")),
        [("1969-12-31".to_string(), 100), ("1970-01-01".to_string(), 100)]
    );
}

#[test]
fn days_without_a_midnight_begin_past_it() {
    // In Beirut the clocks go from 00:00 to 01:00 on 2024-03-31.
    let start = 1_711_830_000;
    let end = 1_711_850_000;
    let splits = split_session_by_day(start, end, &zone("Asia/Beirut"));
    assert_eq!(splits, [("2024-03-30".to_string(), 6000), ("2024-03-31".to_string(), 14_000)]);
}

#[test]
fn days_with_two_midnights_begin_at_the_first() {
    // In Havana the clocks go from 01:00 back to 00:00 on 2024-11-03, which has 25 hours.
    let splits = split_session_by_day(1_730_602_800, 1_730_700_000, &zone("America/Havana"));
    assert_eq!(
        splits,
        [
            ("2024-11-02".to_string(), 3600),
            ("2024-11-03".to_string(), 90_000),
            ("2024-11-04".to_string(), 3600),
        ]
    );
}

#[test]
fn days_that_are_skipped_have_no_seconds() {
    // In Apia 2011-12-29 was followed by 2011-12-31.
    let splits = split_session_by_day(1_325_235_600, 1_325_242_800, &zone("Pacific/Apia"));
    assert_eq!(splits, [("2011-12-29".to_string(), 3600), ("2011-12-31".to_string(), 3600)]);
}

#[test]
fn clocks_that_go_back_across_midnight_lose_nothing() {
    // In St. John's the clocks went from 00:01 back to 23:01 on 2010-11-07.
    let tz = zone("America/St_Johns");
    let midnight = 1_289_097_000;
    for start in [midnight - 3600, midnight + 30, midnight + 1800, midnight + 3660] {
        for end in [midnight + 40, midnight + 2000, midnight + 4000, midnight + 90_000] {
            let total: u64 = split_session_by_day(start, end, &tz).iter().map(|s| s.1).sum();
            assert_eq!(total, u64::try_from(end - start).unwrap_or(0));
        }
    }
    assert_eq!(
        split_session_by_day(midnight - 60, midnight + 7200, &tz),
        [("2010-11-06".to_string(), 60), ("2010-11-07".to_string(), 7200)]
    );
    // 23:30 to 00:30, once the clocks have gone back.
    assert_eq!(
        split_session_by_day(midnight + 1800, midnight + 5400, &tz),
        [("2010-11-06".to_string(), 1800), ("2010-11-07".to_string(), 1800)]
    );
}

#[test]
fn days_follow_one_another() {
    let start = 1_700_000_000;
    let end = start + 3 * 86_400 + 43_200;
    assert_eq!(
        split_session_by_day(start, end, &zone("Asia/Kolkata")),
        [
            ("2023-11-15".to_string(), 73_000),
            ("2023-11-16".to_string(), 86_400),
            ("2023-11-17".to_string(), 86_400),
            ("2023-11-18".to_string(), 56_600),
        ]
    );
    let midnight = 1_700_006_400;
    assert_eq!(
        split_session_by_day(midnight - 1, midnight, &zone("UTC")),
        [("2023-11-14".to_string(), 1)]
    );
    assert_eq!(
        split_session_by_day(midnight, midnight + 86_400, &zone("UTC")),
        [("2023-11-15".to_string(), 86_400)]
    );
}

#[test]
fn days_of_a_week_are_listed() {
    // 00:30 in Berlin on the day after the clocks went forward.
    let dates = recent_dates(1_711_924_200, &zone("Europe/Berlin")).unwrap();
    assert_eq!(
        dates,
        [
            "2024-04-01",
            "2024-03-31",
            "2024-03-30",
            "2024-03-29",
            "2024-03-28",
            "2024-03-27",
            "2024-03-26",
        ]
    );
    assert_eq!(recent_dates(1_711_924_200, &zone("UTC")).unwrap()[0], "2024-03-31");
    assert_eq!(recent_dates(FIRST_SECOND + 6 * 86_400, &zone("UTC")).unwrap().len(), 7);
    assert_eq!(recent_dates(FIRST_SECOND + 6 * 86_400 - 1, &zone("UTC")), None);
    assert_eq!(recent_dates(LAST_SECOND, &zone("UTC")).unwrap().len(), 7);
    assert_eq!(recent_dates(LAST_SECOND, &zone("Pacific/Kiritimati")), None);
}

#[test]
fn days_on_which_the_clocks_change() {
    // In Berlin 2024-03-31 has 23 hours.
    let start = 1_711_836_000;
    let end = 1_711_926_000;
    let splits = split_session_by_day(start, end, &zone("Europe/Berlin"));
    assert_eq!(
        splits,
        [
            ("2024-03-30".to_string(), 3600),
            ("2024-03-31".to_string(), 82_800),
            ("2024-04-01".to_string(), 3600),
        ]
    );
    // In New York 2024-03-10 has 23 hours.
    assert_eq!(
        split_session_by_day(1_710_046_800, 1_710_133_200, &zone("America/New_York")),
        [("2024-03-10".to_string(), 82_800), ("2024-03-11".to_string(), 3600)]
    );
}

#[test]
fn zones_are_known_by_name() {
    assert!(Timezone::parse("Europe/Berlin").is_some());
    assert!(Timezone::parse("UTC").is_some());
    assert!(Timezone::parse("Europe/Nowhere").is_none());
    assert!(Timezone::parse("").is_none());
}

#[test]
fn limits_of_the_calendar() {
    assert_eq!(chrono::DateTime::<chrono::Utc>::MIN_UTC.timestamp(), FIRST_SECOND);
    assert_eq!(chrono::DateTime::<chrono::Utc>::MAX_UTC.timestamp(), LAST_SECOND);
    assert!(chrono::DateTime::from_timestamp(FIRST_SECOND, 0).is_some());
    assert!(chrono::DateTime::from_timestamp(FIRST_SECOND - 1, 0).is_none());
    assert!(chrono::DateTime::from_timestamp(LAST_SECOND, 0).is_some());
    assert!(chrono::DateTime::from_timestamp(LAST_SECOND + 1, 0).is_none());
    assert!(chrono::NaiveDate::from_num_days_from_ce_opt(FIRST_DAY).is_some());
    assert!(chrono::NaiveDate::from_num_days_from_ce_opt(FIRST_DAY - 1).is_none());
    assert!(chrono::NaiveDate::from_num_days_from_ce_opt(LAST_DAY).is_some());
    assert!(chrono::NaiveDate::from_num_days_from_ce_opt(LAST_DAY + 1).is_none());
    let end = LAST_SECOND - 86_400;
    assert_eq!(split_session_by_day(end - 10, end, &zone("UTC"))[0].1, 10);
    let start = FIRST_SECOND + 86_400;
    let splits = split_session_by_day(start, start + 10, &zone("Pacific/Kiritimati"));
    assert_eq!(splits[0].1, 10);
    assert_eq!(split_session_by_day(LAST_SECOND - 10, LAST_SECOND, &zone("UTC"))[0].1, 10);
    let last_midnight = LAST_SECOND - 86_399;
    let splits = split_session_by_day(last_midnight - 5, LAST_SECOND, &zone("UTC"));
    assert_eq!((splits[0].1, splits[1].1), (5, 86_399));
    assert_eq!(splits.len(), 2);
    let splits = split_session_by_day(FIRST_SECOND, FIRST_SECOND + 86_410, &zone("UTC"));
    assert_eq!((splits[0].1, splits[1].1), (86_400, 10));
    let west = zone("America/New_York");
    assert_eq!(split_session_by_day(LAST_SECOND - 10, LAST_SECOND, &west)[0].1, 10);
    assert!(split_session_by_day(FIRST_SECOND, FIRST_SECOND + 10, &west).is_empty());
    let east = zone("Asia/Kolkata");
    assert_eq!(split_session_by_day(FIRST_SECOND, FIRST_SECOND + 10, &east)[0].1, 10);
    assert!(split_session_by_day(LAST_SECOND - 10, LAST_SECOND, &east).is_empty());
    assert!(split_session_by_day(i64::MIN, 0, &zone("UTC")).is_empty());
    assert!(split_session_by_day(0, i64::MAX, &zone("UTC")).is_empty());
}

fn join(username: &str) -> StatsEvent {
    StatsEvent::Join { username: username.into() }
}

fn leave(username: &str) -> StatsEvent {
    StatsEvent::Leave { username: username.into() }
}

const NOON: i64 = 1_700_049_600;

#[test]
fn session_is_counted_once() {
    let mut tracker = StatsTracker::new(zone("UTC"));
    assert!(tracker.state.flush().is_none());
    let resolved = StatsEvent::UuidResolved { username: "tess".into(), uuid: "u-1".into() };
    let action = tracker.handle_event(&resolved, None, NOON).unwrap();
    assert_eq!(
        action,
        TrackerAction::Store {
            writes: vec![RowWrite::PutUuid { username: "tess".into(), uuid: "u-1".into() }]
        }
    );
    let action = tracker.handle_event(&join("tess"), None, NOON).unwrap();
    assert_eq!(
        action,
        TrackerAction::Greet { greeting: Greeting::Welcome { command: new_player_welcome("tess") } }
    );
    let chat = StatsEvent::Chat { username: "tess".into() };
    assert_eq!(tracker.handle_event(&chat, None, NOON + 1), Some(TrackerAction::Nothing));
    assert_eq!(tracker.handle_event(&chat, None, NOON + 2), Some(TrackerAction::Nothing));
    let death = StatsEvent::Death { username: "tess".into() };
    assert_eq!(tracker.handle_event(&death, None, NOON + 3), Some(TrackerAction::Nothing));
    assert_eq!(tracker.handle_event(&leave("tess"), None, NOON + 100), Some(TrackerAction::Flush));
    assert_eq!(tracker.handle_event(&leave("tess"), None, NOON + 200), Some(TrackerAction::Nothing));
    let (deltas, daily) = tracker.state.flush().unwrap();
    assert_eq!(deltas.len(), 1);
    assert_eq!(deltas[0].0, "u-1");
    let d = deltas[0].1;
    assert_eq!((d.messages, d.deaths, d.commands, d.advancements), (2, 1, 0, 0));
    assert_eq!(d.play_time_secs, 100);
    assert_eq!(d.last_login_ts, Some(NOON));
    assert_eq!(d.last_logout_ts, Some(NOON + 100));
    assert!(d.is_new_player);
    assert_eq!(d.total_logins_delta, 1);
    assert_eq!(daily.len(), 1);
    assert_eq!(daily[0].0, "u-1");
    assert_eq!((daily[0].1.date.as_str(), daily[0].1.secs), ("2023-11-15", 100));
    assert!(tracker.state.flush().is_none());
}

#[test]
fn sessions_end_with_the_server() {
    let mut tracker = StatsTracker::new(zone("UTC"));
    tracker.handle_event(&join("abc"), None, NOON).unwrap();
    tracker.handle_event(&join("def"), None, NOON + 10).unwrap();
    let stop = StatsEvent::ServerStop;
    assert_eq!(tracker.handle_event(&stop, None, NOON + 60), Some(TrackerAction::Flush));
    let (mut deltas, mut daily) = tracker.state.flush().unwrap();
    deltas.sort_by(|a, b| a.0.cmp(&b.0));
    daily.sort_by(|a, b| a.0.cmp(&b.0));
    assert_eq!(deltas[0].1.play_time_secs, 60);
    assert_eq!(deltas[1].1.play_time_secs, 50);
    assert_eq!(daily[1].1.secs, 50);
    assert_eq!(tracker.handle_event(&leave("abc"), None, NOON + 70), Some(TrackerAction::Nothing));
}

#[test]
fn returning_players_are_reminded() {
    let mut tracker = StatsTracker::new(zone("Asia/Kolkata"));
    let known = PlayerStats { last_login_ts: 1_700_000_000, ..PlayerStats::default() };
    let action = tracker.handle_event(&join("tess"), Some(known), NOON).unwrap();
    assert_eq!(
        action,
        TrackerAction::Greet {
            greeting: Greeting::Reminder {
                uuid: "tess".into(),
                last_login: "2023-11-15 03:43 IST".into(),
                yesterday: "2023-11-14".into(),
            }
        }
    );
    let never = PlayerStats::default();
    let action = tracker.handle_event(&join("tess"), Some(never), NOON).unwrap();
    assert_eq!(
        action,
        TrackerAction::Greet {
            greeting: Greeting::Reminder {
                uuid: "tess".into(),
                last_login: "unknown".into(),
                yesterday: "2023-11-14".into(),
            }
        }
    );
    let mut early = StatsTracker::new(zone("UTC"));
    assert_eq!(early.handle_event(&join("tess"), Some(never), FIRST_SECOND + 86_399), None);
    assert!(early.handle_event(&join("tess"), Some(never), FIRST_SECOND + 86_400).is_some());
    assert!(early.handle_event(&join("tess"), None, i64::MIN).is_some());
    let beyond = PlayerStats { last_login_ts: i64::MAX, ..PlayerStats::default() };
    let action = tracker.handle_event(&join("tess"), Some(beyond), NOON).unwrap();
    assert!(matches!(
        action,
        TrackerAction::Greet { greeting: Greeting::Reminder { last_login, .. } }
            if last_login == "unknown"
    ));
}

#[test]
fn greetings_are_commands() {
    assert_eq!(
        new_player_welcome("tess"),
        r#"tellraw @a {"text":"[Stats] Welcome tess! This is your first login.","color":"green"}"#
    );
    assert_eq!(
        login_reminder("tess", "2023-11-15 03:43 IST", 5400),
        r#"tellraw @a {"text":"[Stats] Welcome back tess! Last login: 2023-11-15 03:43 IST. Yesterday you played 1h 30m.","color":"gold"}"#
    );
}

#[test]
fn players_without_uuid_are_recorded_by_name() {
    let mut state = PendingState::new();
    assert_eq!(state.resolve_uuid("tess"), "tess");
    state.note_uuid("tess", "u-1");
    assert_eq!(state.resolve_uuid("tess"), "u-1");
    state.note_uuid("tess", "u-2");
    assert_eq!(state.resolve_uuid("tess"), "u-2");
}
