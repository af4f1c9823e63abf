//! What is remembered, in memory and in the database.

use std::collections::BTreeMap;
use vvv::storage::records::{
    apply_player_delta, read_all_player_stats, read_recent_play_time, reverse_resolve_uuid,
    write_player_deltas, DailyTimeSplit, DayTimes, PlayerDelta, PlayerStats,
};
use vvv::storage::tables::RowWrite;
use vvv::storage::{
    mute_expiry, remove_muted_user, write_account_mapping, write_muted_user, write_optout_entry,
    write_player_profile_setting, write_privacy_setting, OptoutTable, Outcome, Storage,
    StorageError, StoredRows,
};
use vvv::text_map::TextMap;

/// The rows of a database that is carried from one opening to the next.
#[derive(Default)]
struct Rows {
    bridge: Option<(u64, u64, String)>,
    username_uuid: BTreeMap<String, String>,
    players: BTreeMap<String, PlayerStats>,
    daily: BTreeMap<(String, String), u64>,
    dc_to_mc: BTreeMap<u64, String>,
    mc_to_dc: BTreeMap<String, u64>,
    join_leave: BTreeMap<u64, bool>,
    mute_mention: BTreeMap<u64, bool>,
    muted: BTreeMap<u64, u64>,
    privacy: Option<bool>,
    profile: Option<bool>,
}

impl Rows {
    fn commit(&mut self, writes: Vec<RowWrite>) -> Outcome<()> {
        for w in writes {
            match w {
                RowWrite::PutBridge { channel_id, guild_id, mc_server_address } => {
                    self.bridge = Some((channel_id, guild_id, mc_server_address));
                }
                RowWrite::RemoveBridge => self.bridge = None,
                RowWrite::PutUuid { username, uuid } => {
                    self.username_uuid.insert(username, uuid);
                }
                RowWrite::PutPlayer { uuid, stats } => {
                    self.players.insert(uuid, stats);
                }
                RowWrite::PutDailyPlayTime { uuid, date, secs } => {
                    self.daily.insert((uuid, date), secs);
                }
                RowWrite::PutDcToMc { discord_id, mc_username } => {
                    self.dc_to_mc.insert(discord_id, mc_username);
                }
                RowWrite::RemoveDcToMc { discord_id } => {
                    self.dc_to_mc.remove(&discord_id);
                }
                RowWrite::PutMcToDc { mc_username, discord_id } => {
                    self.mc_to_dc.insert(mc_username, discord_id);
                }
                RowWrite::RemoveMcToDc { mc_username } => {
                    self.mc_to_dc.remove(&mc_username);
                }
                RowWrite::PutJoinLeaveOptout { discord_id } => {
                    self.join_leave.insert(discord_id, true);
                }
                RowWrite::RemoveJoinLeaveOptout { discord_id } => {
                    self.join_leave.remove(&discord_id);
                }
                RowWrite::PutMuteMention { discord_id } => {
                    self.mute_mention.insert(discord_id, true);
                }
                RowWrite::RemoveMuteMention { discord_id } => {
                    self.mute_mention.remove(&discord_id);
                }
                RowWrite::PutMutedUser { discord_id, expiry_ts } => {
                    self.muted.insert(discord_id, expiry_ts);
                }
                RowWrite::RemoveMutedUser { discord_id } => {
                    self.muted.remove(&discord_id);
                }
                RowWrite::PutPrivacyEnabled { enabled } => self.privacy = Some(enabled),
                RowWrite::PutPlayerProfileEnabled { enabled } => self.profile = Some(enabled),
            }
        }
        Outcome::Done(())
    }

    fn open(&self) -> Storage {
        Storage::open(
            StoredRows {
                dc_to_mc: self.dc_to_mc.iter().map(|(k, v)| (*k, v.clone())).collect(),
                join_leave_optout: self.join_leave.iter().map(|(k, v)| (*k, *v)).collect(),
                mute_mention: self.mute_mention.iter().map(|(k, v)| (*k, *v)).collect(),
                muted_users: self.muted.iter().map(|(k, v)| (*k, *v)).collect(),
                privacy_enabled: self.privacy,
                player_profile_enabled: self.profile,
            },
            "localhost:25565".to_string(),
        )
    }

    fn bridge_channel(&self) -> Option<u64> {
        Storage::get_bridge_channel(Outcome::Done(self.bridge.clone())).expect("read failed")
    }

    fn connect(&mut self, storage: &mut Storage, id: u64, mc: &str) -> Result<(), StorageError> {
        let existing = self.mc_to_dc.get(mc).copied();
        let old = self.dc_to_mc.get(&id).cloned();
        let saved = match write_account_mapping(existing, old, id, mc) {
            Ok(writes) => self.commit(writes),
            Err(e) => Outcome::Failed(e),
        };
        storage.set_connection(id, mc.to_string(), saved)
    }
}

const NOW: u64 = 1_700_000_000;

#[test]
fn get_returns_none_when_empty() {
    let rows = Rows::default();
    assert!(rows.bridge_channel().is_none());
}

#[test]
fn set_then_get_roundtrip() {
    let mut rows = Rows::default();
    let storage = rows.open();
    rows.commit(storage.set_bridge_channel(123, 456));
    assert_eq!(rows.bridge_channel(), Some(123));
    assert_eq!(rows.bridge, Some((123, 456, "localhost:25565".to_string())));
}

#[test]
fn clear_then_get_none() {
    let mut rows = Rows::default();
    let storage = rows.open();
    rows.commit(storage.set_bridge_channel(42, 99));
    rows.commit(storage.clear_bridge_channel());
    assert!(rows.bridge_channel().is_none());
}

#[test]
fn set_overwrites_previous() {
    let mut rows = Rows::default();
    let storage = rows.open();
    rows.commit(storage.set_bridge_channel(100, 200));
    rows.commit(storage.set_bridge_channel(300, 400));
    assert_eq!(rows.bridge_channel(), Some(300));
}

#[test]
fn muted_user_not_muted_by_default() {
    let rows = Rows::default();
    let mut storage = rows.open();
    let result = storage.is_muted(42, NOW).0;
    assert!(result.is_none());
}

#[test]
fn mute_user_permanent() {
    let mut rows = Rows::default();
    let mut storage = rows.open();
    let saved = rows.commit(write_muted_user(42, mute_expiry(0, NOW)));
    storage.set_muted(42, 0, NOW, saved).expect("mute failed");
    let result = storage.is_muted(42, NOW).0;
    assert_eq!(result, Some(0));
}

#[test]
fn mute_user_temporary() {
    let mut rows = Rows::default();
    let mut storage = rows.open();
    let saved = rows.commit(write_muted_user(42, mute_expiry(60, NOW)));
    storage.set_muted(42, 60, NOW, saved).expect("mute failed");
    let result = storage.is_muted(42, NOW).0;
    assert!(result.is_some_and(|ts| ts > 0));
    assert_eq!(storage.is_muted(42, NOW + 59), (Some(NOW + 60), None));
    let over = storage.is_muted(42, NOW + 60);
    assert_eq!(over, (None, Some(vec![RowWrite::RemoveMutedUser { discord_id: 42 }])));
    assert_eq!(storage.is_muted(42, NOW), (None, None));
}

#[test]
fn unmute_user() {
    let mut rows = Rows::default();
    let mut storage = rows.open();
    let saved = rows.commit(write_muted_user(42, mute_expiry(0, NOW)));
    storage.set_muted(42, 0, NOW, saved).expect("mute failed");
    assert!(storage.is_muted(42, NOW).0.is_some());
    let saved = rows.commit(remove_muted_user(42));
    storage.unmute_user(42, saved).expect("unmute failed");
    let result = storage.is_muted(42, NOW).0;
    assert!(result.is_none());
}

#[test]
fn mute_persists_across_storage_opens() {
    let mut rows = Rows::default();
    {
        let mut storage = rows.open();
        let saved = rows.commit(write_muted_user(42, mute_expiry(0, NOW)));
        storage.set_muted(42, 0, NOW, saved).expect("mute failed");
    }
    {
        let mut storage = rows.open();
        let result = storage.is_muted(42, NOW).0;
        assert_eq!(result, Some(0));
    }
}

#[test]
fn profile_toggle_defaults_to_enabled() {
    let rows = Rows::default();
    let storage = rows.open();
    assert!(storage.is_player_profile_enabled());
}

#[test]
fn profile_toggle_set_and_persist() {
    let mut rows = Rows::default();
    {
        let mut storage = rows.open();
        let saved = rows.commit(write_player_profile_setting(false));
        storage.set_player_profile_enabled(false, saved).expect("set failed");
        assert!(!storage.is_player_profile_enabled());
    }
    {
        let storage = rows.open();
        assert!(!storage.is_player_profile_enabled());
    }
}

#[test]
fn writes_that_fail_change_nothing() {
    let rows = Rows::default();
    let mut storage = rows.open();
    let failed = || Outcome::Failed(StorageError::RedbCommit("full".into()));
    assert_eq!(
        storage.set_privacy_enabled(false, failed()),
        Err(StorageError::RedbCommit("full".into()))
    );
    assert!(storage.is_privacy_enabled());
    assert!(storage.set_muted(1, 0, NOW, failed()).is_err());
    assert_eq!(storage.is_muted(1, NOW).0, None);
    assert_eq!(
        storage.set_mute_mention(1, true, Outcome::Panicked("boom".into())),
        Err(StorageError::BlockingPanic("boom".into()))
    );
    assert!(!storage.is_mention_muted(1));
    assert!(storage.set_connection(1, "tess".into(), failed()).is_err());
    assert!(!storage.is_connected_dc(1));
}

#[test]
fn reads_that_fail_tell_why() {
    let why = || StorageError::RedbTable("t".into());
    assert_eq!(Storage::get_bridge_channel(Outcome::Failed(why())), Err(why()));
    assert_eq!(Storage::get_bridge_channel(Outcome::Done(None)), Ok(None));
    assert_eq!(Storage::get_bridge_channel(Outcome::Done(Some((7, 8, "a".into())))), Ok(Some(7)));
    assert_eq!(
        Storage::get_bridge_channel(Outcome::Panicked("p".into())),
        Err(StorageError::BlockingPanic("p".into()))
    );
    assert_eq!(Storage::get_daily_play_time(Outcome::Done(Some(7))), Ok(7));
    assert_eq!(Storage::get_daily_play_time(Outcome::Done(None)), Ok(0));
    assert_eq!(Storage::get_daily_play_time(Outcome::Failed(why())), Err(why()));
    let row = (1, 2, 3, 4, 5, 6, 7, 8, 9);
    let stats = Storage::get_player_stats(Outcome::Done(Some(row))).unwrap().unwrap();
    assert_eq!(stats.to_tuple(), row);
    assert_eq!(stats.total_commands, 9);
    assert_eq!(Storage::get_player_stats(Outcome::Done(None)), Ok(None));
    assert_eq!(Storage::get_player_stats(Outcome::Failed(why())), Err(why()));
    assert_eq!(Storage::get_all_player_stats(Outcome::Failed(why()), &[]), Err(why()));
    assert_eq!(Storage::get_recent_play_time(Outcome::Failed(why()), "u", &[]), Err(why()));
    assert_eq!(Storage::resolve_uuid(Outcome::Failed(why())), Err(why()));
    assert_eq!(Storage::resolve_username(Outcome::Failed(why()), "u"), Err(why()));
    assert_eq!(Storage::resolve_uuid(Outcome::Done(Some("u".into()))), Ok(Some("u".into())));
    let failed = StorageError::RedbCommit("c".into());
    assert_eq!(
        Storage::flush_player_deltas(Outcome::Failed(failed)),
        Err(StorageError::RedbCommit("c".into()))
    );
}

#[test]
fn links_go_both_ways() {
    let mut rows = Rows::default();
    let mut storage = rows.open();
    rows.connect(&mut storage, 1, "tess").unwrap();
    rows.connect(&mut storage, 2, "abel").unwrap();
    rows.connect(&mut storage, 3, "zoe").unwrap();
    assert_eq!(storage.get_dc_from_mc("abel"), Some(2));
    assert_eq!(storage.get_mc_from_dc(3).as_deref(), Some("zoe"));
    assert_eq!(storage.get_dc_from_mc("nobody"), None);
    assert_eq!(rows.connect(&mut storage, 2, "tess"), Err(StorageError::AlreadyClaimed));
    assert_eq!(storage.get_dc_from_mc("tess"), Some(1));
    rows.connect(&mut storage, 1, "tess").unwrap();
    rows.connect(&mut storage, 1, "mona").unwrap();
    assert_eq!(storage.get_dc_from_mc("tess"), None);
    assert_eq!(storage.get_dc_from_mc("mona"), Some(1));
    assert_eq!(rows.mc_to_dc.get("tess"), None);
    rows.connect(&mut storage, 2, "tess").unwrap();
    assert_eq!(storage.get_mc_from_dc(2).as_deref(), Some("tess"));
    let reopened = rows.open();
    for id in 1..4 {
        assert_eq!(reopened.get_mc_from_dc(id), storage.get_mc_from_dc(id));
    }
    for name in ["tess", "abel", "zoe", "mona"] {
        assert_eq!(reopened.get_dc_from_mc(name), storage.get_dc_from_mc(name));
    }
}

#[test]
fn links_are_undone() {
    let mut rows = Rows::default();
    let mut storage = rows.open();
    rows.connect(&mut storage, 1, "tess").unwrap();
    assert_eq!(storage.plan_disconnection(2), None);
    let failed = Outcome::Failed(StorageError::RedbCommit("x".into()));
    assert_eq!(storage.remove_connection(2, failed), Ok(()));
    let saved = rows.commit(storage.plan_disconnection(1).unwrap());
    assert_eq!(storage.remove_connection(1, saved), Ok(()));
    assert!(!storage.is_connected_dc(1));
    assert!(rows.dc_to_mc.is_empty() && rows.mc_to_dc.is_empty());
}

#[test]
fn claims_are_checked_in_the_transaction() {
    assert_eq!(
        write_account_mapping(Some(2), None, 1, "tess"),
        Err(StorageError::AlreadyClaimed)
    );
    assert_eq!(write_account_mapping(Some(1), Some("tess".into()), 1, "tess").unwrap().len(), 3);
    assert_eq!(
        write_account_mapping(None, None, 1, "tess"),
        Ok(vec![
            RowWrite::PutDcToMc { discord_id: 1, mc_username: "tess".into() },
            RowWrite::PutMcToDc { mc_username: "tess".into(), discord_id: 1 },
        ])
    );
}

#[test]
fn preferences_survive_a_restart() {
    let mut rows = Rows::default();
    let mut storage = rows.open();
    let saved = rows.commit(write_optout_entry(OptoutTable::JoinLeave, 1, true));
    storage.set_join_leave_optout(1, true, saved).unwrap();
    let saved = rows.commit(write_optout_entry(OptoutTable::MuteMention, 2, true));
    storage.set_mute_mention(2, true, saved).unwrap();
    let saved = rows.commit(write_privacy_setting(false));
    storage.set_privacy_enabled(false, saved).unwrap();
    let mut again = rows.open();
    assert!(again.is_join_leave_opted_out(1) && !again.is_join_leave_opted_out(2));
    assert!(again.is_mention_muted(2) && !again.is_mention_muted(1));
    assert!(!again.is_privacy_enabled());
    let saved = rows.commit(write_optout_entry(OptoutTable::JoinLeave, 1, false));
    again.set_join_leave_optout(1, false, saved).unwrap();
    assert!(!again.is_join_leave_opted_out(1));
    assert!(!rows.open().is_join_leave_opted_out(1));
}

#[test]
fn rows_that_say_no_do_not_count() {
    let mut rows = Rows::default();
    rows.join_leave.insert(5, false);
    assert!(!rows.open().is_join_leave_opted_out(5));
    assert!(rows.open().is_privacy_enabled());
}

#[test]
fn deltas_grow_a_record() {
    let delta = PlayerDelta {
        messages: 2,
        commands: 3,
        deaths: 4,
        advancements: 5,
        play_time_secs: 60,
        last_login_ts: Some(1000),
        last_logout_ts: None,
        is_new_player: true,
        total_logins_delta: 1,
    };
    let first = apply_player_delta(None, &delta).unwrap();
    assert_eq!(first.to_tuple(), (60, 1000, 1000, 0, 1, 4, 5, 2, 3));
    let again = PlayerDelta { last_login_ts: Some(2000), last_logout_ts: Some(2060), ..delta };
    let second = apply_player_delta(Some(first), &again).unwrap();
    assert_eq!(second.to_tuple(), (120, 1000, 2000, 2060, 2, 8, 10, 4, 6));
    let full = PlayerStats { total_deaths: u64::MAX, ..PlayerStats::default() };
    assert_eq!(apply_player_delta(Some(full), &delta), None);
    assert_eq!(PlayerStats::from_tuple(second.to_tuple()), second);
}

#[test]
fn flush_is_one_transaction() {
    let mut stored = TextMap::new();
    stored.insert(
        "u-1".to_string(),
        PlayerStats { total_messages: 10, first_login_ts: 5, ..PlayerStats::default() },
    );
    let mut days = DayTimes::new();
    days.put("u-1", "2026-01-01", 30);
    let delta = PlayerDelta { messages: 1, ..PlayerDelta::default() };
    let deltas = vec![
        ("u-1".to_string(), delta),
        ("u-2".to_string(), delta),
        ("u-1".to_string(), delta),
    ];
    let splits = vec![
        ("u-1".to_string(), DailyTimeSplit { date: "2026-01-01".into(), secs: 12 }),
        ("u-1".to_string(), DailyTimeSplit { date: "2026-01-02".into(), secs: 5 }),
    ];
    let mut rows = Rows::default();
    rows.players.insert("u-3".to_string(), PlayerStats::default());
    rows.commit(write_player_deltas(stored, days, &deltas, &splits).unwrap());
    assert_eq!(rows.players["u-1"].total_messages, 12);
    assert_eq!(rows.players["u-1"].first_login_ts, 5);
    assert_eq!(rows.players["u-2"].total_messages, 1);
    assert_eq!(rows.players["u-3"], PlayerStats::default());
    assert_eq!(rows.daily[&("u-1".to_string(), "2026-01-01".to_string())], 42);
    assert_eq!(rows.daily[&("u-1".to_string(), "2026-01-02".to_string())], 5);
}

#[test]
fn flush_beyond_the_range_is_none() {
    let mut days = DayTimes::new();
    days.put("u", "d", u64::MAX);
    let splits = vec![("u".to_string(), DailyTimeSplit { date: "d".into(), secs: 1 })];
    assert_eq!(write_player_deltas(TextMap::new(), days, &[], &splits), None);
}

#[test]
fn longest_play_time_comes_first() {
    let stats = |secs: u64| PlayerStats { total_play_time_secs: secs, ..PlayerStats::default() };
    let rows = vec![
        ("a".to_string(), stats(5)),
        ("b".to_string(), stats(9)),
        ("c".to_string(), stats(5)),
        ("d".to_string(), stats(7)),
    ];
    let sorted = read_all_player_stats(rows.clone());
    let names: Vec<&str> = sorted.iter().map(|r| r.0.as_str()).collect();
    assert_eq!(names, ["b", "d", "a", "c"]);
    let known = [("tess".to_string(), "d".to_string()), ("abel".to_string(), "b".to_string())];
    assert_eq!(
        Storage::get_all_player_stats(Outcome::Done(rows), &known).unwrap(),
        [
            ("b".to_string(), Some("abel".to_string()), stats(9)),
            ("d".to_string(), Some("tess".to_string()), stats(7)),
            ("a".to_string(), None, stats(5)),
            ("c".to_string(), None, stats(5)),
        ]
    );
}

#[test]
fn names_are_found_by_uuid() {
    let rows = vec![
        ("abel".to_string(), "u-1".to_string()),
        ("tess".to_string(), "u-2".to_string()),
        ("tess2".to_string(), "u-2".to_string()),
    ];
    assert_eq!(reverse_resolve_uuid(&rows, "u-2"), Some("tess".to_string()));
    assert_eq!(reverse_resolve_uuid(&rows, "u-3"), None);
    assert_eq!(
        Storage::resolve_username(Outcome::Done(rows), "u-1"),
        Ok(Some("abel".to_string()))
    );
}

#[test]
fn recent_days_are_read_in_order() {
    let mut days = DayTimes::new();
    days.put("u", "2026-01-02", 60);
    days.put("v", "2026-01-01", 90);
    let dates = vec!["2026-01-02".to_string(), "2026-01-01".to_string()];
    assert_eq!(days.get("u", "2026-01-01"), None);
    let read = read_recent_play_time(Some(&days), "u", &dates);
    assert_eq!(read, [("2026-01-02".to_string(), 60), ("2026-01-01".to_string(), 0)]);
    assert!(read_recent_play_time(None, "u", &dates).is_empty());
    let read = Storage::get_recent_play_time(Outcome::Done(Some(days)), "u", &dates).unwrap();
    assert_eq!(read.len(), 2);
}

#[test]
fn storage_errors_say_what_they_are() {
    let m = |e: StorageError| e.message();
    assert_eq!(m(StorageError::RedbDatabase("x".into())), "redb database error: x");
    assert_eq!(m(StorageError::RedbTransaction("x".into())), "redb transaction error: x");
    assert_eq!(m(StorageError::RedbTable("x".into())), "redb table error: x");
    assert_eq!(m(StorageError::RedbStorage("x".into())), "redb storage error: x");
    assert_eq!(m(StorageError::RedbCommit("x".into())), "redb commit error: x");
    assert_eq!(m(StorageError::RedbDurability("x".into())), "redb durability error: x");
    assert_eq!(
        m(StorageError::Io { path: "/p".into(), source: "denied".into() }),
        "I/O error at `/p`: denied"
    );
    assert_eq!(m(StorageError::BlockingPanic("x".into())), "storage worker panicked: x");
    assert_eq!(
        m(StorageError::AlreadyClaimed),
        "minecraft username already claimed by another discord user"
    );
}

#[test]
fn maps_of_text_keep_their_order() {
    let mut map = TextMap::new();
    map.insert("b".to_string(), 1);
    map.insert("a".to_string(), 2);
    map.insert("b".to_string(), 3);
    assert_eq!(map.len(), 2);
    assert_eq!(map.key_at(0), "b");
    assert_eq!(*map.value_at(0), 3);
    assert_eq!(map.remove("b"), Some(3));
    assert_eq!(map.remove("b"), None);
    assert!(map.contains_key("a") && !map.is_empty());
    assert_eq!(map.get("a"), Some(&2));
}

#[test]
fn stored_uuid_is_resolved() {
    let mut rows = Rows::default();
    rows.commit(Storage::store_uuid_mapping("steve", "u-1"));
    rows.commit(Storage::store_uuid_mapping("steve", "u-2"));
    rows.commit(Storage::store_uuid_mapping("alex", "u-3"));
    let read = |name: &str| Outcome::Done(rows.username_uuid.get(name).cloned());
    assert_eq!(Storage::resolve_uuid(read("steve")), Ok(Some("u-2".to_string())));
    assert_eq!(Storage::resolve_uuid(read("alex")), Ok(Some("u-3".to_string())));
    assert_eq!(Storage::resolve_uuid(read("tess")), Ok(None));
}
