//! What holds of what the bridge remembers.

use crate::storage;
use crate::storage::accounts;
use crate::storage::records;
use crate::storage::records::{DailyTimeSplit, DayTimes, PlayerDelta, PlayerStats, PlayerStatsTuple};
use crate::storage::tables;
use crate::storage::tables::{RowWrite, Tables};
use crate::storage::{Memory, OptoutTable, Outcome, Storage, StorageError};
use crate::text;
use crate::text_map::TextMap;
use vstd::prelude::*;
use vstd::string::*;

verus! {

/// Only the links differ.
pub open spec fn only_links_changed(before: Memory, after: Memory) -> bool {
    after == (Memory { accounts: after.accounts, ..before })
}

/// Linking a user with a name that no other user has: both are found by the other, the name that the
/// user had is free, and no other user and no other name is touched. A name that another user has is
/// refused, and where it is refused or the database failed nothing changes.
pub proof fn law_connecting_links(
    storage: &mut Storage,
    discord_id: u64,
    mc_username: String,
    saved: Outcome<()>,
    r: Result<(), StorageError>,
    other: u64,
    name: Seq<char>,
)
    requires
        call_ensures(Storage::set_connection, (storage, discord_id, mc_username, saved), r),
        old(storage).wf(),
        accounts::one_to_one(old(storage)@.accounts),
    ensures
        ({
            let before = old(storage)@;
            let after = final(storage)@;
            let mc = mc_username@;
            let holder = accounts::dc_of(before.accounts, mc);
            let free = holder is None || holder == Some(discord_id);
            &&& r is Ok <==> free && saved is Done
            &&& !free ==> r == Err::<(), StorageError>(StorageError::AlreadyClaimed)
            &&& r is Err ==> after == before
            &&& r is Ok ==> {
                &&& only_links_changed(before, after)
                &&& accounts::mc_of(after.accounts, discord_id) == Some(mc)
                &&& accounts::dc_of(after.accounts, mc) == Some(discord_id)
                &&& other != discord_id ==> accounts::mc_of(after.accounts, other)
                    == accounts::mc_of(before.accounts, other)
                &&& name != mc ==> accounts::dc_of(after.accounts, name) == if accounts::mc_of(
                    before.accounts,
                    discord_id,
                ) == Some(name) {
                    None
                } else {
                    accounts::dc_of(before.accounts, name)
                }
            }
        }),
{
    let a = old(storage)@.accounts;
    let mc = mc_username@;
    old(storage).law_accounts_are_sorted();
    accounts::lemma_without_id(a, discord_id, mc, discord_id);
    accounts::lemma_without_id(a, discord_id, name, other);
    let b = accounts::without_id(a, discord_id);
    accounts::lemma_dc_of_holds(a, mc);
    if accounts::dc_of(a, mc) == Some(discord_id) {
        accounts::lemma_entry_found(a, mc, discord_id);
    }
    if accounts::dc_of(b, mc) is None {
        accounts::lemma_with_account(b, mc, discord_id, name, other);
        accounts::lemma_with_account(b, mc, discord_id, mc, discord_id);
    }
}

/// Undoing a link: the user has no name and the name no user, and no other link is touched.
pub proof fn law_disconnecting_unlinks(
    storage: &mut Storage,
    discord_id: u64,
    saved: Outcome<()>,
    r: Result<(), StorageError>,
    other: u64,
    name: Seq<char>,
)
    requires
        call_ensures(Storage::remove_connection, (storage, discord_id, saved), r),
        old(storage).wf(),
        accounts::one_to_one(old(storage)@.accounts),
    ensures
        ({
            let before = old(storage)@;
            let after = final(storage)@;
            let mc = accounts::mc_of(before.accounts, discord_id);
            &&& r is Ok <==> mc is None || saved is Done
            &&& mc is None || r is Err ==> after == before
            &&& mc is Some && r is Ok ==> {
                &&& only_links_changed(before, after)
                &&& accounts::mc_of(after.accounts, discord_id) is None
                &&& accounts::dc_of(after.accounts, mc->0) is None
                &&& other != discord_id ==> accounts::mc_of(after.accounts, other)
                    == accounts::mc_of(before.accounts, other)
                &&& name != mc->0 ==> accounts::dc_of(after.accounts, name) == accounts::dc_of(
                    before.accounts,
                    name,
                )
            }
        }),
{
    let a = old(storage)@.accounts;
    if let Some(mc) = accounts::mc_of(a, discord_id) {
        old(storage).law_accounts_are_sorted();
        accounts::lemma_same_entry(a, mc, discord_id);
        accounts::lemma_without_id(a, discord_id, mc, discord_id);
        accounts::lemma_without_id(a, discord_id, name, other);
    }
}

/// A user is asked for by the name and a name by the user: what is found is what is linked.
pub proof fn law_links_are_found(
    storage: &Storage,
    discord_id: u64,
    mc_username: &str,
    user: Option<u64>,
    name: Option<String>,
    linked: bool,
)
    requires
        call_ensures(Storage::get_dc_from_mc, (storage, mc_username), user),
        call_ensures(Storage::get_mc_from_dc, (storage, discord_id), name),
        call_ensures(Storage::is_connected_dc, (storage, discord_id), linked),
        accounts::one_to_one(storage@.accounts),
    ensures
        linked <==> name is Some,
        user == Some(discord_id) <==> text::text_view(name) == Some(mc_username@),
        user is Some <==> exists|i: int|
            0 <= i < storage@.accounts.len() && (#[trigger] storage@.accounts[i]).0 == mc_username@,
{
    let a = storage@.accounts;
    accounts::lemma_dc_of_holds(a, mc_username@);
    accounts::lemma_mc_of_holds(a, discord_id);
    if user == Some(discord_id) {
        accounts::lemma_entry_found(a, mc_username@, discord_id);
    }
    if text::text_view(name) == Some(mc_username@) {
        accounts::lemma_entry_found(a, mc_username@, discord_id);
    }
    if let Some(id) = user {
        let i = a.index_of((mc_username@, id));
        assert(a[i].0 == mc_username@);
    }
    if exists|i: int| 0 <= i < a.len() && (#[trigger] a[i]).0 == mc_username@ {
        let i = choose|i: int| 0 <= i < a.len() && (#[trigger] a[i]).0 == mc_username@;
        assert(a[i] == (mc_username@, a[i].1));
        assert(a.contains((mc_username@, a[i].1)));
        accounts::lemma_entry_found(a, mc_username@, a[i].1);
    }
}

/// A user who asks not to take part does not from then on, and does again once the user asks for it;
/// the same holds of being mentioned. What holds of others, and everything else, stays; where the
/// database failed nothing changes.
pub proof fn law_users_are_put_on_lists(
    storage: &mut Storage,
    id: u64,
    value: bool,
    saved: Outcome<()>,
    r: Result<(), StorageError>,
    mentions: bool,
    other: u64,
)
    requires
        mentions ==> call_ensures(Storage::set_mute_mention, (storage, id, value, saved), r),
        !mentions ==> call_ensures(Storage::set_join_leave_optout, (storage, id, value, saved), r),
    ensures
        ({
            let before = old(storage)@;
            let after = final(storage)@;
            &&& r is Ok <==> saved is Done
            &&& r is Err ==> after == before
            &&& r is Ok && mentions ==> {
                &&& after.mute_mention.contains(id) == value
                &&& other != id ==> after.mute_mention.contains(other)
                    == before.mute_mention.contains(other)
                &&& after == (Memory { mute_mention: after.mute_mention, ..before })
            }
            &&& r is Ok && !mentions ==> {
                &&& after.join_leave_optout.contains(id) == value
                &&& other != id ==> after.join_leave_optout.contains(other)
                    == before.join_leave_optout.contains(other)
                &&& after == (Memory { join_leave_optout: after.join_leave_optout, ..before })
            }
        }),
{
}

/// A mute lasts from when it is set until its time is over: a user who was muted for some seconds is
/// muted before they have passed and not after, one who was muted without end always is, and one who
/// was unmuted is not.
pub proof fn law_mutes_last(
    muting: &mut Storage,
    asking: &mut Storage,
    id: u64,
    secs: u64,
    now: u64,
    later: u64,
    saved: Outcome<()>,
    r: Result<(), StorageError>,
    found: (Option<u64>, Option<Vec<RowWrite>>),
)
    requires
        call_ensures(Storage::set_muted, (muting, id, secs, now, saved), r),
        call_ensures(Storage::is_muted, (asking, id, later), found),
        r is Ok,
        old(asking)@ == final(muting)@,
        now + secs <= u64::MAX,
    ensures
        secs == 0 ==> found.0 == Some(0u64),
        secs > 0 && later < now + secs ==> found.0 == Some((now + secs) as u64),
        secs > 0 && later >= now + secs ==> found.0 is None && !final(asking)@.muted_users.contains_key(
            id,
        ),
        found.0 is Some ==> final(asking)@ == old(asking)@,
{
}

/// One who was unmuted is not muted, and whoever else is muted stays so.
pub proof fn law_unmuted_users_are_not_muted(
    storage: &mut Storage,
    asking: &mut Storage,
    id: u64,
    saved: Outcome<()>,
    r: Result<(), StorageError>,
    later: u64,
    found: (Option<u64>, Option<Vec<RowWrite>>),
    other: u64,
)
    requires
        call_ensures(Storage::unmute_user, (storage, id, saved), r),
        call_ensures(Storage::is_muted, (asking, id, later), found),
        r is Ok,
        old(asking)@ == final(storage)@,
        other != id,
    ensures
        found.0 is None,
        final(storage)@.muted_users.contains_key(other) == old(storage)@.muted_users.contains_key(
            other,
        ),
        final(storage)@.muted_users[other] == old(storage)@.muted_users[other],
{
}

/// A setting is on unless it was turned off, and is what it was last turned to.
pub proof fn law_settings_are_on_until_turned_off(
    row: Option<bool>,
    privacy: bool,
    profiles: bool,
    storage: &mut Storage,
    enabled: bool,
    saved: Outcome<()>,
    r: Result<(), StorageError>,
)
    requires
        call_ensures(storage::load_privacy_enabled, (row,), privacy),
        call_ensures(storage::load_player_profile_enabled, (row,), profiles),
        call_ensures(Storage::set_privacy_enabled, (storage, enabled, saved), r),
    ensures
        row is None ==> privacy && profiles,
        row matches Some(on) ==> privacy == on && profiles == on,
        saved is Done ==> final(storage)@.privacy_enabled == enabled,
        !(saved is Done) ==> r is Err && final(storage)@ == old(storage)@,
        final(storage)@ == (Memory {
            privacy_enabled: final(storage)@.privacy_enabled,
            ..old(storage)@
        }),
{
}

/// What a row is set to is what it holds, what is removed is gone, and no other row changes.
pub proof fn law_rows_hold_what_is_written(t: Tables, w: RowWrite)
    ensures
        ({
            let after = tables::written_all(t, seq![w]);
            match w {
                RowWrite::PutBridge { channel_id, guild_id, mc_server_address } => {
                    &&& after.bridge == Some((channel_id, guild_id, mc_server_address@))
                    &&& after == (Tables { bridge: after.bridge, ..t })
                },
                RowWrite::RemoveBridge => after == (Tables { bridge: None, ..t }),
                RowWrite::PutUuid { username, uuid } => after == (Tables {
                    username_uuid: t.username_uuid.insert(username@, uuid@),
                    ..t
                }),
                RowWrite::PutPlayer { uuid, stats } => after == (Tables {
                    players: t.players.insert(uuid@, stats),
                    ..t
                }),
                RowWrite::PutDailyPlayTime { uuid, date, secs } => after == (Tables {
                    daily_play_time: t.daily_play_time.insert((uuid@, date@), secs),
                    ..t
                }),
                RowWrite::PutDcToMc { discord_id, mc_username } => after == (Tables {
                    dc_to_mc: t.dc_to_mc.insert(discord_id, mc_username@),
                    ..t
                }),
                RowWrite::RemoveDcToMc { discord_id } => after == (Tables {
                    dc_to_mc: t.dc_to_mc.remove(discord_id),
                    ..t
                }),
                RowWrite::PutMcToDc { mc_username, discord_id } => after == (Tables {
                    mc_to_dc: t.mc_to_dc.insert(mc_username@, discord_id),
                    ..t
                }),
                RowWrite::RemoveMcToDc { mc_username } => after == (Tables {
                    mc_to_dc: t.mc_to_dc.remove(mc_username@),
                    ..t
                }),
                RowWrite::PutJoinLeaveOptout { discord_id } => after == (Tables {
                    join_leave_optout: t.join_leave_optout.insert(discord_id, true),
                    ..t
                }),
                RowWrite::RemoveJoinLeaveOptout { discord_id } => after == (Tables {
                    join_leave_optout: t.join_leave_optout.remove(discord_id),
                    ..t
                }),
                RowWrite::PutMuteMention { discord_id } => after == (Tables {
                    mute_mention: t.mute_mention.insert(discord_id, true),
                    ..t
                }),
                RowWrite::RemoveMuteMention { discord_id } => after == (Tables {
                    mute_mention: t.mute_mention.remove(discord_id),
                    ..t
                }),
                RowWrite::PutMutedUser { discord_id, expiry_ts } => after == (Tables {
                    muted_users: t.muted_users.insert(discord_id, expiry_ts),
                    ..t
                }),
                RowWrite::RemoveMutedUser { discord_id } => after == (Tables {
                    muted_users: t.muted_users.remove(discord_id),
                    ..t
                }),
                RowWrite::PutPrivacyEnabled { enabled } => after == (Tables {
                    privacy_enabled: Some(enabled),
                    ..t
                }),
                RowWrite::PutPlayerProfileEnabled { enabled } => after == (Tables {
                    player_profile_enabled: Some(enabled),
                    ..t
                }),
            }
        }),
{
    assert(seq![w].drop_last() =~= Seq::<RowWrite>::empty());
    assert(tables::written_all(t, seq![w].drop_last()) == t);
}

/// The transaction that links a user with a name makes each the other's and frees the earlier name of
/// the user; it is refused exactly where the name is another user's. All other rows stay.
pub proof fn law_linking_is_written(
    existing: Option<u64>,
    old_mc: Option<String>,
    discord_id: u64,
    mc_username: &str,
    r: Result<Vec<RowWrite>, StorageError>,
    t: Tables,
)
    requires
        call_ensures(
            storage::write_account_mapping,
            (existing, old_mc, discord_id, mc_username),
            r,
        ),
    ensures
        r is Ok <==> existing is None || existing == Some(discord_id),
        r is Err ==> r == Err::<Vec<RowWrite>, StorageError>(StorageError::AlreadyClaimed),
        r matches Ok(ws) ==> ({
            let after = tables::written_all(t, ws@);
            &&& after.dc_to_mc == t.dc_to_mc.insert(discord_id, mc_username@)
            &&& after.mc_to_dc.contains_key(mc_username@) && after.mc_to_dc[mc_username@]
                == discord_id
            &&& forall|name: Seq<char>|
                name != mc_username@ && text::text_view(old_mc) != Some(name)
                    ==> #[trigger] after.mc_to_dc.contains_key(name) == t.mc_to_dc.contains_key(name)
                    && after.mc_to_dc[name] == t.mc_to_dc[name]
            &&& old_mc matches Some(freed) ==> freed@ != mc_username@
                ==> !after.mc_to_dc.contains_key(freed@)
            &&& after == (Tables { dc_to_mc: after.dc_to_mc, mc_to_dc: after.mc_to_dc, ..t })
        }),
{
}

/// The transactions that undo a link, put a user on a list, turn a setting, and mute and unmute
/// change the rows that they are about, and no others.
pub proof fn law_changes_are_written(
    id: u64,
    mc: &str,
    value: bool,
    expiry: u64,
    unlinked: Vec<RowWrite>,
    left: Vec<RowWrite>,
    muted: Vec<RowWrite>,
    privacy: Vec<RowWrite>,
    profiles: Vec<RowWrite>,
    mute: Vec<RowWrite>,
    unmute: Vec<RowWrite>,
    t: Tables,
)
    requires
        call_ensures(storage::remove_account_mapping, (id, mc), unlinked),
        call_ensures(storage::write_optout_entry, (OptoutTable::JoinLeave, id, value), left),
        call_ensures(storage::write_optout_entry, (OptoutTable::MuteMention, id, value), muted),
        call_ensures(storage::write_privacy_setting, (value,), privacy),
        call_ensures(storage::write_player_profile_setting, (value,), profiles),
        call_ensures(storage::write_muted_user, (id, expiry), mute),
        call_ensures(storage::remove_muted_user, (id,), unmute),
    ensures
        tables::written_all(t, unlinked@) == (Tables {
            dc_to_mc: t.dc_to_mc.remove(id),
            mc_to_dc: t.mc_to_dc.remove(mc@),
            ..t
        }),
        tables::written_all(t, left@) == (Tables {
            join_leave_optout: if value {
                t.join_leave_optout.insert(id, true)
            } else {
                t.join_leave_optout.remove(id)
            },
            ..t
        }),
        tables::written_all(t, muted@) == (Tables {
            mute_mention: if value {
                t.mute_mention.insert(id, true)
            } else {
                t.mute_mention.remove(id)
            },
            ..t
        }),
        tables::written_all(t, privacy@) == (Tables { privacy_enabled: Some(value), ..t }),
        tables::written_all(t, profiles@) == (Tables { player_profile_enabled: Some(value), ..t }),
        tables::written_all(t, mute@) == (Tables {
            muted_users: t.muted_users.insert(id, expiry),
            ..t
        }),
        tables::written_all(t, unmute@) == (Tables { muted_users: t.muted_users.remove(id), ..t }),
{
}

/// A record that is written and read again is the same, and its columns are the play time, the first
/// login, the last login, the last logout, and the numbers of logins, deaths, advancements, messages
/// and commands, in this order.
pub proof fn law_records_read_back(s: PlayerStats, v: PlayerStatsTuple, back: PlayerStats)
    requires
        call_ensures(PlayerStats::to_tuple, (&s,), v),
        call_ensures(PlayerStats::from_tuple, (v,), back),
    ensures
        back == s,
        v == (
            s.total_play_time_secs,
            s.first_login_ts,
            s.last_login_ts,
            s.last_logout_ts,
            s.total_logins,
            s.total_deaths,
            s.total_advancements,
            s.total_messages,
            s.total_commands,
        ),
{
}

/// A delta adds to every number of a record what happened, sets the last login and the last logout
/// where there was one, and the first login where none was known; it is refused exactly where a
/// number would exceed its range. A player of whom nothing is recorded begins with nothing.
pub proof fn law_deltas_are_added(
    existing: Option<PlayerStats>,
    d: &PlayerDelta,
    r: Option<PlayerStats>,
)
    requires
        call_ensures(records::apply_player_delta, (existing, d), r),
    ensures
        ({
            let s = match existing {
                Some(s) => s,
                None => PlayerStats {
                    total_play_time_secs: 0,
                    first_login_ts: 0,
                    last_login_ts: 0,
                    last_logout_ts: 0,
                    total_logins: 0,
                    total_deaths: 0,
                    total_advancements: 0,
                    total_messages: 0,
                    total_commands: 0,
                },
            };
            &&& r is Some <==> s.total_play_time_secs + d.play_time_secs <= u64::MAX
                && s.total_logins + d.total_logins_delta <= u64::MAX && s.total_deaths + d.deaths
                <= u64::MAX && s.total_advancements + d.advancements <= u64::MAX
                && s.total_messages + d.messages <= u64::MAX && s.total_commands + d.commands
                <= u64::MAX
            &&& r matches Some(after) ==> {
                &&& after.total_play_time_secs == s.total_play_time_secs + d.play_time_secs
                &&& after.total_logins == s.total_logins + d.total_logins_delta
                &&& after.total_deaths == s.total_deaths + d.deaths
                &&& after.total_advancements == s.total_advancements + d.advancements
                &&& after.total_messages == s.total_messages + d.messages
                &&& after.total_commands == s.total_commands + d.commands
                &&& d.last_login_ts matches Some(ts) ==> after.last_login_ts == ts
                &&& d.last_login_ts is None ==> after.last_login_ts == s.last_login_ts
                &&& d.last_logout_ts matches Some(ts) ==> after.last_logout_ts == ts
                &&& d.last_logout_ts is None ==> after.last_logout_ts == s.last_logout_ts
                &&& s.first_login_ts != 0 ==> after.first_login_ts == s.first_login_ts
                &&& s.first_login_ts == 0 ==> (d.last_login_ts matches Some(ts)
                    ==> after.first_login_ts == ts)
                &&& s.first_login_ts == 0 && d.last_login_ts is None ==> after.first_login_ts == 0
            }
        }),
{
}

/// A flush that is carried out has counted everything that happened to a player, once, on top of what
/// was recorded, and every second of a player's day; players and days that it is not about stay as
/// they are.
pub proof fn law_flushes_count_everything(
    stored: TextMap<PlayerStats>,
    stored_days: DayTimes,
    deltas: &[(String, PlayerDelta)],
    days: &[(String, DailyTimeSplit)],
    r: Option<Vec<RowWrite>>,
    ws: Vec<RowWrite>,
    t: Tables,
    uuid: Seq<char>,
    date: Seq<char>,
)
    requires
        call_ensures(records::write_player_deltas, (stored, stored_days, deltas, days), r),
        r == Some(ws),
        t.players == stored@,
        t.daily_play_time == stored_days@,
    ensures
        ({
            let after = tables::written_all(t, ws@);
            let was = records::record_of(t.players, uuid);
            let then = records::record_of(after.players, uuid);
            &&& then.total_play_time_secs == was.total_play_time_secs + records::added(
                deltas@,
                uuid,
                |d: PlayerDelta| d.play_time_secs as nat,
            )
            &&& then.total_logins == was.total_logins + records::added(
                deltas@,
                uuid,
                |d: PlayerDelta| d.total_logins_delta as nat,
            )
            &&& then.total_deaths == was.total_deaths + records::added(
                deltas@,
                uuid,
                |d: PlayerDelta| d.deaths as nat,
            )
            &&& then.total_advancements == was.total_advancements + records::added(
                deltas@,
                uuid,
                |d: PlayerDelta| d.advancements as nat,
            )
            &&& then.total_messages == was.total_messages + records::added(
                deltas@,
                uuid,
                |d: PlayerDelta| d.messages as nat,
            )
            &&& then.total_commands == was.total_commands + records::added(
                deltas@,
                uuid,
                |d: PlayerDelta| d.commands as nat,
            )
            &&& records::secs_on(after.daily_play_time, uuid, date) == records::secs_on(
                t.daily_play_time,
                uuid,
                date,
            ) + records::added_on(days@, uuid, date)
            &&& after == (Tables {
                players: after.players,
                daily_play_time: after.daily_play_time,
                ..t
            })
        }),
{
    assert(records::same_rows(t.players, stored@, records::player_changes(deltas@)));
    assert(records::same_rows(t.daily_play_time, stored_days@, records::day_changes(days@)));
    let after = tables::written_all(t, (r->0)@);
    assert(after.players == records::players_after(t.players, deltas@)->0);
    assert(after == tables::written_all(t, ws@));
    records::law_flush_counts_everything(t.players, deltas@, uuid);
    records::law_flush_counts_days(t.daily_play_time, days@, uuid, date);
}

/// The sum of what deltas hold of a player: nothing for no deltas, and one delta more adds its part
/// exactly where it is the player's.
pub proof fn law_sums_go_one_by_one(
    deltas: Seq<(String, PlayerDelta)>,
    last: (String, PlayerDelta),
    days: Seq<(String, DailyTimeSplit)>,
    day: (String, DailyTimeSplit),
    uuid: Seq<char>,
    date: Seq<char>,
    part: spec_fn(PlayerDelta) -> nat,
)
    ensures
        records::added(Seq::empty(), uuid, part) == 0,
        last.0@ == uuid ==> records::added(deltas.push(last), uuid, part) == records::added(
            deltas,
            uuid,
            part,
        ) + part(last.1),
        last.0@ != uuid ==> records::added(deltas.push(last), uuid, part) == records::added(
            deltas,
            uuid,
            part,
        ),
        records::added_on(Seq::empty(), uuid, date) == 0,
        day.0@ == uuid && day.1.date@ == date ==> records::added_on(days.push(day), uuid, date)
            == records::added_on(days, uuid, date) + day.1.secs,
        day.0@ != uuid || day.1.date@ != date ==> records::added_on(days.push(day), uuid, date)
            == records::added_on(days, uuid, date),
{
    assert(deltas.push(last).drop_last() =~= deltas);
    assert(days.push(day).drop_last() =~= days);
}

/// What was read of a player is told, what there is no row for is nothing, and an error is handed on.
pub proof fn law_reads_are_told(
    row: Outcome<Option<u64>>,
    secs: Result<u64, StorageError>,
    bridge: Outcome<Option<(u64, u64, String)>>,
    channel: Result<Option<u64>, StorageError>,
    uuid: Outcome<Option<String>>,
    found: Result<Option<String>, StorageError>,
)
    requires
        call_ensures(Storage::get_daily_play_time, (row,), secs),
        call_ensures(Storage::get_bridge_channel, (bridge,), channel),
        call_ensures(Storage::resolve_uuid, (uuid,), found),
    ensures
        row matches Outcome::Done(Some(n)) ==> secs == Ok::<u64, StorageError>(n),
        row matches Outcome::Done(None) ==> secs == Ok::<u64, StorageError>(0),
        secs is Ok == row is Done,
        bridge matches Outcome::Done(Some(b)) ==> channel == Ok::<Option<u64>, StorageError>(
            Some(b.0),
        ),
        bridge matches Outcome::Done(None) ==> channel == Ok::<Option<u64>, StorageError>(None),
        channel is Ok == bridge is Done,
        uuid matches Outcome::Done(u) ==> found == Ok::<Option<String>, StorageError>(u),
        found is Ok == uuid is Done,
{
}

/// The days that are asked for are told in order, each with what was played on it, and nothing where
/// there was nothing.
pub proof fn law_days_are_told_in_order(
    table: &DayTimes,
    uuid: &str,
    dates: &[String],
    r: Vec<(String, u64)>,
    i: int,
)
    requires
        call_ensures(records::read_recent_play_time, (Some(table), uuid, dates), r),
        0 <= i < dates@.len(),
    ensures
        r@.len() == dates@.len(),
        r@[i].0@ == dates@[i]@,
        table@.contains_key((uuid@, dates@[i]@)) ==> r@[i].1 == table@[(uuid@, dates@[i]@)],
        !table@.contains_key((uuid@, dates@[i]@)) ==> r@[i].1 == 0,
{
}

/// The players come by their play time, the longest first; each comes once, and with the name that
/// was recorded first for the UUID, or none.
pub proof fn law_all_players_are_listed(
    rows: Vec<(String, PlayerStats)>,
    names: &[(String, String)],
    v: Vec<(String, Option<String>, PlayerStats)>,
)
    requires
        call_ensures(
            Storage::get_all_player_stats,
            (Outcome::Done(rows), names),
            Ok::<Vec<(String, Option<String>, PlayerStats)>, StorageError>(v),
        ),
    ensures
        v@.len() == rows@.len(),
        exists|from: Seq<int>|
            #![trigger from.no_duplicates()]
            from.no_duplicates() && from.len() == v@.len() && forall|i: int|
                0 <= i < from.len() ==> 0 <= #[trigger] from[i] < rows@.len() && v@[i].0@
                    == rows@[from[i]].0@ && v@[i].2 == rows@[from[i]].1,
        forall|i: int, j: int|
            0 <= i < j < v@.len() ==> (#[trigger] v@[i]).2.total_play_time_secs >= (
            #[trigger] v@[j]).2.total_play_time_secs,
        forall|i: int, k: int|
            0 <= i < v@.len() && 0 <= k < names@.len() && (#[trigger] names@[k]).1@ == (
            #[trigger] v@[i]).0@ && (forall|j: int|
                0 <= j < k ==> (#[trigger] names@[j]).1@ != v@[i].0@) ==> text::text_view(v@[i].1)
                == Some(names@[k].0@),
        forall|i: int|
            0 <= i < v@.len() && (forall|k: int|
                0 <= k < names@.len() ==> (#[trigger] names@[k]).1@ != v@[i].0@) ==> (
            #[trigger] v@[i]).1 is None,
{
    let sorted = choose|sorted: Seq<(String, PlayerStats)>|
        #![trigger records::named_from(sorted, names@, v@)]
        crate::order::sorted_from::<(String, PlayerStats), records::LongestFirst>(rows@, sorted)
            && records::named_from(sorted, names@, v@);
    let p = choose|p: Seq<int>|
        crate::order::arranged::<(String, PlayerStats), records::LongestFirst>(rows@, sorted, p);
    assert(p.no_duplicates());
    assert forall|i: int| 0 <= i < p.len() implies 0 <= #[trigger] p[i] < rows@.len() && v@[i].0@
        == rows@[p[i]].0@ && v@[i].2 == rows@[p[i]].1 by {
        assert(sorted[i] == rows@[p[i]]);
        assert(v@[i].0@ == sorted[i].0@);
    }
    assert forall|i: int, j: int| 0 <= i < j < v@.len() implies (
    #[trigger] v@[i]).2.total_play_time_secs >= (#[trigger] v@[j]).2.total_play_time_secs by {
        assert(v@[i].2 == sorted[i].1 && v@[j].2 == sorted[j].1);
    }
    assert forall|i: int, k: int|
        0 <= i < v@.len() && 0 <= k < names@.len() && (#[trigger] names@[k]).1@ == (
        #[trigger] v@[i]).0@ && (forall|j: int|
            0 <= j < k ==> (#[trigger] names@[j]).1@ != v@[i].0@) implies text::text_view(v@[i].1)
        == Some(names@[k].0@) by {
        assert(records::is_name_of(names@, v@[i].0@, v@[i].1));
        if let Some(name) = v@[i].1 {
            let f = choose|f: int|
                #![trigger records::first_row_with(names@, v@[i].0@, f)]
                records::first_row_with(names@, v@[i].0@, f) && names@[f].0@ == name@;
            assert(f == k) by {
                if f < k {
                    assert(names@[f].1@ != v@[i].0@);
                }
                if k < f {
                    assert(names@[k].1@ != v@[i].0@);
                }
            }
        }
    }
    assert forall|i: int|
        0 <= i < v@.len() && (forall|k: int|
            0 <= k < names@.len() ==> (#[trigger] names@[k]).1@ != v@[i].0@) implies (
    #[trigger] v@[i]).1 is None by {
        assert(records::is_name_of(names@, v@[i].0@, v@[i].1));
    }
}

/// What went wrong with the database is said after what it was.
pub proof fn law_errors_say_what_they_are(e: &StorageError, r: String)
    requires
        call_ensures(StorageError::message, (e,), r),
    ensures
        match *e {
            StorageError::RedbDatabase(m) => r@ == "redb database error: "@ + m@,
            StorageError::RedbTransaction(m) => r@ == "redb transaction error: "@ + m@,
            StorageError::RedbTable(m) => r@ == "redb table error: "@ + m@,
            StorageError::RedbStorage(m) => r@ == "redb storage error: "@ + m@,
            StorageError::RedbCommit(m) => r@ == "redb commit error: "@ + m@,
            StorageError::RedbDurability(m) => r@ == "redb durability error: "@ + m@,
            StorageError::Io { path, source } => r@ == "I/O error at `"@ + path@ + "`: "@ + source@,
            StorageError::BlockingPanic(m) => r@ == "storage worker panicked: "@ + m@,
            StorageError::AlreadyClaimed => r@
                == "minecraft username already claimed by another discord user"@,
        },
{
}

} // verus!
