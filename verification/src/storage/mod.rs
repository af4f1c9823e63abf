//! What the bridge remembers between restarts.
//!
//! The database is written in transactions of single-row changes. What is read often is kept in
//! memory as well; it changes once the transaction has been carried out.

pub mod accounts;
pub mod laws;
pub mod records;
pub mod tables;

use crate::storage::accounts::Accounts;
use crate::storage::records::{
    read_all_player_stats, read_recent_play_time, reverse_resolve_uuid, with_names, DayTimes,
    PlayerStats,
    PlayerStatsTuple,
};
use crate::storage::tables::{one, RowWrite, Tables};
use crate::text;
use std::collections::{HashMap, HashSet};
use vstd::prelude::*;
use vstd::string::*;

verus! {

broadcast use vstd::std_specs::hash::group_hash_axioms;

/// Why the database did not do what was asked of it.
#[derive(Debug, PartialEq)]
pub enum StorageError {
    RedbDatabase(String),
    RedbTransaction(String),
    RedbTable(String),
    RedbStorage(String),
    RedbCommit(String),
    RedbDurability(String),
    Io { path: String, source: String },
    BlockingPanic(String),
    AlreadyClaimed,
}

impl StorageError {
    /// What is said of the error.
    pub open spec fn text(self) -> Seq<char> {
        match self {
            StorageError::RedbDatabase(m) => "redb database error: "@ + m@,
            StorageError::RedbTransaction(m) => "redb transaction error: "@ + m@,
            StorageError::RedbTable(m) => "redb table error: "@ + m@,
            StorageError::RedbStorage(m) => "redb storage error: "@ + m@,
            StorageError::RedbCommit(m) => "redb commit error: "@ + m@,
            StorageError::RedbDurability(m) => "redb durability error: "@ + m@,
            StorageError::Io { path, source } => "I/O error at `"@ + path@ + "`: "@ + source@,
            StorageError::BlockingPanic(m) => "storage worker panicked: "@ + m@,
            StorageError::AlreadyClaimed => {
                "minecraft username already claimed by another discord user"@
            },
        }
    }

    /// Says what the error is.
    pub fn message(&self) -> (r: String)
        ensures
            r@ == self.text(),
    {
        match self {
            StorageError::RedbDatabase(m) => labelled("redb database error: ", m),
            StorageError::RedbTransaction(m) => labelled("redb transaction error: ", m),
            StorageError::RedbTable(m) => labelled("redb table error: ", m),
            StorageError::RedbStorage(m) => labelled("redb storage error: ", m),
            StorageError::RedbCommit(m) => labelled("redb commit error: ", m),
            StorageError::RedbDurability(m) => labelled("redb durability error: ", m),
            StorageError::Io { path, source } => {
                let mut s = labelled("I/O error at `", path);
                s.append("`: ");
                s.append(source.as_str());
                s
            },
            StorageError::BlockingPanic(m) => labelled("storage worker panicked: ", m),
            StorageError::AlreadyClaimed => {
                "minecraft username already claimed by another discord user".to_owned()
            },
        }
    }
}

/// A text behind a label.
fn labelled(label: &str, m: &String) -> (r: String)
    ensures
        r@ == label@ + m@,
{
    let mut s = label.to_owned();
    s.append(m.as_str());
    s
}

/// What became of a request to the database.
pub enum Outcome<T> {
    Done(T),
    Failed(StorageError),
    /// The worker that carried the request out panicked.
    Panicked(String),
}

/// The result of a request.
pub open spec fn result_of<T>(o: Outcome<T>) -> Result<T, StorageError> {
    match o {
        Outcome::Done(v) => Ok(v),
        Outcome::Failed(e) => Err(e),
        Outcome::Panicked(m) => Err(StorageError::BlockingPanic(m)),
    }
}

/// Tells what came of a request.
fn settle<T>(o: Outcome<T>) -> (r: Result<T, StorageError>)
    ensures
        r == result_of(o),
{
    match o {
        Outcome::Done(v) => Ok(v),
        Outcome::Failed(e) => Err(e),
        Outcome::Panicked(m) => Err(StorageError::BlockingPanic(m)),
    }
}

/// The rows of the tables that are kept in memory.
pub struct StoredRows {
    pub dc_to_mc: Vec<(u64, String)>,
    pub join_leave_optout: Vec<(u64, bool)>,
    pub mute_mention: Vec<(u64, bool)>,
    pub muted_users: Vec<(u64, u64)>,
    pub privacy_enabled: Option<bool>,
    pub player_profile_enabled: Option<bool>,
}

/// The users whose row says yes.
pub open spec fn marked(rows: Seq<(u64, bool)>) -> Set<u64> {
    Set::new(|id: u64| rows.contains((id, true)))
}

/// The map that rows make; a later row of a key takes the place of an earlier one.
pub open spec fn map_of_rows(rows: Seq<(u64, u64)>) -> Map<u64, u64>
    decreases rows.len(),
{
    if rows.len() == 0 {
        Map::empty()
    } else {
        map_of_rows(rows.drop_last()).insert(rows.last().0, rows.last().1)
    }
}

/// A setting, which is on unless it has been turned off.
pub open spec fn setting(row: Option<bool>) -> bool {
    row != Some(false)
}

/// Collects the users whose row says yes.
pub fn load_optout_set(rows: &[(u64, bool)]) -> (r: HashSet<u64>)
    ensures
        r@ == marked(rows@),
{
    let mut set: HashSet<u64> = HashSet::new();
    let mut i: usize = 0;
    while i < rows.len()
        invariant
            i <= rows@.len(),
            forall|id: u64| #[trigger] set@.contains(id) <==> rows@.take(i as int).contains((id, true)),
        decreases rows@.len() - i,
    {
        let ghost before = set@;
        if rows[i].1 {
            set.insert(rows[i].0);
        }
        proof {
            let ghost was = rows@.take(i as int);
            let ghost now = rows@.take(i + 1);
            assert(now =~= was.push(rows@[i as int]));
            assert forall|id: u64| #[trigger] set@.contains(id) <==> now.contains((id, true)) by {
                if was.contains((id, true)) {
                    let j = was.index_of((id, true));
                    assert(now[j] == (id, true));
                }
                if now.contains((id, true)) {
                    let j = now.index_of((id, true));
                    assert(j < i ==> was[j] == (id, true));
                }
                assert(now[i as int] == rows@[i as int]);
            }
        }
        i = i + 1;
    }
    assert(rows@.take(i as int) =~= rows@);
    assert(set@ =~= marked(rows@));
    set
}

/// Collects who is muted until when.
pub fn load_muted_users(rows: &[(u64, u64)]) -> (r: HashMap<u64, u64>)
    ensures
        r@ == map_of_rows(rows@),
{
    let mut map: HashMap<u64, u64> = HashMap::new();
    let mut i: usize = 0;
    while i < rows.len()
        invariant
            i <= rows@.len(),
            map@ == map_of_rows(rows@.take(i as int)),
        decreases rows@.len() - i,
    {
        assert(rows@.take(i + 1).drop_last() =~= rows@.take(i as int));
        map.insert(rows[i].0, rows[i].1);
        i = i + 1;
    }
    assert(rows@.take(i as int) =~= rows@);
    map
}

/// Whether the privacy features are on.
pub fn load_privacy_enabled(row: Option<bool>) -> (r: bool)
    ensures
        r == setting(row),
{
    match row {
        Some(enabled) => enabled,
        None => true,
    }
}

/// Whether the player profiles are on.
pub fn load_player_profile_enabled(row: Option<bool>) -> (r: bool)
    ensures
        r == setting(row),
{
    match row {
        Some(enabled) => enabled,
        None => true,
    }
}

/// The database once a Discord user, who was linked with `old_mc`, is linked with a name.
pub open spec fn tables_connected(
    t: Tables,
    discord_id: u64,
    mc: Seq<char>,
    old_mc: Option<Seq<char>>,
) -> Tables {
    let freed = match old_mc {
        Some(old) => t.mc_to_dc.remove(old),
        None => t.mc_to_dc,
    };
    Tables {
        dc_to_mc: t.dc_to_mc.insert(discord_id, mc),
        mc_to_dc: freed.insert(mc, discord_id),
        ..t
    }
}

/// The transaction that links a Discord user with a player name. `existing` is the user that the
/// name is linked with, and `old_mc` the name that the user is linked with, as the database has it
/// within the transaction.
pub fn write_account_mapping(
    existing: Option<u64>,
    old_mc: Option<String>,
    discord_id: u64,
    mc_username: &str,
) -> (r: Result<Vec<RowWrite>, StorageError>)
    ensures
        match r {
            Ok(ws) => {
                &&& existing is None || existing == Some(discord_id)
                &&& forall|t: Tables| #[trigger]
                    tables::written_all(t, ws@) == tables_connected(
                        t,
                        discord_id,
                        mc_username@,
                        text::text_view(old_mc),
                    )
            },
            Err(e) => e == StorageError::AlreadyClaimed && existing is Some && existing != Some(
                discord_id,
            ),
        },
{
    match existing {
        Some(other) => {
            if other != discord_id {
                return Err(StorageError::AlreadyClaimed);
            }
        },
        None => {},
    }
    let mut ws: Vec<RowWrite> = Vec::new();
    let ghost old_view = text::text_view(old_mc);
    match old_mc {
        Some(old) => {
            let w = RowWrite::RemoveMcToDc { mc_username: old };
            ws.push(w);
            proof {
                assert forall|t: Tables| #[trigger] tables::written_all(t, ws@) == tables::written(
                    t,
                    w,
                ) by {
                    tables::lemma_written_push(t, Seq::empty(), w);
                    assert(ws@ =~= Seq::<RowWrite>::empty().push(w));
                }
            }
        },
        None => {},
    }
    let ghost ws0 = ws@;
    let a = RowWrite::PutDcToMc { discord_id, mc_username: mc_username.to_owned() };
    let b = RowWrite::PutMcToDc { mc_username: mc_username.to_owned(), discord_id };
    ws.push(a);
    ws.push(b);
    proof {
        assert forall|t: Tables| #[trigger] tables::written_all(t, ws@) == tables_connected(
            t,
            discord_id,
            mc_username@,
            old_view,
        ) by {
            tables::lemma_written_push(t, ws0, a);
            tables::lemma_written_push(t, ws0.push(a), b);
        }
    }
    Ok(ws)
}

/// The database once a Discord user is no longer linked with a name.
pub open spec fn tables_disconnected(t: Tables, discord_id: u64, mc: Seq<char>) -> Tables {
    Tables { dc_to_mc: t.dc_to_mc.remove(discord_id), mc_to_dc: t.mc_to_dc.remove(mc), ..t }
}

/// The transaction that undoes the link of a Discord user with a player name.
pub fn remove_account_mapping(discord_id: u64, mc_username: &str) -> (r: Vec<RowWrite>)
    ensures
        forall|t: Tables| #[trigger]
            tables::written_all(t, r@) == tables_disconnected(t, discord_id, mc_username@),
{
    let a = RowWrite::RemoveDcToMc { discord_id };
    let b = RowWrite::RemoveMcToDc { mc_username: mc_username.to_owned() };
    let mut ws = one(a);
    let ghost ws0 = ws@;
    ws.push(b);
    proof {
        assert forall|t: Tables| #[trigger] tables::written_all(t, ws@) == tables_disconnected(
            t,
            discord_id,
            mc_username@,
        ) by {
            tables::lemma_written_push(t, ws0, b);
        }
    }
    ws
}

/// Which of the two lists of users who do not want something is meant.
#[derive(Debug, Clone, Copy, PartialEq, Eq, Structural)]
pub enum OptoutTable {
    JoinLeave,
    MuteMention,
}

/// The row of a user in a list of users, present or not.
pub open spec fn optout_row(m: Map<u64, bool>, id: u64, value: bool) -> Map<u64, bool> {
    if value {
        m.insert(id, true)
    } else {
        m.remove(id)
    }
}

/// The database once a user stands in a list of users or does not.
pub open spec fn tables_opted(t: Tables, table: OptoutTable, id: u64, value: bool) -> Tables {
    match table {
        OptoutTable::JoinLeave => Tables {
            join_leave_optout: optout_row(t.join_leave_optout, id, value),
            ..t
        },
        OptoutTable::MuteMention => Tables {
            mute_mention: optout_row(t.mute_mention, id, value),
            ..t
        },
    }
}

/// The transaction that puts a user into a list of users or takes the user out.
pub fn write_optout_entry(table: OptoutTable, user_id: u64, value: bool) -> (r: Vec<RowWrite>)
    ensures
        forall|t: Tables| #[trigger]
            tables::written_all(t, r@) == tables_opted(t, table, user_id, value),
{
    match (table, value) {
        (OptoutTable::JoinLeave, true) => one(RowWrite::PutJoinLeaveOptout { discord_id: user_id }),
        (OptoutTable::JoinLeave, false) => one(
            RowWrite::RemoveJoinLeaveOptout { discord_id: user_id },
        ),
        (OptoutTable::MuteMention, true) => one(RowWrite::PutMuteMention { discord_id: user_id }),
        (OptoutTable::MuteMention, false) => one(
            RowWrite::RemoveMuteMention { discord_id: user_id },
        ),
    }
}

/// The transaction that turns the privacy features on or off.
pub fn write_privacy_setting(enabled: bool) -> (r: Vec<RowWrite>)
    ensures
        forall|t: Tables| #[trigger]
            tables::written_all(t, r@) == (Tables { privacy_enabled: Some(enabled), ..t }),
{
    one(RowWrite::PutPrivacyEnabled { enabled })
}

/// The transaction that turns the player profiles on or off.
pub fn write_player_profile_setting(enabled: bool) -> (r: Vec<RowWrite>)
    ensures
        forall|t: Tables| #[trigger]
            tables::written_all(t, r@) == (Tables { player_profile_enabled: Some(enabled), ..t }),
{
    one(RowWrite::PutPlayerProfileEnabled { enabled })
}

/// The transaction that mutes a user until a time, 0 for without end.
pub fn write_muted_user(discord_id: u64, expiry_ts: u64) -> (r: Vec<RowWrite>)
    ensures
        forall|t: Tables| #[trigger]
            tables::written_all(t, r@) == (Tables {
                muted_users: t.muted_users.insert(discord_id, expiry_ts),
                ..t
            }),
{
    one(RowWrite::PutMutedUser { discord_id, expiry_ts })
}

/// The transaction that unmutes a user.
pub fn remove_muted_user(discord_id: u64) -> (r: Vec<RowWrite>)
    ensures
        forall|t: Tables| #[trigger]
            tables::written_all(t, r@) == (Tables {
                muted_users: t.muted_users.remove(discord_id),
                ..t
            }),
{
    one(RowWrite::RemoveMutedUser { discord_id })
}

/// The transaction that binds the bridge to a channel.
pub fn write_bridge(channel_id: u64, guild_id: u64, mc_server_address: &str) -> (r: Vec<RowWrite>)
    ensures
        forall|t: Tables| #[trigger]
            tables::written_all(t, r@) == (Tables {
                bridge: Some((channel_id, guild_id, mc_server_address@)),
                ..t
            }),
{
    one(
        RowWrite::PutBridge {
            channel_id,
            guild_id,
            mc_server_address: mc_server_address.to_owned(),
        },
    )
}

/// The transaction that unbinds the bridge.
pub fn remove_bridge() -> (r: Vec<RowWrite>)
    ensures
        forall|t: Tables| #[trigger] tables::written_all(t, r@) == (Tables { bridge: None, ..t }),
{
    one(RowWrite::RemoveBridge)
}

/// The channel that the bridge is bound to.
pub fn read_bridge(row: Option<(u64, u64, String)>) -> (r: Option<u64>)
    ensures
        r == match row {
            Some((channel_id, _, _)) => Some(channel_id),
            None => None,
        },
{
    match row {
        Some((channel_id, _, _)) => Some(channel_id),
        None => None,
    }
}

/// The transaction that records the UUID of a player.
pub fn write_uuid_mapping(username: &str, uuid: &str) -> (r: Vec<RowWrite>)
    ensures
        forall|t: Tables| #[trigger]
            tables::written_all(t, r@) == (Tables {
                username_uuid: t.username_uuid.insert(username@, uuid@),
                ..t
            }),
{
    one(RowWrite::PutUuid { username: username.to_owned(), uuid: uuid.to_owned() })
}

/// What is kept in memory.
#[verifier::ext_equal]
pub struct Memory {
    pub mc_server_address: Seq<char>,
    pub accounts: Seq<(Seq<char>, u64)>,
    pub join_leave_optout: Set<u64>,
    pub mute_mention: Set<u64>,
    pub muted_users: Map<u64, u64>,
    pub privacy_enabled: bool,
    pub player_profile_enabled: bool,
}

/// What is kept in memory of the database.
pub struct Storage {
    mc_server_address: String,
    accounts: Accounts,
    join_leave_optout: HashSet<u64>,
    mute_mention: HashSet<u64>,
    /// The second at which the mute of a user ends, 0 for never.
    muted_users: HashMap<u64, u64>,
    privacy_enabled: bool,
    player_profile_enabled: bool,
}

impl View for Storage {
    type V = Memory;

    closed spec fn view(&self) -> Memory {
        Memory {
            mc_server_address: self.mc_server_address@,
            accounts: self.accounts@,
            join_leave_optout: self.join_leave_optout@,
            mute_mention: self.mute_mention@,
            muted_users: self.muted_users@,
            privacy_enabled: self.privacy_enabled,
            player_profile_enabled: self.player_profile_enabled,
        }
    }
}

/// The name is linked with another Discord user.
pub open spec fn claimed_by_other(m: Memory, discord_id: u64, mc: Seq<char>) -> bool {
    accounts::dc_of(m.accounts, mc) is Some && accounts::dc_of(m.accounts, mc) != Some(discord_id)
}

/// The memory once a Discord user is linked with a name.
pub open spec fn memory_connected(m: Memory, discord_id: u64, mc: Seq<char>) -> Memory {
    Memory { accounts: accounts::connected(m.accounts, discord_id, mc), ..m }
}

/// The memory once a Discord user is linked with no name.
pub open spec fn memory_disconnected(m: Memory, discord_id: u64) -> Memory {
    Memory { accounts: accounts::disconnected(m.accounts, discord_id), ..m }
}

/// A set of users with a user in it or not.
pub open spec fn with_member(s: Set<u64>, id: u64, member: bool) -> Set<u64> {
    if member {
        s.insert(id)
    } else {
        s.remove(id)
    }
}

/// The time at which a mute ends that begins now; 0 for a mute without end.
pub open spec fn expiry_of(duration_secs: u64, now: u64) -> int {
    if duration_secs == 0 {
        0
    } else {
        now + duration_secs
    }
}

/// The mute of a user at a time: `None` where there is none, or where its end has come.
pub open spec fn mute_of(m: Memory, id: u64, now: u64) -> Option<u64> {
    if m.muted_users.contains_key(id) && (m.muted_users[id] == 0 || now < m.muted_users[id]) {
        Some(m.muted_users[id])
    } else {
        None
    }
}

/// The mute of a user has an end, and it has come.
pub open spec fn mute_is_over(m: Memory, id: u64, now: u64) -> bool {
    m.muted_users.contains_key(id) && mute_of(m, id, now) is None
}

/// When a mute ends that begins now.
pub fn mute_expiry(duration_secs: u64, now: u64) -> (r: u64)
    requires
        expiry_of(duration_secs, now) <= u64::MAX,
    ensures
        r == expiry_of(duration_secs, now),
{
    if duration_secs == 0 {
        0
    } else {
        now + duration_secs
    }
}

impl Storage {
    /// The accounts are well formed.
    pub closed spec fn wf(self) -> bool {
        self.accounts.wf()
    }

    /// The accounts of a well-formed storage are sorted by name.
    pub proof fn law_accounts_are_sorted(self)
        requires
            self.wf(),
        ensures
            accounts::by_name(self@.accounts),
    {
        self.accounts.lemma_by_name();
    }

    /// Takes into memory what the database holds.
    pub fn open(rows: StoredRows, mc_server_address: String) -> (r: Self)
        ensures
            r.wf(),
            r@.mc_server_address == mc_server_address@,
            exists|p: Seq<int>|
                accounts::rearranged(accounts::entries_of(rows.dc_to_mc@), r@.accounts, p),
            r@.join_leave_optout == marked(rows.join_leave_optout@),
            r@.mute_mention == marked(rows.mute_mention@),
            r@.muted_users == map_of_rows(rows.muted_users@),
            r@.privacy_enabled == setting(rows.privacy_enabled),
            r@.player_profile_enabled == setting(rows.player_profile_enabled),
    {
        let join_leave_optout = load_optout_set(rows.join_leave_optout.as_slice());
        let mute_mention = load_optout_set(rows.mute_mention.as_slice());
        let muted_users = load_muted_users(rows.muted_users.as_slice());
        let privacy_enabled = load_privacy_enabled(rows.privacy_enabled);
        let player_profile_enabled = load_player_profile_enabled(rows.player_profile_enabled);
        let ghost entries = accounts::entries_of(rows.dc_to_mc@);
        let accounts = Accounts::load_account_mappings(rows.dc_to_mc);
        let ghost p = choose|p: Seq<int>| accounts::rearranged(entries, accounts@, p);
        let r = Storage {
            mc_server_address,
            accounts,
            join_leave_optout,
            mute_mention,
            muted_users,
            privacy_enabled,
            player_profile_enabled,
        };
        assert(accounts::rearranged(entries, r@.accounts, p));
        r
    }

    /// The channel that the bridge is bound to; none where there is no binding.
    pub fn get_bridge_channel(read: Outcome<Option<(u64, u64, String)>>) -> (r: Result<
        Option<u64>,
        StorageError,
    >)
        ensures
            r == match read {
                Outcome::Done(Some((channel_id, _, _))) => Ok(Some(channel_id)),
                Outcome::Done(None) => Ok(None),
                Outcome::Failed(e) => Err(e),
                Outcome::Panicked(m) => Err(StorageError::BlockingPanic(m)),
            },
    {
        match settle(read) {
            Ok(row) => Ok(read_bridge(row)),
            Err(e) => Err(e),
        }
    }

    /// The transaction that binds the bridge to a channel.
    pub fn set_bridge_channel(&self, channel_id: u64, guild_id: u64) -> (r: Vec<RowWrite>)
        ensures
            forall|t: Tables| #[trigger]
                tables::written_all(t, r@) == (Tables {
                    bridge: Some((channel_id, guild_id, self@.mc_server_address)),
                    ..t
                }),
    {
        write_bridge(channel_id, guild_id, self.mc_server_address.as_str())
    }

    /// The transaction that unbinds the bridge.
    pub fn clear_bridge_channel(&self) -> (r: Vec<RowWrite>)
        ensures
            forall|t: Tables| #[trigger]
                tables::written_all(t, r@) == (Tables { bridge: None, ..t }),
    {
        remove_bridge()
    }

    /// The UUID of a player; none where there is no row.
    pub fn resolve_uuid(read: Outcome<Option<String>>) -> (r: Result<Option<String>, StorageError>)
        ensures
            r == result_of(read),
    {
        settle(read)
    }

    /// The transaction that records the UUID of a player.
    pub fn store_uuid_mapping(username: &str, uuid: &str) -> (r: Vec<RowWrite>)
        ensures
            forall|t: Tables| #[trigger]
                tables::written_all(t, r@) == (Tables {
                    username_uuid: t.username_uuid.insert(username@, uuid@),
                    ..t
                }),
    {
        write_uuid_mapping(username, uuid)
    }

    /// What is recorded of a player; nothing where there is no row.
    pub fn get_player_stats(read: Outcome<Option<PlayerStatsTuple>>) -> (r: Result<
        Option<PlayerStats>,
        StorageError,
    >)
        ensures
            match read {
                Outcome::Done(Some(row)) => r matches Ok(Some(stats)) && stats.columns() == row,
                Outcome::Done(None) => r == Ok::<Option<PlayerStats>, StorageError>(None),
                Outcome::Failed(e) => r == Err::<Option<PlayerStats>, StorageError>(e),
                Outcome::Panicked(m) => r == Err::<Option<PlayerStats>, StorageError>(
                    StorageError::BlockingPanic(m),
                ),
            },
    {
        match settle(read) {
            Ok(Some(row)) => Ok(Some(PlayerStats::from_tuple(row))),
            Ok(None) => Ok(None),
            Err(e) => Err(e),
        }
    }

    /// The seconds that a player played on a day; 0 where there is no row.
    pub fn get_daily_play_time(read: Outcome<Option<u64>>) -> (r: Result<u64, StorageError>)
        ensures
            r == match read {
                Outcome::Done(Some(secs)) => Ok(secs),
                Outcome::Done(None) => Ok(0),
                Outcome::Failed(e) => Err(e),
                Outcome::Panicked(m) => Err(StorageError::BlockingPanic(m)),
            },
    {
        match settle(read) {
            Ok(Some(secs)) => Ok(secs),
            Ok(None) => Ok(0),
            Err(e) => Err(e),
        }
    }

    /// The seconds that a player played on each of the days; nothing where there is no table.
    pub fn get_recent_play_time(
        read: Outcome<Option<DayTimes>>,
        uuid: &str,
        dates: &[String],
    ) -> (r: Result<Vec<(String, u64)>, StorageError>)
        requires
            read matches Outcome::Done(Some(days)) ==> days.wf(),
        ensures
            match read {
                Outcome::Done(Some(days)) => r matches Ok(v) && v@.len() == dates@.len() && (forall|
                    i: int,
                |
                    0 <= i < v@.len() ==> (#[trigger] v@[i]).0@ == dates@[i]@ && v@[i].1
                        == records::secs_on(days@, uuid@, dates@[i]@)),
                Outcome::Done(None) => r matches Ok(v) && v@.len() == 0,
                Outcome::Failed(why) => r matches Err(e) && e == why,
                Outcome::Panicked(m) => r matches Err(e) && e == StorageError::BlockingPanic(m),
            },
    {
        match settle(read) {
            Ok(Some(days)) => Ok(read_recent_play_time(Some(&days), uuid, dates)),
            Ok(None) => Ok(read_recent_play_time(None, uuid, dates)),
            Err(e) => Err(e),
        }
    }

    /// Tells whether a flush was carried out.
    pub fn flush_player_deltas(saved: Outcome<()>) -> (r: Result<(), StorageError>)
        ensures
            r == result_of(saved),
    {
        settle(saved)
    }

    /// What is recorded of all players, each with the UUID and the name, where `names` has one for
    /// it, the longest play time first.
    pub fn get_all_player_stats(
        read: Outcome<Vec<(String, PlayerStats)>>,
        names: &[(String, String)],
    ) -> (r: Result<Vec<(String, Option<String>, PlayerStats)>, StorageError>)
        ensures
            match read {
                Outcome::Done(rows) => r matches Ok(v) && records::lists_all(rows@, names@, v@),
                Outcome::Failed(why) => r matches Err(e) && e == why,
                Outcome::Panicked(m) => r matches Err(e) && e == StorageError::BlockingPanic(m),
            },
    {
        match settle(read) {
            Ok(rows) => {
                let sorted = read_all_player_stats(rows);
                Ok(with_names(sorted.as_slice(), names))
            },
            Err(e) => Err(e),
        }
    }

    /// The name of the first player, in the order of the rows, who has a UUID; none where nobody
    /// has.
    pub fn resolve_username(read: Outcome<Vec<(String, String)>>, uuid: &str) -> (r: Result<
        Option<String>,
        StorageError,
    >)
        ensures
            match read {
                Outcome::Done(rows) => r matches Ok(name) && records::is_name_of(
                    rows@,
                    uuid@,
                    name,
                ),
                Outcome::Failed(e) => r == Err::<Option<String>, StorageError>(e),
                Outcome::Panicked(m) => r == Err::<Option<String>, StorageError>(
                    StorageError::BlockingPanic(m),
                ),
            },
    {
        match settle(read) {
            Ok(rows) => Ok(reverse_resolve_uuid(rows.as_slice(), uuid)),
            Err(e) => Err(e),
        }
    }

    /// Whether the privacy features are on.
    pub fn is_privacy_enabled(&self) -> (r: bool)
        ensures
            r == self@.privacy_enabled,
    {
        self.privacy_enabled
    }

    /// Turns the privacy features on or off, once the database has.
    pub fn set_privacy_enabled(&mut self, enabled: bool, saved: Outcome<()>) -> (r: Result<
        (),
        StorageError,
    >)
        requires
            old(self).wf(),
        ensures
            final(self).wf(),
            r == result_of(saved),
            final(self)@ == if r is Ok {
                (Memory { privacy_enabled: enabled, ..old(self)@ })
            } else {
                old(self)@
            },
    {
        match settle(saved) {
            Ok(_) => {
                self.privacy_enabled = enabled;
                Ok(())
            },
            Err(e) => Err(e),
        }
    }

    /// Whether the player profiles are on.
    pub fn is_player_profile_enabled(&self) -> (r: bool)
        ensures
            r == self@.player_profile_enabled,
    {
        self.player_profile_enabled
    }

    /// Turns the player profiles on or off, once the database has.
    pub fn set_player_profile_enabled(&mut self, enabled: bool, saved: Outcome<()>) -> (r: Result<
        (),
        StorageError,
    >)
        requires
            old(self).wf(),
        ensures
            final(self).wf(),
            r == result_of(saved),
            final(self)@ == if r is Ok {
                (Memory { player_profile_enabled: enabled, ..old(self)@ })
            } else {
                old(self)@
            },
    {
        match settle(saved) {
            Ok(_) => {
                self.player_profile_enabled = enabled;
                Ok(())
            },
            Err(e) => Err(e),
        }
    }

    /// Whether a Discord user may be linked with a name: an error where the name is linked with
    /// another user.
    pub fn check_claim(&self, discord_id: u64, mc_username: &str) -> (r: Result<(), StorageError>)
        requires
            self.wf(),
        ensures
            r == if claimed_by_other(self@, discord_id, mc_username@) {
                Err::<(), StorageError>(StorageError::AlreadyClaimed)
            } else {
                Ok(())
            },
    {
        match self.accounts.get_dc_from_mc(mc_username) {
            Some(other) => if other != discord_id {
                Err(StorageError::AlreadyClaimed)
            } else {
                Ok(())
            },
            None => Ok(()),
        }
    }

    /// Links a Discord user with a player name, in place of any earlier one, once the database has.
    /// A name that is linked with another user is refused, whatever the database said.
    pub fn set_connection(
        &mut self,
        discord_id: u64,
        mc_username: String,
        saved: Outcome<()>,
    ) -> (r: Result<(), StorageError>)
        requires
            old(self).wf(),
        ensures
            final(self).wf(),
            r == if claimed_by_other(old(self)@, discord_id, mc_username@) {
                Err::<(), StorageError>(StorageError::AlreadyClaimed)
            } else {
                result_of(saved)
            },
            final(self)@ == if r is Ok {
                memory_connected(old(self)@, discord_id, mc_username@)
            } else {
                old(self)@
            },
    {
        match self.check_claim(discord_id, mc_username.as_str()) {
            Ok(_) => {},
            Err(e) => return Err(e),
        }
        match settle(saved) {
            Ok(_) => {
                self.accounts.connect(discord_id, mc_username);
                Ok(())
            },
            Err(e) => Err(e),
        }
    }

    /// The transaction that undoes the link of a Discord user; `None` where there is no link, and
    /// nothing to do.
    pub fn plan_disconnection(&self, discord_id: u64) -> (r: Option<Vec<RowWrite>>)
        requires
            self.wf(),
        ensures
            match accounts::mc_of(self@.accounts, discord_id) {
                Some(mc) => r matches Some(ws) && forall|t: Tables| #[trigger]
                    tables::written_all(t, ws@) == tables_disconnected(t, discord_id, mc),
                None => r is None,
            },
    {
        match self.accounts.get_mc_from_dc(discord_id) {
            Some(mc) => Some(remove_account_mapping(discord_id, mc.as_str())),
            None => None,
        }
    }

    /// Undoes the link of a Discord user, once the database has. Nothing is done, and nothing goes
    /// wrong, where there is no link.
    pub fn remove_connection(&mut self, discord_id: u64, saved: Outcome<()>) -> (r: Result<
        (),
        StorageError,
    >)
        requires
            old(self).wf(),
        ensures
            final(self).wf(),
            r == if accounts::mc_of(old(self)@.accounts, discord_id) is None {
                Ok::<(), StorageError>(())
            } else {
                result_of(saved)
            },
            final(self)@ == if r is Ok {
                memory_disconnected(old(self)@, discord_id)
            } else {
                old(self)@
            },
    {
        if !self.is_connected_dc(discord_id) {
            return Ok(());
        }
        match settle(saved) {
            Ok(_) => {
                self.accounts.disconnect(discord_id);
                Ok(())
            },
            Err(e) => Err(e),
        }
    }

    /// The Discord user with whom a player name is linked.
    pub fn get_dc_from_mc(&self, mc_username: &str) -> (r: Option<u64>)
        requires
            self.wf(),
        ensures
            r == accounts::dc_of(self@.accounts, mc_username@),
    {
        self.accounts.get_dc_from_mc(mc_username)
    }

    /// The player name with which a Discord user is linked.
    pub fn get_mc_from_dc(&self, discord_id: u64) -> (r: Option<String>)
        requires
            self.wf(),
        ensures
            text::text_view(r) == accounts::mc_of(self@.accounts, discord_id),
    {
        self.accounts.get_mc_from_dc(discord_id)
    }

    /// Whether a Discord user is linked with a player name.
    pub fn is_connected_dc(&self, discord_id: u64) -> (r: bool)
        requires
            self.wf(),
        ensures
            r == accounts::mc_of(self@.accounts, discord_id) is Some,
    {
        self.accounts.get_mc_from_dc(discord_id).is_some()
    }

    /// Notes whether a Discord user does not want to take part in the bridge, once the database
    /// has.
    pub fn set_join_leave_optout(
        &mut self,
        discord_id: u64,
        opted_out: bool,
        saved: Outcome<()>,
    ) -> (r: Result<(), StorageError>)
        requires
            old(self).wf(),
        ensures
            final(self).wf(),
            r == result_of(saved),
            final(self)@ == if r is Ok {
                (Memory {
                    join_leave_optout: with_member(
                        old(self)@.join_leave_optout,
                        discord_id,
                        opted_out,
                    ),
                    ..old(self)@
                })
            } else {
                old(self)@
            },
    {
        match settle(saved) {
            Ok(_) => {
                if opted_out {
                    self.join_leave_optout.insert(discord_id);
                } else {
                    self.join_leave_optout.remove(&discord_id);
                }
                Ok(())
            },
            Err(e) => Err(e),
        }
    }

    /// Whether a Discord user does not want to take part in the bridge.
    pub fn is_join_leave_opted_out(&self, discord_id: u64) -> (r: bool)
        ensures
            r == self@.join_leave_optout.contains(discord_id),
    {
        self.join_leave_optout.contains(&discord_id)
    }

    /// Notes whether a Discord user does not want to be mentioned, once the database has.
    pub fn set_mute_mention(&mut self, discord_id: u64, muted: bool, saved: Outcome<()>) -> (r:
        Result<(), StorageError>)
        requires
            old(self).wf(),
        ensures
            final(self).wf(),
            r == result_of(saved),
            final(self)@ == if r is Ok {
                (Memory {
                    mute_mention: with_member(old(self)@.mute_mention, discord_id, muted),
                    ..old(self)@
                })
            } else {
                old(self)@
            },
    {
        match settle(saved) {
            Ok(_) => {
                if muted {
                    self.mute_mention.insert(discord_id);
                } else {
                    self.mute_mention.remove(&discord_id);
                }
                Ok(())
            },
            Err(e) => Err(e),
        }
    }

    /// Whether a Discord user does not want to be mentioned.
    pub fn is_mention_muted(&self, discord_id: u64) -> (r: bool)
        ensures
            r == self@.mute_mention.contains(discord_id),
    {
        self.mute_mention.contains(&discord_id)
    }

    /// Until when a Discord user is muted, 0 for without end; `None` where the user is not. A mute
    /// whose end has come is forgotten, and with it comes the transaction that takes it out of the
    /// database.
    pub fn is_muted(&mut self, discord_id: u64, now: u64) -> (r: (Option<u64>, Option<Vec<RowWrite>>))
        requires
            old(self).wf(),
        ensures
            final(self).wf(),
            r.0 == mute_of(old(self)@, discord_id, now),
            if mute_is_over(old(self)@, discord_id, now) {
                &&& final(self)@ == (Memory {
                    muted_users: old(self)@.muted_users.remove(discord_id),
                    ..old(self)@
                })
                &&& r.1 matches Some(ws) && forall|t: Tables| #[trigger]
                    tables::written_all(t, ws@) == (Tables {
                        muted_users: t.muted_users.remove(discord_id),
                        ..t
                    })
            } else {
                final(self)@ == old(self)@ && r.1 is None
            },
    {
        let expiry: u64 = match self.muted_users.get(&discord_id) {
            Some(expiry) => *expiry,
            None => return (None, None),
        };
        if expiry == 0 {
            return (Some(0), None);
        }
        if now >= expiry {
            self.muted_users.remove(&discord_id);
            return (None, Some(remove_muted_user(discord_id)));
        }
        (Some(expiry), None)
    }

    /// Mutes a Discord user for a time, 0 for without end, once the database has.
    pub fn set_muted(
        &mut self,
        discord_id: u64,
        duration_secs: u64,
        now: u64,
        saved: Outcome<()>,
    ) -> (r: Result<(), StorageError>)
        requires
            old(self).wf(),
            expiry_of(duration_secs, now) <= u64::MAX,
        ensures
            final(self).wf(),
            r == result_of(saved),
            final(self)@ == if r is Ok {
                (Memory {
                    muted_users: old(self)@.muted_users.insert(
                        discord_id,
                        expiry_of(duration_secs, now) as u64,
                    ),
                    ..old(self)@
                })
            } else {
                old(self)@
            },
    {
        match settle(saved) {
            Ok(_) => {
                let expiry_ts = mute_expiry(duration_secs, now);
                self.muted_users.insert(discord_id, expiry_ts);
                Ok(())
            },
            Err(e) => Err(e),
        }
    }

    /// Unmutes a Discord user, once the database has.
    pub fn unmute_user(&mut self, discord_id: u64, saved: Outcome<()>) -> (r: Result<
        (),
        StorageError,
    >)
        requires
            old(self).wf(),
        ensures
            final(self).wf(),
            r == result_of(saved),
            final(self)@ == if r is Ok {
                (Memory { muted_users: old(self)@.muted_users.remove(discord_id), ..old(self)@ })
            } else {
                old(self)@
            },
    {
        match settle(saved) {
            Ok(_) => {
                self.muted_users.remove(&discord_id);
                Ok(())
            },
            Err(e) => Err(e),
        }
    }
}

/// Every Discord user's name is linked back to that user, and every name's Discord user to that
/// name.
pub open spec fn linked(t: Tables) -> bool {
    &&& forall|id: u64| #[trigger]
        t.dc_to_mc.contains_key(id) ==> t.mc_to_dc.contains_key(t.dc_to_mc[id])
            && t.mc_to_dc[t.dc_to_mc[id]] == id
    &&& forall|mc: Seq<char>| #[trigger]
        t.mc_to_dc.contains_key(mc) ==> t.dc_to_mc.contains_key(t.mc_to_dc[mc])
            && t.dc_to_mc[t.mc_to_dc[mc]] == mc
}

/// The memory answers as the database does.
pub open spec fn mirrors(m: Memory, t: Tables) -> bool {
    &&& accounts::by_name(m.accounts)
    &&& accounts::one_to_one(m.accounts)
    &&& forall|id: u64| #[trigger]
        accounts::mc_of(m.accounts, id) == records::value_at(t.dc_to_mc, id)
    &&& forall|mc: Seq<char>| #[trigger]
        accounts::dc_of(m.accounts, mc) == records::value_at(t.mc_to_dc, mc)
    &&& forall|id: u64| #[trigger]
        m.join_leave_optout.contains(id) <==> records::value_at(t.join_leave_optout, id) == Some(
            true,
        )
    &&& forall|id: u64| #[trigger]
        m.mute_mention.contains(id) <==> records::value_at(t.mute_mention, id) == Some(true)
    &&& m.muted_users == t.muted_users
    &&& m.privacy_enabled == setting(t.privacy_enabled)
    &&& m.player_profile_enabled == setting(t.player_profile_enabled)
}

/// Linking a Discord user with a name that no other user is linked with keeps the two tables of
/// links each other's inverse, links the two, frees the earlier name, and leaves all other links.
pub proof fn law_connecting_keeps_links(t: Tables, discord_id: u64, mc: Seq<char>)
    requires
        linked(t),
        records::value_at(t.mc_to_dc, mc) is None || records::value_at(t.mc_to_dc, mc) == Some(
            discord_id,
        ),
    ensures
        ({
            let old_mc = records::value_at(t.dc_to_mc, discord_id);
            let after = tables_connected(t, discord_id, mc, old_mc);
            &&& linked(after)
            &&& records::value_at(after.dc_to_mc, discord_id) == Some(mc)
            &&& records::value_at(after.mc_to_dc, mc) == Some(discord_id)
            &&& old_mc is Some && old_mc != Some(mc) ==> records::value_at(
                after.mc_to_dc,
                old_mc->0,
            ) is None
            &&& forall|id: u64|
                id != discord_id ==> #[trigger] records::value_at(after.dc_to_mc, id)
                    == records::value_at(t.dc_to_mc, id)
        }),
{
    let old_mc = records::value_at(t.dc_to_mc, discord_id);
    let after = tables_connected(t, discord_id, mc, old_mc);
    assert forall|id: u64| #[trigger] after.dc_to_mc.contains_key(id) implies
        after.mc_to_dc.contains_key(after.dc_to_mc[id]) && after.mc_to_dc[after.dc_to_mc[id]] == id by {
        if id != discord_id {
            assert(t.dc_to_mc.contains_key(id));
        }
    }
    assert forall|name: Seq<char>| #[trigger] after.mc_to_dc.contains_key(name) implies
        after.dc_to_mc.contains_key(after.mc_to_dc[name]) && after.dc_to_mc[after.mc_to_dc[name]]
        == name by {
        if name != mc {
            assert(t.mc_to_dc.contains_key(name));
            if t.mc_to_dc[name] == discord_id {
                assert(t.dc_to_mc.contains_key(discord_id));
            }
        }
    }
}

/// Undoing the link of a Discord user keeps the two tables of links each other's inverse, frees the
/// user and the name, and leaves all other links.
pub proof fn law_disconnecting_keeps_links(t: Tables, discord_id: u64)
    requires
        linked(t),
        t.dc_to_mc.contains_key(discord_id),
    ensures
        ({
            let after = tables_disconnected(t, discord_id, t.dc_to_mc[discord_id]);
            &&& linked(after)
            &&& records::value_at(after.dc_to_mc, discord_id) is None
            &&& records::value_at(after.mc_to_dc, t.dc_to_mc[discord_id]) is None
            &&& forall|id: u64|
                id != discord_id ==> #[trigger] records::value_at(after.dc_to_mc, id)
                    == records::value_at(t.dc_to_mc, id)
        }),
{
    let mc = t.dc_to_mc[discord_id];
    let after = tables_disconnected(t, discord_id, mc);
    assert forall|id: u64| #[trigger] after.dc_to_mc.contains_key(id) implies
        after.mc_to_dc.contains_key(after.dc_to_mc[id]) && after.mc_to_dc[after.dc_to_mc[id]] == id by {
        assert(t.dc_to_mc.contains_key(id));
    }
    assert forall|name: Seq<char>| #[trigger] after.mc_to_dc.contains_key(name) implies
        after.dc_to_mc.contains_key(after.mc_to_dc[name]) && after.dc_to_mc[after.mc_to_dc[name]]
        == name by {
        assert(t.mc_to_dc.contains_key(name));
    }
}

/// Linking a Discord user does the same to what the memory answers as to what the database holds.
pub proof fn law_connecting_is_mirrored(m: Memory, t: Tables, discord_id: u64, mc: Seq<char>)
    requires
        mirrors(m, t),
        linked(t),
        !claimed_by_other(m, discord_id, mc),
    ensures
        mirrors(
            memory_connected(m, discord_id, mc),
            tables_connected(t, discord_id, mc, records::value_at(t.dc_to_mc, discord_id)),
        ),
{
    let a = m.accounts;
    let base = accounts::without_id(a, discord_id);
    let old_mc = records::value_at(t.dc_to_mc, discord_id);
    let after = tables_connected(t, discord_id, mc, old_mc);
    let now = memory_connected(m, discord_id, mc).accounts;
    assert(accounts::mc_of(a, discord_id) == old_mc);
    assert(accounts::dc_of(a, mc) == records::value_at(t.mc_to_dc, mc));
    assert(t.dc_to_mc.contains_key(discord_id) ==> t.mc_to_dc[t.dc_to_mc[discord_id]]
        == discord_id);
    assert(t.mc_to_dc.contains_key(mc) ==> t.dc_to_mc[t.mc_to_dc[mc]] == mc);
    accounts::lemma_without_id(a, discord_id, mc, discord_id);
    assert(accounts::dc_of(base, mc) is None);
    assert(accounts::mc_of(base, discord_id) is None);
    assert forall|id: u64| #[trigger] accounts::mc_of(now, id) == records::value_at(
        after.dc_to_mc,
        id,
    ) by {
        accounts::lemma_without_id(a, discord_id, mc, id);
        accounts::lemma_with_account(base, mc, discord_id, mc, id);
        assert(accounts::mc_of(a, id) == records::value_at(t.dc_to_mc, id));
    }
    assert forall|name: Seq<char>| #[trigger] accounts::dc_of(now, name) == records::value_at(
        after.mc_to_dc,
        name,
    ) by {
        accounts::lemma_without_id(a, discord_id, name, discord_id);
        accounts::lemma_with_account(base, mc, discord_id, name, discord_id);
        assert(accounts::dc_of(a, name) == records::value_at(t.mc_to_dc, name));
    }
    accounts::lemma_with_account(base, mc, discord_id, mc, discord_id);
}

/// Undoing the link of a Discord user does the same to what the memory answers as to what the
/// database holds.
pub proof fn law_disconnecting_is_mirrored(m: Memory, t: Tables, discord_id: u64)
    requires
        mirrors(m, t),
        linked(t),
        t.dc_to_mc.contains_key(discord_id),
    ensures
        mirrors(
            memory_disconnected(m, discord_id),
            tables_disconnected(t, discord_id, t.dc_to_mc[discord_id]),
        ),
{
    let a = m.accounts;
    let mc = t.dc_to_mc[discord_id];
    let after = tables_disconnected(t, discord_id, mc);
    let now = memory_disconnected(m, discord_id).accounts;
    assert(accounts::mc_of(a, discord_id) == Some(mc));
    accounts::lemma_same_entry(a, mc, discord_id);
    assert(now == accounts::without_id(a, discord_id));
    assert forall|id: u64| #[trigger] accounts::mc_of(now, id) == records::value_at(
        after.dc_to_mc,
        id,
    ) by {
        accounts::lemma_without_id(a, discord_id, mc, id);
        assert(accounts::mc_of(a, id) == records::value_at(t.dc_to_mc, id));
    }
    assert forall|name: Seq<char>| #[trigger] accounts::dc_of(now, name) == records::value_at(
        after.mc_to_dc,
        name,
    ) by {
        accounts::lemma_without_id(a, discord_id, name, discord_id);
        assert(accounts::dc_of(a, name) == records::value_at(t.mc_to_dc, name));
    }
    accounts::lemma_without_id(a, discord_id, mc, discord_id);
}

/// Putting a user into a list of users, or taking the user out, does the same to what the memory
/// answers as to what the database holds.
pub proof fn law_opting_is_mirrored(m: Memory, t: Tables, table: OptoutTable, id: u64, value: bool)
    requires
        mirrors(m, t),
    ensures
        mirrors(
            match table {
                OptoutTable::JoinLeave => Memory {
                    join_leave_optout: with_member(m.join_leave_optout, id, value),
                    ..m
                },
                OptoutTable::MuteMention => Memory {
                    mute_mention: with_member(m.mute_mention, id, value),
                    ..m
                },
            },
            tables_opted(t, table, id, value),
        ),
{
    let after = tables_opted(t, table, id, value);
    assert forall|i: u64| #[trigger] with_member(m.join_leave_optout, id, value).contains(
        i,
    ) <==> records::value_at(optout_row(t.join_leave_optout, id, value), i) == Some(true) by {
        assert(m.join_leave_optout.contains(i) <==> records::value_at(t.join_leave_optout, i)
            == Some(true));
    }
    assert forall|i: u64| #[trigger] with_member(m.mute_mention, id, value).contains(
        i,
    ) <==> records::value_at(optout_row(t.mute_mention, id, value), i) == Some(true) by {
        assert(m.mute_mention.contains(i) <==> records::value_at(t.mute_mention, i) == Some(true));
    }
}

/// Muting and unmuting a user, and turning a setting on or off, do the same to what the memory
/// answers as to what the database holds.
pub proof fn law_mutes_and_settings_are_mirrored(
    m: Memory,
    t: Tables,
    id: u64,
    expiry: u64,
    enabled: bool,
)
    requires
        mirrors(m, t),
    ensures
        mirrors(
            Memory { muted_users: m.muted_users.insert(id, expiry), ..m },
            Tables { muted_users: t.muted_users.insert(id, expiry), ..t },
        ),
        mirrors(
            Memory { muted_users: m.muted_users.remove(id), ..m },
            Tables { muted_users: t.muted_users.remove(id), ..t },
        ),
        mirrors(
            Memory { privacy_enabled: enabled, ..m },
            Tables { privacy_enabled: Some(enabled), ..t },
        ),
        mirrors(
            Memory { player_profile_enabled: enabled, ..m },
            Tables { player_profile_enabled: Some(enabled), ..t },
        ),
{
}

/// The rows are those that the database holds, each once.
pub open spec fn rows_of(rows: StoredRows, t: Tables) -> bool {
    &&& forall|id: u64, mc: Seq<char>| #[trigger]
        accounts::entries_of(rows.dc_to_mc@).contains((mc, id)) <==> records::value_at(
            t.dc_to_mc,
            id,
        ) == Some(mc)
    &&& forall|i: int, j: int|
        0 <= i < j < rows.dc_to_mc@.len() ==> (#[trigger] rows.dc_to_mc@[i]).0 != (
        #[trigger] rows.dc_to_mc@[j]).0
    &&& forall|id: u64, value: bool| #[trigger]
        rows.join_leave_optout@.contains((id, value)) <==> records::value_at(
            t.join_leave_optout,
            id,
        ) == Some(value)
    &&& forall|id: u64, value: bool| #[trigger]
        rows.mute_mention@.contains((id, value)) <==> records::value_at(t.mute_mention, id) == Some(
            value,
        )
    &&& forall|id: u64, ts: u64| #[trigger]
        rows.muted_users@.contains((id, ts)) <==> records::value_at(t.muted_users, id) == Some(ts)
    &&& forall|i: int, j: int|
        0 <= i < j < rows.muted_users@.len() ==> (#[trigger] rows.muted_users@[i]).0 != (
        #[trigger] rows.muted_users@[j]).0
    &&& rows.privacy_enabled == t.privacy_enabled
    &&& rows.player_profile_enabled == t.player_profile_enabled
}

/// Rows of distinct keys make the map whose pairs they are.
proof fn lemma_map_of_rows(rows: Seq<(u64, u64)>, id: u64)
    requires
        forall|i: int, j: int|
            0 <= i < j < rows.len() ==> (#[trigger] rows[i]).0 != (#[trigger] rows[j]).0,
    ensures
        forall|i: int|
            0 <= i < rows.len() && (#[trigger] rows[i]).0 == id ==> records::value_at(
                map_of_rows(rows),
                id,
            ) == Some(rows[i].1),
        (forall|i: int| 0 <= i < rows.len() ==> (#[trigger] rows[i]).0 != id)
            ==> records::value_at(map_of_rows(rows), id) is None,
    decreases rows.len(),
{
    if rows.len() > 0 {
        let rest = rows.drop_last();
        assert forall|i: int, j: int| 0 <= i < j < rest.len() implies (#[trigger] rest[i]).0 != (
        #[trigger] rest[j]).0 by {
            assert(rest[i] == rows[i] && rest[j] == rows[j]);
        }
        lemma_map_of_rows(rest, id);
        let last = rows.len() - 1;
        assert(rows.last() == rows[last]);
        assert forall|i: int| 0 <= i < rows.len() && (#[trigger] rows[i]).0 == id implies
            records::value_at(map_of_rows(rows), id) == Some(rows[i].1) by {
            if i < last {
                assert(rest[i] == rows[i]);
                assert(rows[i].0 != rows[last].0);
            }
        }
        if forall|i: int| 0 <= i < rows.len() ==> (#[trigger] rows[i]).0 != id {
            assert forall|i: int| 0 <= i < rest.len() implies (#[trigger] rest[i]).0 != id by {
                assert(rest[i] == rows[i]);
            }
        }
    }
}

/// After a restart the memory answers as the database does: whatever the database was last told of
/// links, lists of users, mutes and settings is known again.
pub proof fn law_memory_survives_restart(m: Memory, rows: StoredRows, t: Tables)
    requires
        linked(t),
        rows_of(rows, t),
        accounts::by_name(m.accounts),
        exists|p: Seq<int>|
            accounts::rearranged(accounts::entries_of(rows.dc_to_mc@), m.accounts, p),
        m.join_leave_optout == marked(rows.join_leave_optout@),
        m.mute_mention == marked(rows.mute_mention@),
        m.muted_users == map_of_rows(rows.muted_users@),
        m.privacy_enabled == setting(rows.privacy_enabled),
        m.player_profile_enabled == setting(rows.player_profile_enabled),
    ensures
        mirrors(m, t),
{
    let s = accounts::entries_of(rows.dc_to_mc@);
    let a = m.accounts;
    let p = choose|p: Seq<int>| accounts::rearranged(s, a, p);
    assert forall|i: int, j: int| 0 <= i < a.len() && 0 <= j < a.len() && i != j implies (
    #[trigger] a[i]).0 != (#[trigger] a[j]).0 && a[i].1 != a[j].1 by {
        let x = p[i];
        let y = p[j];
        assert(x != y);
        assert(rows.dc_to_mc@[x].0 != rows.dc_to_mc@[y].0);
        assert(s.contains(s[x]));
        assert(s.contains(s[y]));
        assert(s.contains((s[x].0, s[x].1)));
        assert(s.contains((s[y].0, s[y].1)));
        assert(t.dc_to_mc.contains_key(s[x].1));
        assert(t.dc_to_mc.contains_key(s[y].1));
    }
    accounts::lemma_rearranged_holds(s, a, p);
    assert forall|id: u64| #[trigger] accounts::mc_of(a, id) == records::value_at(
        t.dc_to_mc,
        id,
    ) by {
        accounts::lemma_mc_of_holds(a, id);
        if let Some(mc) = records::value_at(t.dc_to_mc, id) {
            assert(s.contains((mc, id)));
            accounts::lemma_entry_found(a, mc, id);
        }
        if let Some(mc) = accounts::mc_of(a, id) {
            assert(s.contains((mc, id)));
        }
    }
    assert forall|mc: Seq<char>| #[trigger] accounts::dc_of(a, mc) == records::value_at(
        t.mc_to_dc,
        mc,
    ) by {
        accounts::lemma_dc_of_holds(a, mc);
        if let Some(id) = records::value_at(t.mc_to_dc, mc) {
            assert(t.mc_to_dc.contains_key(mc));
            assert(s.contains((mc, id)));
            accounts::lemma_entry_found(a, mc, id);
        }
        if let Some(id) = accounts::dc_of(a, mc) {
            assert(s.contains((mc, id)));
            assert(t.dc_to_mc.contains_key(id));
        }
    }
    assert forall|id: u64| #[trigger] records::value_at(m.muted_users, id) == records::value_at(
        t.muted_users,
        id,
    ) by {
        lemma_map_of_rows(rows.muted_users@, id);
        if let Some(ts) = records::value_at(t.muted_users, id) {
            assert(rows.muted_users@.contains((id, ts)));
        } else {
            assert forall|i: int| 0 <= i < rows.muted_users@.len() implies (
            #[trigger] rows.muted_users@[i]).0 != id by {
                let row = rows.muted_users@[i];
                assert(rows.muted_users@.contains((row.0, row.1)));
            }
        }
    }
    assert forall|id: u64| m.muted_users.contains_key(id) <==> t.muted_users.contains_key(id) by {
        assert(records::value_at(m.muted_users, id) == records::value_at(t.muted_users, id));
    }
    assert forall|id: u64| #[trigger] m.muted_users.contains_key(id) implies m.muted_users[id]
        == t.muted_users[id] by {
        assert(records::value_at(m.muted_users, id) == records::value_at(t.muted_users, id));
    }
    assert(m.muted_users =~= t.muted_users);
}

/// A mute lasts for its time and no longer, one without end until it is lifted, and a lifted mute is
/// none.
pub proof fn law_mute_lasts(m: Memory, id: u64, duration_secs: u64, now: u64, later: u64)
    requires
        expiry_of(duration_secs, now) <= u64::MAX,
    ensures
        ({
            let expiry = expiry_of(duration_secs, now) as u64;
            let muted = Memory { muted_users: m.muted_users.insert(id, expiry), ..m };
            let lifted = Memory { muted_users: muted.muted_users.remove(id), ..muted };
            &&& mute_of(muted, id, later) is Some <==> duration_secs == 0 || later < now
                + duration_secs
            &&& mute_of(lifted, id, later) is None
        }),
{
}

/// The channel that the bridge is bound to, as the database has it.
pub open spec fn bound_channel(t: Tables) -> Option<u64> {
    match t.bridge {
        Some((channel_id, _, _)) => Some(channel_id),
        None => None,
    }
}

/// The bridge is bound to the channel that it was last bound to, or to none once it was unbound,
/// whatever else is written in between.
pub proof fn law_bridge_stays_bound(t: Tables, ws: Seq<RowWrite>)
    requires
        forall|i: int|
            0 <= i < ws.len() ==> !(#[trigger] ws[i] is PutBridge) && !(ws[i] is RemoveBridge),
    ensures
        bound_channel(tables::written_all(t, ws)) == bound_channel(t),
    decreases ws.len(),
{
    if ws.len() > 0 {
        assert forall|i: int| 0 <= i < ws.drop_last().len() implies !(
        #[trigger] ws.drop_last()[i] is PutBridge) && !(ws.drop_last()[i] is RemoveBridge) by {
            assert(ws.drop_last()[i] == ws[i]);
        }
        law_bridge_stays_bound(t, ws.drop_last());
        assert(ws.last() == ws[ws.len() - 1]);
    }
}

} // verus!
