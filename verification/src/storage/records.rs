//! What is recorded of each player, and how the records grow.

use crate::order;
use crate::order::{sort_stable, Order};
use crate::storage::tables;
use crate::storage::tables::{RowWrite, Tables};
use crate::text::same_text;
use crate::text_map::TextMap;
use vstd::prelude::*;

verus! {

/// The columns of a player's row, in order.
pub type PlayerStatsTuple = (u64, i64, i64, i64, u64, u64, u64, u64, u64);

/// What is recorded of a player.
#[derive(Debug, Clone, Copy, PartialEq)]
pub struct PlayerStats {
    pub total_play_time_secs: u64,
    pub first_login_ts: i64,
    pub last_login_ts: i64,
    pub last_logout_ts: i64,
    pub total_logins: u64,
    pub total_deaths: u64,
    pub total_advancements: u64,
    pub total_messages: u64,
    pub total_commands: u64,
}

/// What is recorded of a player of whom nothing is known.
pub open spec fn no_stats() -> PlayerStats {
    PlayerStats {
        total_play_time_secs: 0,
        first_login_ts: 0,
        last_login_ts: 0,
        last_logout_ts: 0,
        total_logins: 0,
        total_deaths: 0,
        total_advancements: 0,
        total_messages: 0,
        total_commands: 0,
    }
}

impl Default for PlayerStats {
    fn default() -> (r: Self)
        ensures
            r == no_stats(),
    {
        PlayerStats {
            total_play_time_secs: 0,
            first_login_ts: 0,
            last_login_ts: 0,
            last_logout_ts: 0,
            total_logins: 0,
            total_deaths: 0,
            total_advancements: 0,
            total_messages: 0,
            total_commands: 0,
        }
    }
}

impl PlayerStats {
    /// The columns that a record is kept in.
    pub open spec fn columns(self) -> PlayerStatsTuple {
        (
            self.total_play_time_secs,
            self.first_login_ts,
            self.last_login_ts,
            self.last_logout_ts,
            self.total_logins,
            self.total_deaths,
            self.total_advancements,
            self.total_messages,
            self.total_commands,
        )
    }

    /// Reads a record from its columns.
    pub fn from_tuple(v: PlayerStatsTuple) -> (r: Self)
        ensures
            r.columns() == v,
    {
        PlayerStats {
            total_play_time_secs: v.0,
            first_login_ts: v.1,
            last_login_ts: v.2,
            last_logout_ts: v.3,
            total_logins: v.4,
            total_deaths: v.5,
            total_advancements: v.6,
            total_messages: v.7,
            total_commands: v.8,
        }
    }

    /// Writes a record into its columns.
    pub fn to_tuple(&self) -> (r: PlayerStatsTuple)
        ensures
            r == self.columns(),
    {
        (
            self.total_play_time_secs,
            self.first_login_ts,
            self.last_login_ts,
            self.last_logout_ts,
            self.total_logins,
            self.total_deaths,
            self.total_advancements,
            self.total_messages,
            self.total_commands,
        )
    }
}

/// What has happened to a player since the last flush.
#[derive(Debug, Clone, Copy)]
pub struct PlayerDelta {
    pub messages: u64,
    pub commands: u64,
    pub deaths: u64,
    pub advancements: u64,
    pub play_time_secs: u64,
    pub last_login_ts: Option<i64>,
    pub last_logout_ts: Option<i64>,
    pub is_new_player: bool,
    pub total_logins_delta: u64,
}

/// Nothing has happened.
pub open spec fn no_delta() -> PlayerDelta {
    PlayerDelta {
        messages: 0,
        commands: 0,
        deaths: 0,
        advancements: 0,
        play_time_secs: 0,
        last_login_ts: None,
        last_logout_ts: None,
        is_new_player: false,
        total_logins_delta: 0,
    }
}

impl Default for PlayerDelta {
    fn default() -> (r: Self)
        ensures
            r == no_delta(),
    {
        PlayerDelta {
            messages: 0,
            commands: 0,
            deaths: 0,
            advancements: 0,
            play_time_secs: 0,
            last_login_ts: None,
            last_logout_ts: None,
            is_new_player: false,
            total_logins_delta: 0,
        }
    }
}

/// The seconds that a player played on a day.
#[derive(Debug, Clone)]
pub struct DailyTimeSplit {
    pub date: String,
    pub secs: u64,
}

/// No counter of the record grows beyond its range.
pub open spec fn delta_fits(s: PlayerStats, d: PlayerDelta) -> bool {
    &&& s.total_play_time_secs + d.play_time_secs <= u64::MAX
    &&& s.total_logins + d.total_logins_delta <= u64::MAX
    &&& s.total_deaths + d.deaths <= u64::MAX
    &&& s.total_advancements + d.advancements <= u64::MAX
    &&& s.total_messages + d.messages <= u64::MAX
    &&& s.total_commands + d.commands <= u64::MAX
}

/// A record after a delta: the counters grow by it, its times replace the earlier ones, and the
/// first login is set once.
pub open spec fn grown(s: PlayerStats, d: PlayerDelta) -> PlayerStats {
    PlayerStats {
        total_play_time_secs: (s.total_play_time_secs + d.play_time_secs) as u64,
        first_login_ts: if s.first_login_ts == 0 {
            match d.last_login_ts {
                Some(ts) => ts,
                None => 0,
            }
        } else {
            s.first_login_ts
        },
        last_login_ts: match d.last_login_ts {
            Some(ts) => ts,
            None => s.last_login_ts,
        },
        last_logout_ts: match d.last_logout_ts {
            Some(ts) => ts,
            None => s.last_logout_ts,
        },
        total_logins: (s.total_logins + d.total_logins_delta) as u64,
        total_deaths: (s.total_deaths + d.deaths) as u64,
        total_advancements: (s.total_advancements + d.advancements) as u64,
        total_messages: (s.total_messages + d.messages) as u64,
        total_commands: (s.total_commands + d.commands) as u64,
    }
}

/// The record that a delta makes of an earlier one; `None` where a counter would grow beyond its
/// range.
pub open spec fn stats_step(s: Option<PlayerStats>, d: PlayerDelta) -> Option<PlayerStats> {
    let before = match s {
        Some(s) => s,
        None => no_stats(),
    };
    if delta_fits(before, d) {
        Some(grown(before, d))
    } else {
        None
    }
}

/// Adds a delta to a record.
pub fn apply_player_delta(existing: Option<PlayerStats>, delta: &PlayerDelta) -> (r: Option<
    PlayerStats,
>)
    ensures
        r == stats_step(existing, *delta),
{
    let s = match existing {
        Some(s) => s,
        None => PlayerStats::default(),
    };
    let total_play_time_secs = s.total_play_time_secs.checked_add(delta.play_time_secs);
    let total_logins = s.total_logins.checked_add(delta.total_logins_delta);
    let total_deaths = s.total_deaths.checked_add(delta.deaths);
    let total_advancements = s.total_advancements.checked_add(delta.advancements);
    let total_messages = s.total_messages.checked_add(delta.messages);
    let total_commands = s.total_commands.checked_add(delta.commands);
    let first_login_ts: i64 = if s.first_login_ts == 0 {
        match delta.last_login_ts {
            Some(ts) => ts,
            None => 0,
        }
    } else {
        s.first_login_ts
    };
    let last_login_ts: i64 = match delta.last_login_ts {
        Some(ts) => ts,
        None => s.last_login_ts,
    };
    let last_logout_ts: i64 = match delta.last_logout_ts {
        Some(ts) => ts,
        None => s.last_logout_ts,
    };
    match (
        total_play_time_secs,
        total_logins,
        total_deaths,
        total_advancements,
        total_messages,
        total_commands,
    ) {
        (
            Some(total_play_time_secs),
            Some(total_logins),
            Some(total_deaths),
            Some(total_advancements),
            Some(total_messages),
            Some(total_commands),
        ) => Some(
            PlayerStats {
                total_play_time_secs,
                first_login_ts,
                last_login_ts,
                last_logout_ts,
                total_logins,
                total_deaths,
                total_advancements,
                total_messages,
                total_commands,
            },
        ),
        _ => None,
    }
}

/// The seconds of a day after more were played; `None` where they exceed the range.
pub open spec fn day_step(current: Option<u64>, secs: u64) -> Option<u64> {
    let before: u64 = match current {
        Some(n) => n,
        None => 0,
    };
    if before + secs <= u64::MAX {
        Some((before + secs) as u64)
    } else {
        None
    }
}

/// What a key holds.
pub open spec fn value_at<K, V>(m: Map<K, V>, k: K) -> Option<V> {
    if m.contains_key(k) {
        Some(m[k])
    } else {
        None
    }
}

/// The rows after each of the changes has taken its row a step further, in order; `None` where a
/// step fails.
pub open spec fn stepped<K, V, D>(
    m: Map<K, V>,
    changes: Seq<(K, D)>,
    step: spec_fn(Option<V>, D) -> Option<V>,
) -> Option<Map<K, V>>
    decreases changes.len(),
{
    if changes.len() == 0 {
        Some(m)
    } else {
        match stepped(m, changes.drop_last(), step) {
            Some(before) => {
                let (k, d) = changes.last();
                match step(value_at(before, k), d) {
                    Some(v) => Some(before.insert(k, v)),
                    None => None,
                }
            },
            None => None,
        }
    }
}

/// The two tables hold the same in every row that the changes are about.
pub open spec fn same_rows<K, V, D>(a: Map<K, V>, b: Map<K, V>, changes: Seq<(K, D)>) -> bool {
    forall|i: int|
        0 <= i < changes.len() ==> value_at(a, (#[trigger] changes[i]).0) == value_at(
            b,
            changes[i].0,
        )
}

/// Changes do the same to tables that hold the same in every row that a list of changes, of which
/// they are the first, is about.
proof fn lemma_stepped_same<K, V, D>(
    a: Map<K, V>,
    b: Map<K, V>,
    all: Seq<(K, D)>,
    n: int,
    step: spec_fn(Option<V>, D) -> Option<V>,
)
    requires
        0 <= n <= all.len(),
        same_rows(a, b, all),
    ensures
        stepped(a, all.take(n), step) is Some <==> stepped(b, all.take(n), step) is Some,
        stepped(a, all.take(n), step) is Some ==> same_rows(
            stepped(a, all.take(n), step)->0,
            stepped(b, all.take(n), step)->0,
            all,
        ),
    decreases n,
{
    if n > 0 {
        lemma_stepped_same(a, b, all, n - 1, step);
        assert(all.take(n).drop_last() =~= all.take(n - 1));
        assert(all.take(n).last() == all[n - 1]);
    }
}

/// A step that fails is not made up for by later ones.
pub proof fn lemma_stepped_fails<K, V, D>(
    m: Map<K, V>,
    changes: Seq<(K, D)>,
    n: int,
    step: spec_fn(Option<V>, D) -> Option<V>,
)
    requires
        0 <= n <= changes.len(),
        stepped(m, changes.take(n), step) is None,
    ensures
        stepped(m, changes, step) is None,
    decreases changes.len() - n,
{
    if n == changes.len() {
        assert(changes.take(n) =~= changes);
    } else {
        assert(changes.take(n + 1).drop_last() =~= changes.take(n));
        lemma_stepped_fails(m, changes, n + 1, step);
    }
}

/// The changes that deltas are.
pub open spec fn player_changes(deltas: Seq<(String, PlayerDelta)>) -> Seq<(Seq<char>, PlayerDelta)> {
    deltas.map_values(|e: (String, PlayerDelta)| (e.0@, e.1))
}

/// The changes that daily times are.
pub open spec fn day_changes(splits: Seq<(String, DailyTimeSplit)>) -> Seq<
    ((Seq<char>, Seq<char>), u64),
> {
    splits.map_values(|e: (String, DailyTimeSplit)| ((e.0@, e.1.date@), e.1.secs))
}

/// The players' rows after a flush.
pub open spec fn players_after(
    m: Map<Seq<char>, PlayerStats>,
    deltas: Seq<(String, PlayerDelta)>,
) -> Option<Map<Seq<char>, PlayerStats>> {
    stepped(m, player_changes(deltas), |s: Option<PlayerStats>, d: PlayerDelta| stats_step(s, d))
}

/// The days' rows after a flush.
pub open spec fn days_after(
    m: Map<(Seq<char>, Seq<char>), u64>,
    splits: Seq<(String, DailyTimeSplit)>,
) -> Option<Map<(Seq<char>, Seq<char>), u64>> {
    stepped(m, day_changes(splits), |n: Option<u64>, secs: u64| day_step(n, secs))
}

/// Seconds played, by player and day.
pub struct DayTimes {
    by_uuid: TextMap<TextMap<u64>>,
}

impl View for DayTimes {
    type V = Map<(Seq<char>, Seq<char>), u64>;

    closed spec fn view(&self) -> Map<(Seq<char>, Seq<char>), u64> {
        Map::new(
            |k: (Seq<char>, Seq<char>)|
                self.by_uuid@.contains_key(k.0) && self.by_uuid@[k.0]@.contains_key(k.1),
            |k: (Seq<char>, Seq<char>)| self.by_uuid@[k.0]@[k.1],
        )
    }
}

impl DayTimes {
    /// The maps are well formed.
    pub closed spec fn wf(self) -> bool {
        &&& self.by_uuid.wf()
        &&& forall|u: Seq<char>| #[trigger] self.by_uuid@.contains_key(u) ==> self.by_uuid@[u].wf()
    }

    /// Nobody has played.
    pub fn new() -> (r: Self)
        ensures
            r.wf(),
            r@ == Map::<(Seq<char>, Seq<char>), u64>::empty(),
    {
        let r = DayTimes { by_uuid: TextMap::new() };
        assert(r@ =~= Map::<(Seq<char>, Seq<char>), u64>::empty());
        r
    }

    /// The seconds that a player played on a day, where there is a row for them.
    pub fn get(&self, uuid: &str, date: &str) -> (r: Option<u64>)
        requires
            self.wf(),
        ensures
            r == value_at(self@, (uuid@, date@)),
    {
        match self.by_uuid.get(uuid) {
            Some(days) => match days.get(date) {
                Some(secs) => Some(*secs),
                None => None,
            },
            None => None,
        }
    }

    /// Sets the seconds that a player played on a day.
    pub fn put(&mut self, uuid: &str, date: &str, secs: u64)
        requires
            old(self).wf(),
        ensures
            final(self).wf(),
            final(self)@ == old(self)@.insert((uuid@, date@), secs),
    {
        let ghost before = self@;
        let ghost outer = self.by_uuid@;
        let mut days = match self.by_uuid.remove(uuid) {
            Some(days) => days,
            None => TextMap::new(),
        };
        let ghost inner = days@;
        days.insert(date.to_owned(), secs);
        let ghost inner_after = days@;
        self.by_uuid.insert(uuid.to_owned(), days);
        proof {
            assert(self.by_uuid@ == outer.remove(uuid@).insert(uuid@, days));
            assert forall|k: (Seq<char>, Seq<char>)| #[trigger]
                self@.contains_key(k) <==> before.insert((uuid@, date@), secs).contains_key(k) by {
                if k.0 == uuid@ && outer.contains_key(uuid@) {
                    assert(outer[uuid@]@ == inner);
                }
            }
            assert(self@ =~= before.insert((uuid@, date@), secs));
        }
    }
}

/// Turns a flush into the changes of a transaction. `stored` and `stored_days` are the rows, as
/// they stand, of the players and days that the flush is about. Where a counter would grow beyond
/// its range, there is no transaction.
pub fn write_player_deltas(
    stored: TextMap<PlayerStats>,
    stored_days: DayTimes,
    deltas: &[(String, PlayerDelta)],
    daily_splits: &[(String, DailyTimeSplit)],
) -> (r: Option<Vec<RowWrite>>)
    requires
        stored.wf(),
        stored_days.wf(),
    ensures
        r is Some <==> players_after(stored@, deltas@) is Some && days_after(
            stored_days@,
            daily_splits@,
        ) is Some,
        r matches Some(ws) ==> forall|t: Tables|
            same_rows(t.players, stored@, player_changes(deltas@)) && same_rows(
                t.daily_play_time,
                stored_days@,
                day_changes(daily_splits@),
            ) ==> #[trigger] tables::written_all(t, ws@) == (Tables {
                players: players_after(t.players, deltas@)->0,
                daily_play_time: days_after(t.daily_play_time, daily_splits@)->0,
                ..t
            }),
{
    let mut rows = stored;
    let mut days = stored_days;
    let mut ws: Vec<RowWrite> = Vec::new();
    let ghost step = |s: Option<PlayerStats>, d: PlayerDelta| stats_step(s, d);
    let ghost dstep = |n: Option<u64>, secs: u64| day_step(n, secs);
    let ghost pc = player_changes(deltas@);
    let ghost dc = day_changes(daily_splits@);
    let mut i: usize = 0;
    while i < deltas.len()
        invariant
            i <= deltas@.len(),
            step == (|s: Option<PlayerStats>, d: PlayerDelta| stats_step(s, d)),
            pc == player_changes(deltas@),
            rows.wf(),
            stepped(stored@, pc.take(i as int), step) == Some(rows@),
            forall|t: Tables|
                same_rows(t.players, stored@, pc) ==> #[trigger] tables::written_all(t, ws@) == (
                Tables { players: stepped(t.players, pc.take(i as int), step)->0, ..t }),
        decreases deltas@.len() - i,
    {
        let uuid = &deltas[i].0;
        let existing = match rows.get(uuid.as_str()) {
            Some(s) => Some(*s),
            None => None,
        };
        let ghost ws0 = ws@;
        proof {
            assert(pc.take(i + 1).drop_last() =~= pc.take(i as int));
            assert(pc.take(i + 1).last() == (uuid@, deltas@[i as int].1));
        }
        match apply_player_delta(existing, &deltas[i].1) {
            Some(stats) => {
                rows.insert(uuid.clone(), stats);
                let w = RowWrite::PutPlayer { uuid: uuid.clone(), stats };
                ws.push(w);
                proof {
                    assert forall|t: Tables|
                        same_rows(t.players, stored@, pc) implies #[trigger] tables::written_all(
                        t,
                        ws@,
                    ) == (Tables {
                        players: stepped(t.players, pc.take(i + 1), step)->0,
                        ..t
                    }) by {
                        tables::lemma_written_push(t, ws0, w);
                        lemma_stepped_same(t.players, stored@, pc, i as int, step);
                        assert(pc[i as int].0 == uuid@);
                    }
                }
            },
            None => {
                proof {
                    lemma_stepped_fails(stored@, pc, i + 1, step);
                }
                return None;
            },
        }
        i = i + 1;
    }
    proof {
        assert(pc.take(i as int) =~= pc);
        assert(dc.take(0) =~= Seq::<((Seq<char>, Seq<char>), u64)>::empty());
    }
    let ghost ws1 = ws@;
    let mut j: usize = 0;
    while j < daily_splits.len()
        invariant
            j <= daily_splits@.len(),
            step == (|s: Option<PlayerStats>, d: PlayerDelta| stats_step(s, d)),
            dstep == (|n: Option<u64>, secs: u64| day_step(n, secs)),
            pc == player_changes(deltas@),
            dc == day_changes(daily_splits@),
            days.wf(),
            stepped(stored@, pc, step) is Some,
            stepped(stored_days@, dc.take(j as int), dstep) == Some(days@),
            forall|t: Tables|
                same_rows(t.players, stored@, pc) && same_rows(
                    t.daily_play_time,
                    stored_days@,
                    dc,
                ) ==> #[trigger] tables::written_all(t, ws@) == (Tables {
                    players: stepped(t.players, pc, step)->0,
                    daily_play_time: stepped(t.daily_play_time, dc.take(j as int), dstep)->0,
                    ..t
                }),
        decreases daily_splits@.len() - j,
    {
        let uuid = &daily_splits[j].0;
        let split = &daily_splits[j].1;
        let current: u64 = match days.get(uuid.as_str(), split.date.as_str()) {
            Some(n) => n,
            None => 0,
        };
        let ghost ws0 = ws@;
        proof {
            assert(dc.take(j + 1).drop_last() =~= dc.take(j as int));
            assert(dc.take(j + 1).last() == ((uuid@, split.date@), split.secs));
        }
        match current.checked_add(split.secs) {
            Some(secs) => {
                days.put(uuid.as_str(), split.date.as_str(), secs);
                let w = RowWrite::PutDailyPlayTime {
                    uuid: uuid.clone(),
                    date: split.date.clone(),
                    secs,
                };
                ws.push(w);
                proof {
                    assert forall|t: Tables|
                        same_rows(t.players, stored@, pc) && same_rows(
                            t.daily_play_time,
                            stored_days@,
                            dc,
                        ) implies #[trigger] tables::written_all(t, ws@) == (Tables {
                        players: stepped(t.players, pc, step)->0,
                        daily_play_time: stepped(t.daily_play_time, dc.take(j + 1), dstep)->0,
                        ..t
                    }) by {
                        tables::lemma_written_push(t, ws0, w);
                        lemma_stepped_same(t.daily_play_time, stored_days@, dc, j as int, dstep);
                        assert(dc[j as int].0 == (uuid@, split.date@));
                    }
                }
            },
            None => {
                proof {
                    lemma_stepped_fails(stored_days@, dc, j + 1, dstep);
                }
                return None;
            },
        }
        j = j + 1;
    }
    proof {
        assert(dc.take(j as int) =~= dc);
    }
    Some(ws)
}

/// Changes leave the rows of which they do not tell as they are.
proof fn lemma_stepped_others<K, V, D>(
    m: Map<K, V>,
    changes: Seq<(K, D)>,
    step: spec_fn(Option<V>, D) -> Option<V>,
    k: K,
)
    requires
        stepped(m, changes, step) is Some,
        forall|i: int| 0 <= i < changes.len() ==> (#[trigger] changes[i]).0 != k,
    ensures
        value_at(stepped(m, changes, step)->0, k) == value_at(m, k),
    decreases changes.len(),
{
    if changes.len() > 0 {
        assert forall|i: int| 0 <= i < changes.drop_last().len() implies (
        #[trigger] changes.drop_last()[i]).0 != k by {
            assert(changes.drop_last()[i] == changes[i]);
        }
        lemma_stepped_others(m, changes.drop_last(), step, k);
        assert(changes.last() == changes[changes.len() - 1]);
    }
}

/// A flush leaves the records of all other players as they are.
pub proof fn law_flush_leaves_other_players(
    m: Map<Seq<char>, PlayerStats>,
    deltas: Seq<(String, PlayerDelta)>,
    uuid: Seq<char>,
)
    requires
        players_after(m, deltas) is Some,
        forall|i: int| 0 <= i < deltas.len() ==> (#[trigger] deltas[i]).0@ != uuid,
    ensures
        value_at(players_after(m, deltas)->0, uuid) == value_at(m, uuid),
{
    let changes = player_changes(deltas);
    assert forall|i: int| 0 <= i < changes.len() implies (#[trigger] changes[i]).0 != uuid by {
        assert(deltas[i].0@ != uuid);
    }
    lemma_stepped_others(
        m,
        changes,
        |s: Option<PlayerStats>, d: PlayerDelta| stats_step(s, d),
        uuid,
    );
}

/// A flush never loses a player, never makes a counter smaller, and leaves the first login, once
/// there is one, as it is.
pub proof fn law_records_only_grow(
    m: Map<Seq<char>, PlayerStats>,
    deltas: Seq<(String, PlayerDelta)>,
    uuid: Seq<char>,
)
    requires
        players_after(m, deltas) is Some,
        m.contains_key(uuid),
    ensures
        players_after(m, deltas)->0.contains_key(uuid),
        ({
            let before = m[uuid];
            let after = (players_after(m, deltas)->0)[uuid];
            &&& after.total_play_time_secs >= before.total_play_time_secs
            &&& after.total_logins >= before.total_logins
            &&& after.total_deaths >= before.total_deaths
            &&& after.total_advancements >= before.total_advancements
            &&& after.total_messages >= before.total_messages
            &&& after.total_commands >= before.total_commands
            &&& before.first_login_ts != 0 ==> after.first_login_ts == before.first_login_ts
        }),
    decreases deltas.len(),
{
    if deltas.len() > 0 {
        assert(player_changes(deltas).drop_last() =~= player_changes(deltas.drop_last()));
        law_records_only_grow(m, deltas.drop_last(), uuid);
    }
}

/// What the deltas of a player come to, added up by `part`.
pub open spec fn added(
    deltas: Seq<(String, PlayerDelta)>,
    uuid: Seq<char>,
    part: spec_fn(PlayerDelta) -> nat,
) -> nat
    decreases deltas.len(),
{
    if deltas.len() == 0 {
        0
    } else {
        added(deltas.drop_last(), uuid, part) + if deltas.last().0@ == uuid {
            part(deltas.last().1)
        } else {
            0
        }
    }
}

/// What is recorded of a player, or nothing.
pub open spec fn record_of(m: Map<Seq<char>, PlayerStats>, uuid: Seq<char>) -> PlayerStats {
    match value_at(m, uuid) {
        Some(s) => s,
        None => no_stats(),
    }
}

/// A flush counts everything that has happened to a player, once.
pub proof fn law_flush_counts_everything(
    m: Map<Seq<char>, PlayerStats>,
    deltas: Seq<(String, PlayerDelta)>,
    uuid: Seq<char>,
)
    requires
        players_after(m, deltas) is Some,
    ensures
        ({
            let before = record_of(m, uuid);
            let after = record_of(players_after(m, deltas)->0, uuid);
            &&& after.total_play_time_secs == before.total_play_time_secs + added(
                deltas,
                uuid,
                |d: PlayerDelta| d.play_time_secs as nat,
            )
            &&& after.total_logins == before.total_logins + added(
                deltas,
                uuid,
                |d: PlayerDelta| d.total_logins_delta as nat,
            )
            &&& after.total_deaths == before.total_deaths + added(
                deltas,
                uuid,
                |d: PlayerDelta| d.deaths as nat,
            )
            &&& after.total_advancements == before.total_advancements + added(
                deltas,
                uuid,
                |d: PlayerDelta| d.advancements as nat,
            )
            &&& after.total_messages == before.total_messages + added(
                deltas,
                uuid,
                |d: PlayerDelta| d.messages as nat,
            )
            &&& after.total_commands == before.total_commands + added(
                deltas,
                uuid,
                |d: PlayerDelta| d.commands as nat,
            )
        }),
    decreases deltas.len(),
{
    if deltas.len() > 0 {
        assert(player_changes(deltas).drop_last() =~= player_changes(deltas.drop_last()));
        law_flush_counts_everything(m, deltas.drop_last(), uuid);
    }
}

/// The seconds that are added to a day of a player.
pub open spec fn added_on(
    splits: Seq<(String, DailyTimeSplit)>,
    uuid: Seq<char>,
    date: Seq<char>,
) -> nat
    decreases splits.len(),
{
    if splits.len() == 0 {
        0
    } else {
        let (u, split) = splits.last();
        added_on(splits.drop_last(), uuid, date) + if u@ == uuid && split.date@ == date {
            split.secs as nat
        } else {
            0
        }
    }
}

/// A flush counts all seconds of a player's day, once.
pub proof fn law_flush_counts_days(
    m: Map<(Seq<char>, Seq<char>), u64>,
    splits: Seq<(String, DailyTimeSplit)>,
    uuid: Seq<char>,
    date: Seq<char>,
)
    requires
        days_after(m, splits) is Some,
    ensures
        secs_on(days_after(m, splits)->0, uuid, date) == secs_on(m, uuid, date) + added_on(
            splits,
            uuid,
            date,
        ),
    decreases splits.len(),
{
    if splits.len() > 0 {
        assert(day_changes(splits).drop_last() =~= day_changes(splits.drop_last()));
        law_flush_counts_days(m, splits.drop_last(), uuid, date);
    }
}

/// The order of play time, the longest first.
pub struct LongestFirst;

impl Order<(String, PlayerStats)> for LongestFirst {
    open spec fn before(a: (String, PlayerStats), b: (String, PlayerStats)) -> bool {
        a.1.total_play_time_secs > b.1.total_play_time_secs
    }

    proof fn one_way(a: (String, PlayerStats), b: (String, PlayerStats)) {
    }

    proof fn chain(a: (String, PlayerStats), b: (String, PlayerStats), c: (String, PlayerStats)) {
    }

    fn ranks_before(a: &(String, PlayerStats), b: &(String, PlayerStats)) -> (r: bool) {
        a.1.total_play_time_secs > b.1.total_play_time_secs
    }
}

/// Puts the rows of all players in the order of their play time, the longest first; players of
/// equal time stay in the order of the rows.
pub fn read_all_player_stats(rows: Vec<(String, PlayerStats)>) -> (r: Vec<(String, PlayerStats)>)
    ensures
        order::sorted_from::<(String, PlayerStats), LongestFirst>(rows@, r@),
{
    sort_stable::<(String, PlayerStats), LongestFirst>(rows)
}

/// `i` is the first row that holds the UUID.
pub open spec fn first_row_with(rows: Seq<(String, String)>, uuid: Seq<char>, i: int) -> bool {
    &&& 0 <= i < rows.len()
    &&& rows[i].1@ == uuid
    &&& forall|j: int| 0 <= j < i ==> (#[trigger] rows[j]).1@ != uuid
}

/// `name` is that of the first player, in the order of the rows, who has the UUID; there is none
/// where nobody has.
pub open spec fn is_name_of(
    rows: Seq<(String, String)>,
    uuid: Seq<char>,
    name: Option<String>,
) -> bool {
    match name {
        Some(name) => exists|i: int|
            #![trigger first_row_with(rows, uuid, i)]
            first_row_with(rows, uuid, i) && rows[i].0@ == name@,
        None => forall|i: int| 0 <= i < rows.len() ==> (#[trigger] rows[i]).1@ != uuid,
    }
}

/// Finds the name of the first player, in the order of the rows, who has the UUID.
pub fn reverse_resolve_uuid(rows: &[(String, String)], uuid: &str) -> (r: Option<String>)
    ensures
        is_name_of(rows@, uuid@, r),
{
    let mut i: usize = 0;
    while i < rows.len()
        invariant
            i <= rows@.len(),
            forall|j: int| 0 <= j < i ==> (#[trigger] rows@[j]).1@ != uuid@,
        decreases rows@.len() - i,
    {
        if same_text(rows[i].1.as_str(), uuid) {
            assert(first_row_with(rows@, uuid@, i as int));
            return Some(rows[i].0.clone());
        }
        i = i + 1;
    }
    None
}

/// The players, in order, each with the name that the UUID has.
pub open spec fn named_from(
    players: Seq<(String, PlayerStats)>,
    names: Seq<(String, String)>,
    r: Seq<(String, Option<String>, PlayerStats)>,
) -> bool {
    r.len() == players.len() && forall|i: int|
        0 <= i < r.len() ==> (#[trigger] r[i]).0@ == players[i].0@ && r[i].2 == players[i].1
            && is_name_of(names, r[i].0@, r[i].1)
}

/// All stored players, each with the name that the UUID has, in the order of their play time, the
/// longest first; players of equal time are left in the order of the rows.
pub open spec fn lists_all(
    stored: Seq<(String, PlayerStats)>,
    names: Seq<(String, String)>,
    r: Seq<(String, Option<String>, PlayerStats)>,
) -> bool {
    exists|sorted: Seq<(String, PlayerStats)>|
        #![trigger named_from(sorted, names, r)]
        order::sorted_from::<(String, PlayerStats), LongestFirst>(stored, sorted) && named_from(
            sorted,
            names,
            r,
        )
}

/// The list of all players has one entry for each that is stored, and nobody has played longer than
/// one who comes earlier.
pub proof fn law_players_come_by_play_time(
    stored: Seq<(String, PlayerStats)>,
    names: Seq<(String, String)>,
    all: Seq<(String, Option<String>, PlayerStats)>,
    i: int,
    j: int,
)
    requires
        lists_all(stored, names, all),
        0 <= i < j < all.len(),
    ensures
        all.len() == stored.len(),
        all[i].2.total_play_time_secs >= all[j].2.total_play_time_secs,
{
    let sorted = choose|sorted: Seq<(String, PlayerStats)>|
        #![trigger named_from(sorted, names, all)]
        order::sorted_from::<(String, PlayerStats), LongestFirst>(stored, sorted) && named_from(
            sorted,
            names,
            all,
        );
    let p = choose|p: Seq<int>|
        order::arranged::<(String, PlayerStats), LongestFirst>(stored, sorted, p);
    assert(sorted[i] == stored[p[i]] && sorted[j] == stored[p[j]]);
    assert(all[i].2 == sorted[i].1 && all[j].2 == sorted[j].1);
}

/// Adds to each player the name that the UUID has.
pub fn with_names(players: &[(String, PlayerStats)], names: &[(String, String)]) -> (r: Vec<
    (String, Option<String>, PlayerStats),
>)
    ensures
        named_from(players@, names@, r@),
{
    let mut out: Vec<(String, Option<String>, PlayerStats)> = Vec::new();
    let mut i: usize = 0;
    while i < players.len()
        invariant
            i <= players@.len(),
            named_from(players@.take(i as int), names@, out@),
        decreases players@.len() - i,
    {
        let name = reverse_resolve_uuid(names, players[i].0.as_str());
        out.push((players[i].0.clone(), name, players[i].1));
        i = i + 1;
    }
    assert(players@.take(i as int) =~= players@);
    out
}

/// The seconds played on a day, 0 where there is no row.
pub open spec fn secs_on(
    days: Map<(Seq<char>, Seq<char>), u64>,
    uuid: Seq<char>,
    date: Seq<char>,
) -> u64 {
    match value_at(days, (uuid, date)) {
        Some(secs) => secs,
        None => 0,
    }
}

/// Reads the seconds that a player played on each of the days; nothing where there is no table.
pub fn read_recent_play_time(table: Option<&DayTimes>, uuid: &str, dates: &[String]) -> (r: Vec<
    (String, u64),
>)
    requires
        table matches Some(days) ==> days.wf(),
    ensures
        match table {
            Some(days) => {
                &&& r@.len() == dates@.len()
                &&& forall|i: int|
                    0 <= i < r@.len() ==> (#[trigger] r@[i]).0@ == dates@[i]@ && r@[i].1 == secs_on(
                        days@,
                        uuid@,
                        dates@[i]@,
                    )
            },
            None => r@.len() == 0,
        },
{
    let mut out: Vec<(String, u64)> = Vec::new();
    let days = match table {
        Some(days) => days,
        None => return out,
    };
    let mut i: usize = 0;
    while i < dates.len()
        invariant
            days.wf(),
            i <= dates@.len(),
            out@.len() == i,
            forall|j: int|
                0 <= j < i ==> (#[trigger] out@[j]).0@ == dates@[j]@ && out@[j].1 == secs_on(
                    days@,
                    uuid@,
                    dates@[j]@,
                ),
        decreases dates@.len() - i,
    {
        let secs: u64 = match days.get(uuid, dates[i].as_str()) {
            Some(n) => n,
            None => 0,
        };
        out.push((dates[i].clone(), secs));
        i = i + 1;
    }
    out
}

} // verus!
