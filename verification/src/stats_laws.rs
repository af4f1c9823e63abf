//! What holds of the statistics over several events.

use crate::log_parser::{StatsEvent, StatsEventView};
use crate::stats;
use crate::stats::{Greeting, PendingState, StateView, StatsTracker, Timezone, TrackerAction};
use crate::storage::records;
use crate::storage::records::{DailyTimeSplit, PlayerDelta, PlayerStats};
use crate::text;
use vstd::prelude::*;
use vstd::string::*;

verus! {

/// An event, what was recorded of the player when it came, and the second at which it came.
pub struct Step {
    pub event: StatsEventView,
    pub existing: Option<PlayerStats>,
    pub now: i64,
}

/// The state once the events have come, in order; `None` where one could not be counted.
pub open spec fn after_steps(v: StateView, steps: Seq<Step>, zone: Seq<char>) -> Option<StateView>
    decreases steps.len(),
{
    if steps.len() == 0 {
        Some(v)
    } else {
        match after_steps(v, steps.drop_last(), zone) {
            Some(w) => stats::state_after(
                w,
                steps.last().event,
                steps.last().existing,
                steps.last().now,
                zone,
            ),
            None => None,
        }
    }
}

/// The event is not about the player, does not give the player's key to someone else, and is not the
/// stop of the server.
pub open spec fn is_of_others(e: StatsEventView, username: Seq<char>, key: Seq<char>) -> bool {
    match e {
        StatsEventView::UuidResolved { username: other, uuid } => other != username && uuid != key,
        StatsEventView::Join { username: other } => other != username,
        StatsEventView::Leave { username: other } => other != username,
        StatsEventView::Disconnect { username: other, .. } => other != username,
        StatsEventView::Death { username: other } => other != username,
        StatsEventView::Advancement { username: other, .. } => other != username,
        StatsEventView::Chat { username: other } => other != username,
        StatsEventView::Command { username: other } => other != username,
        StatsEventView::ServerStart => true,
        StatsEventView::ServerStop => false,
    }
}

/// Nobody else is recorded under the key of the player.
pub open spec fn has_own_key(v: StateView, username: Seq<char>, key: Seq<char>) -> bool {
    &&& stats::recorded_as(v, username) == key
    &&& forall|other: Seq<char>|
        other != username ==> #[trigger] stats::recorded_as(v, other) != key
}

/// The two states hold the same of a player.
pub open spec fn same_for(v: StateView, w: StateView, username: Seq<char>, key: Seq<char>) -> bool {
    &&& v.sessions.contains_key(username) == w.sessions.contains_key(username)
    &&& v.sessions[username] == w.sessions[username]
    &&& stats::delta_of(v, key) == stats::delta_of(w, key)
}

/// An event of someone else leaves what is held of a player as it is.
pub proof fn law_events_leave_others_alone(
    v: StateView,
    step: Step,
    username: Seq<char>,
    key: Seq<char>,
    zone: Seq<char>,
)
    requires
        has_own_key(v, username, key),
        is_of_others(step.event, username, key),
        stats::state_after(v, step.event, step.existing, step.now, zone) is Some,
    ensures
        ({
            let w = stats::state_after(v, step.event, step.existing, step.now, zone)->0;
            has_own_key(w, username, key) && same_for(v, w, username, key)
        }),
{
    let w = stats::state_after(v, step.event, step.existing, step.now, zone)->0;
    match step.event {
        StatsEventView::UuidResolved { username: other, uuid } => {
            assert forall|name: Seq<char>| name != username implies #[trigger] stats::recorded_as(
                w,
                name,
            ) != key by {
                assert(stats::recorded_as(v, name) != key);
            }
            assert(stats::recorded_as(w, username) == stats::recorded_as(v, username));
            assert(stats::delta_of(w, key) == stats::delta_of(v, key));
        },
        _ => {
            assert(w.uuids == v.uuids);
            assert forall|name: Seq<char>| #[trigger]
                stats::recorded_as(w, name) == stats::recorded_as(v, name) by {}
            assert(stats::recorded_as(w, username) == key);
            assert forall|other: Seq<char>, sessions: Map<Seq<char>, i64>|
                other != username implies #[trigger] stats::recorded_as(
                StateView { sessions, ..v },
                other,
            ) != key by {
                assert(stats::recorded_as(v, other) != key);
            }
            assert(stats::delta_of(w, key) == stats::delta_of(v, key));
        },
    }
}

/// The events of others leave what is held of a player as it is, however many they are.
pub proof fn law_many_events_leave_others_alone(
    v: StateView,
    steps: Seq<Step>,
    username: Seq<char>,
    key: Seq<char>,
    zone: Seq<char>,
)
    requires
        has_own_key(v, username, key),
        forall|i: int|
            0 <= i < steps.len() ==> is_of_others((#[trigger] steps[i]).event, username, key),
        after_steps(v, steps, zone) is Some,
    ensures
        has_own_key(after_steps(v, steps, zone)->0, username, key),
        same_for(v, after_steps(v, steps, zone)->0, username, key),
    decreases steps.len(),
{
    if steps.len() > 0 {
        law_many_events_leave_others_alone(v, steps.drop_last(), username, key, zone);
        let w = after_steps(v, steps.drop_last(), zone)->0;
        law_events_leave_others_alone(w, steps.last(), username, key, zone);
    }
}

/// The event is that the player parts: leaves the game or loses the connection.
pub open spec fn is_parting(e: StatsEventView, username: Seq<char>) -> bool {
    ||| e == (StatsEventView::Leave { username })
    ||| e matches StatsEventView::Disconnect { username: who, .. } && who == username
}

/// From when a player comes until the player parts, in either way and whatever others do meanwhile,
/// the seconds are counted: the player is no longer playing, the play time has grown by exactly the
/// seconds in between, the last login and the last logout are the two seconds, there is one login
/// more, nothing else of the player has changed, and what has happened is written at once.
proof fn lemma_sessions_are_counted(
    v: StateView,
    username: Seq<char>,
    key: Seq<char>,
    existing: Option<PlayerStats>,
    start: i64,
    between: Seq<Step>,
    parting: StatsEventView,
    record: Option<PlayerStats>,
    end: i64,
    zone: Seq<char>,
)
    requires
        has_own_key(v, username, key),
        forall|i: int|
            0 <= i < between.len() ==> is_of_others((#[trigger] between[i]).event, username, key),
        is_parting(parting, username),
        start <= end,
        ({
            let came = seq![Step { event: StatsEventView::Join { username }, existing, now: start }];
            let steps = came + between;
            let parts = Step { event: parting, existing: record, now: end };
            after_steps(v, steps.push(parts), zone) is Some
        }),
    ensures
        ({
            let came = seq![Step { event: StatsEventView::Join { username }, existing, now: start }];
            let before = after_steps(v, came + between, zone)->0;
            let parts = Step { event: parting, existing: record, now: end };
            let after = after_steps(v, (came + between).push(parts), zone)->0;
            let old_delta = stats::delta_of(v, key);
            let new_delta = stats::delta_of(after, key);
            &&& before.sessions.contains_key(username)
            &&& !after.sessions.contains_key(username)
            &&& new_delta.play_time_secs == old_delta.play_time_secs + (end - start)
            &&& new_delta.last_login_ts == Some(start)
            &&& new_delta.last_logout_ts == Some(end)
            &&& new_delta.total_logins_delta == old_delta.total_logins_delta + 1
            &&& new_delta.is_new_player == (existing is None)
            &&& new_delta.messages == old_delta.messages
            &&& new_delta.commands == old_delta.commands
            &&& new_delta.deaths == old_delta.deaths
            &&& new_delta.advancements == old_delta.advancements
            &&& forall|a: TrackerAction| #[trigger]
                stats::answers(a, before, parting, record, end, zone) ==> a is Flush
        }),
{
    let join = Step { event: StatsEventView::Join { username }, existing, now: start };
    let came = seq![join];
    let steps = came + between;
    let parts = Step { event: parting, existing: record, now: end };
    assert(steps.push(parts).drop_last() =~= steps);
    lemma_steps_split(v, came, between, zone);
    assert(came.drop_last() =~= Seq::<Step>::empty());
    assert(after_steps(v, came.drop_last(), zone) == Some(v));
    let w = after_steps(v, came, zone)->0;
    assert(after_steps(v, came, zone) == stats::state_after(v, join.event, existing, start, zone));
    assert forall|other: Seq<char>| #[trigger]
        stats::recorded_as(w, other) == stats::recorded_as(v, other) by {}
    assert(has_own_key(w, username, key));
    law_many_events_leave_others_alone(w, between, username, key, zone);
}

/// Events that come after others are counted where the others have led.
proof fn lemma_steps_split(v: StateView, first: Seq<Step>, then: Seq<Step>, zone: Seq<char>)
    ensures
        after_steps(v, first + then, zone) == match after_steps(v, first, zone) {
            Some(w) => after_steps(w, then, zone),
            None => None,
        },
    decreases then.len(),
{
    if then.len() == 0 {
        assert(first + then =~= first);
    } else {
        lemma_steps_split(v, first, then.drop_last(), zone);
        assert((first + then).drop_last() =~= first + then.drop_last());
        assert((first + then).last() == then.last());
    }
}

/// One who parts without playing changes nothing, and nothing is written.
proof fn lemma_parting_twice_counts_once(
    v: StateView,
    username: Seq<char>,
    parting: StatsEventView,
    record: Option<PlayerStats>,
    end: i64,
    zone: Seq<char>,
)
    requires
        is_parting(parting, username),
        !v.sessions.contains_key(username),
    ensures
        stats::state_after(v, parting, record, end, zone) == Some(v),
        forall|a: TrackerAction| #[trigger]
            stats::answers(a, v, parting, record, end, zone) ==> a is Nothing,
{
}

/// How the counters of a player have grown.
pub open spec fn grew_by(
    old_delta: PlayerDelta,
    new_delta: PlayerDelta,
    deaths: int,
    advancements: int,
    messages: int,
    commands: int,
) -> bool {
    &&& new_delta.deaths == old_delta.deaths + deaths
    &&& new_delta.advancements == old_delta.advancements + advancements
    &&& new_delta.messages == old_delta.messages + messages
    &&& new_delta.commands == old_delta.commands + commands
    &&& new_delta.play_time_secs == old_delta.play_time_secs
    &&& new_delta.last_login_ts == old_delta.last_login_ts
    &&& new_delta.last_logout_ts == old_delta.last_logout_ts
    &&& new_delta.total_logins_delta == old_delta.total_logins_delta
    &&& new_delta.is_new_player == old_delta.is_new_player
}

/// A death, an advancement, a message and a command are each counted once, as what they are, for the
/// player, and change nothing else; they can be counted as long as the counter is in its range, and
/// call for nothing to be done.
proof fn lemma_each_thing_is_counted(
    v: StateView,
    e: StatsEventView,
    username: Seq<char>,
    existing: Option<PlayerStats>,
    now: i64,
    zone: Seq<char>,
)
    requires
        ({
            ||| e == (StatsEventView::Death { username })
            ||| e matches StatsEventView::Advancement { username: who, .. } && who == username
            ||| e == (StatsEventView::Chat { username })
            ||| e == (StatsEventView::Command { username })
        }),
    ensures
        ({
            let key = stats::recorded_as(v, username);
            let d = stats::delta_of(v, key);
            &&& stats::state_after(v, e, existing, now, zone) is Some == (match e {
                StatsEventView::Death { .. } => d.deaths,
                StatsEventView::Advancement { .. } => d.advancements,
                StatsEventView::Chat { .. } => d.messages,
                _ => d.commands,
            } < u64::MAX)
            &&& stats::state_after(v, e, existing, now, zone) matches Some(w) ==> {
                &&& w.uuids == v.uuids
                &&& w.sessions == v.sessions
                &&& w.daily == v.daily
                &&& forall|other: Seq<char>|
                    other != key ==> #[trigger] stats::delta_of(w, other) == stats::delta_of(
                        v,
                        other,
                    )
                &&& grew_by(
                    d,
                    stats::delta_of(w, key),
                    if e is Death { 1 } else { 0 },
                    if e is Advancement { 1 } else { 0 },
                    if e is Chat { 1 } else { 0 },
                    if e is Command { 1 } else { 0 },
                )
            }
            &&& forall|a: TrackerAction| #[trigger]
                stats::answers(a, v, e, existing, now, zone) ==> a is Nothing
        }),
{
}

/// A player who has come plays from that second on; others play on as they did. The login can be
/// counted as long as the counter is in its range.
proof fn lemma_players_who_come_are_playing(
    v: StateView,
    username: Seq<char>,
    existing: Option<PlayerStats>,
    now: i64,
    zone: Seq<char>,
)
    ensures
        ({
            let e = StatsEventView::Join { username };
            let key = stats::recorded_as(v, username);
            let d = stats::delta_of(v, key);
            &&& stats::state_after(v, e, existing, now, zone) is Some == (d.total_logins_delta
                < u64::MAX)
            &&& stats::state_after(v, e, existing, now, zone) matches Some(w) ==> {
                &&& w.sessions == v.sessions.insert(username, now)
                &&& w.uuids == v.uuids
                &&& w.daily == v.daily
                &&& grew_by(
                    PlayerDelta {
                        last_login_ts: Some(now),
                        total_logins_delta: (d.total_logins_delta + 1) as u64,
                        is_new_player: existing is None,
                        ..d
                    },
                    stats::delta_of(w, key),
                    0,
                    0,
                    0,
                    0,
                )
                &&& forall|other: Seq<char>|
                    other != key ==> #[trigger] stats::delta_of(w, other) == stats::delta_of(
                        v,
                        other,
                    )
            }
        }),
{
}

/// A player who is not recorded is welcomed by name; one who is recorded is reminded, and is never
/// welcomed as new.
pub proof fn law_players_who_come_are_greeted(
    v: StateView,
    username: Seq<char>,
    existing: Option<PlayerStats>,
    now: i64,
    zone: Seq<char>,
    a: TrackerAction,
)
    requires
        stats::answers(a, v, StatsEventView::Join { username }, existing, now, zone),
    ensures
        a matches TrackerAction::Greet { greeting } && match greeting {
            Greeting::Welcome { command } => existing is None && text::contains_text(
                command@,
                "[Stats] Welcome "@ + username + "! This is your first login."@,
            ),
            Greeting::Reminder { uuid, last_login, yesterday } => existing is Some && uuid@
                == stats::recorded_as(v, username) && (existing->0.last_login_ts <= 0 ==> last_login@
                == "unknown"@) && (existing->0.last_login_ts > 0 && stats::zone_time(
                zone,
                existing->0.last_login_ts,
            ) is Some ==> stats::zone_time(zone, existing->0.last_login_ts) == Some(last_login@))
                && (stats::local_time(zone, now) matches Some(local) && Some(yesterday@)
                == stats::day_text((stats::day_of(local) - 1) as i32)),
        },
{
    if let TrackerAction::Greet { greeting: Greeting::Welcome { command } } = a {
        let first = "tellraw @a {\"text\":\"[Stats] Welcome "@;
        let last = "! This is your first login.\",\"color\":\"green\"}"@;
        reveal_strlit("tellraw @a {\"text\":\"[Stats] Welcome ");
        reveal_strlit("! This is your first login.\",\"color\":\"green\"}");
        reveal_strlit("[Stats] Welcome ");
        reveal_strlit("! This is your first login.");
        let said = "[Stats] Welcome "@ + username + "! This is your first login."@;
        assert(command@ == first + username + last);
        assert(command@.subrange(20, 20int + said.len()) =~= said);
        assert(text::text_at(command@, 20, said));
    }
}

/// Once a UUID is known, what happens to the player is recorded under it, and other players are
/// recorded as before; until then the player is recorded under the name.
pub proof fn law_resolved_players_are_recorded_by_uuid(
    v: StateView,
    username: Seq<char>,
    uuid: Seq<char>,
    existing: Option<PlayerStats>,
    now: i64,
    zone: Seq<char>,
)
    ensures
        stats::state_after(
            v,
            StatsEventView::UuidResolved { username, uuid },
            existing,
            now,
            zone,
        ) matches Some(w) && {
            &&& stats::recorded_as(w, username) == uuid
            &&& forall|other: Seq<char>|
                other != username ==> #[trigger] stats::recorded_as(w, other)
                    == stats::recorded_as(v, other)
            &&& w.sessions == v.sessions && w.deltas == v.deltas && w.daily == v.daily
        },
        stats::state_after(v, StatsEventView::ServerStart, existing, now, zone) == Some(v),
        !v.uuids.contains_key(username) ==> stats::recorded_as(v, username) == username,
{
    let w = stats::state_after(
        v,
        StatsEventView::UuidResolved { username, uuid },
        existing,
        now,
        zone,
    )->0;
    assert forall|other: Seq<char>| other != username implies #[trigger] stats::recorded_as(
        w,
        other,
    ) == stats::recorded_as(v, other) by {}
}

/// When the server stops, nobody is playing any more; each player who was, and whose key nobody else
/// who was playing has, has played from when the player came until then; and the records of those who
/// were not playing stay as they are. What has happened is written at once.
proof fn lemma_a_stop_ends_all_sessions(
    v: StateView,
    names: Seq<Seq<char>>,
    now: i64,
    zone: Seq<char>,
    username: Seq<char>,
)
    requires
        stats::names_all(names, v.sessions),
        stats::all_left(v, names, now, zone) is Some,
        forall|other: Seq<char>|
            v.sessions.contains_key(other) && other != username ==> #[trigger] stats::recorded_as(
                v,
                other,
            ) != stats::recorded_as(v, username),
    ensures
        ({
            let w = stats::all_left(v, names, now, zone)->0;
            let key = stats::recorded_as(v, username);
            let d = stats::delta_of(v, key);
            &&& forall|name: Seq<char>| !#[trigger] w.sessions.contains_key(name)
            &&& forall|a: TrackerAction, existing: Option<PlayerStats>| #[trigger]
                stats::answers(a, v, StatsEventView::ServerStop, existing, now, zone) ==> a is Flush
            &&& w.uuids == v.uuids
            &&& if v.sessions.contains_key(username) {
                &&& stats::delta_of(w, key).play_time_secs == d.play_time_secs + (if now
                    > v.sessions[username] {
                    now - v.sessions[username]
                } else {
                    0
                })
                &&& stats::delta_of(w, key).last_logout_ts == Some(now)
                &&& stats::delta_of(w, key).last_login_ts == d.last_login_ts
                &&& stats::delta_of(w, key).total_logins_delta == d.total_logins_delta
            } else {
                stats::delta_of(w, key) == d
            }
        }),
{
    assert forall|i: int| 0 <= i < names.len() implies v.sessions.contains_key(#[trigger] names[i]) by {
        assert(names.contains(names[i]));
    }
    lemma_sessions_counted(v, names, now, zone, username);
    let w = stats::all_left(v, names, now, zone)->0;
    let u = stats::sessions_counted(v, names, now, zone)->0;
    let key = stats::recorded_as(v, username);
    assert(stats::delta_of(w, key) == stats::delta_of(u, key));
}

/// Counting several sessions, each once, counts that of a player once.
proof fn lemma_sessions_counted(
    v: StateView,
    names: Seq<Seq<char>>,
    now: i64,
    zone: Seq<char>,
    username: Seq<char>,
)
    requires
        names.no_duplicates(),
        forall|i: int| 0 <= i < names.len() ==> v.sessions.contains_key(#[trigger] names[i]),
        stats::sessions_counted(v, names, now, zone) is Some,
        forall|other: Seq<char>|
            v.sessions.contains_key(other) && other != username ==> #[trigger] stats::recorded_as(
                v,
                other,
            ) != stats::recorded_as(v, username),
    ensures
        ({
            let w = stats::sessions_counted(v, names, now, zone)->0;
            let key = stats::recorded_as(v, username);
            let d = stats::delta_of(v, key);
            &&& w.uuids == v.uuids
            &&& if names.contains(username) {
                &&& stats::delta_of(w, key).play_time_secs == d.play_time_secs + (if now
                    > v.sessions[username] {
                    now - v.sessions[username]
                } else {
                    0
                })
                &&& stats::delta_of(w, key).last_logout_ts == Some(now)
                &&& stats::delta_of(w, key).last_login_ts == d.last_login_ts
                &&& stats::delta_of(w, key).total_logins_delta == d.total_logins_delta
            } else {
                stats::delta_of(w, key) == d
            }
        }),
    decreases names.len(),
{
    if names.len() > 0 {
        let rest = names.drop_last();
        let last = names.last();
        assert forall|i: int| 0 <= i < rest.len() implies v.sessions.contains_key(
            #[trigger] rest[i],
        ) by {
            assert(rest[i] == names[i]);
        }
        lemma_sessions_counted(v, rest, now, zone, username);
        let u = stats::sessions_counted(v, rest, now, zone)->0;
        assert(v.sessions.contains_key(names[names.len() - 1]));
        assert(stats::recorded_as(u, last) == stats::recorded_as(v, last));
        assert(stats::recorded_as(u, username) == stats::recorded_as(v, username));
        assert(names =~= rest.push(last));
        if last == username {
            assert(!rest.contains(username)) by {
                if rest.contains(username) {
                    let i = rest.index_of(username);
                    assert(names[i] == names[names.len() - 1]);
                }
            }
            assert(names.contains(username));
        } else {
            assert(names.contains(username) ==> rest.contains(username)) by {
                if names.contains(username) {
                    let i = names.index_of(username);
                    assert(rest[i] == username);
                }
            }
            assert(rest.contains(username) ==> names.contains(username)) by {
                if rest.contains(username) {
                    let i = rest.index_of(username);
                    assert(names[i] == username);
                }
            }
        }
    }
}

/// The seconds that are kept under a key.
pub open spec fn secs_at(daily: Map<Seq<char>, u64>, key: Seq<char>) -> int {
    if daily.contains_key(key) {
        daily[key] as int
    } else {
        0
    }
}

/// The seconds of a session that fall on a day.
pub open spec fn secs_of(splits: Seq<(Seq<char>, u64)>, date: Seq<char>) -> int
    decreases splits.len(),
{
    if splits.len() == 0 {
        0
    } else {
        secs_of(splits.drop_last(), date) + if splits.last().0 == date {
            splits.last().1 as int
        } else {
            0
        }
    }
}

/// The seconds on one day are not more than those of all days.
proof fn lemma_secs_of(splits: Seq<(Seq<char>, u64)>, date: Seq<char>)
    ensures
        0 <= secs_of(splits, date) <= stats::total_split(splits),
    decreases splits.len(),
{
    if splits.len() > 0 {
        lemma_secs_of(splits.drop_last(), date);
    }
}

/// The keys of a player's days differ where the days do.
proof fn lemma_day_keys(uuid: Seq<char>, a: Seq<char>, b: Seq<char>)
    ensures
        stats::day_key(uuid, a) == stats::day_key(uuid, b) ==> a == b,
{
    if stats::day_key(uuid, a) == stats::day_key(uuid, b) {
        let n = uuid.len() as int + 1;
        assert(stats::day_key(uuid, a).skip(n) =~= a);
        assert(stats::day_key(uuid, b).skip(n) =~= b);
    }
}

/// The seconds of each day grow by those that the session has on it, and those under no key of the
/// player's days do not change; they can grow where none would exceed the range.
proof fn lemma_days_grow(
    daily: Map<Seq<char>, u64>,
    uuid: Seq<char>,
    splits: Seq<(Seq<char>, u64)>,
)
    ensures
        stats::days_grown(daily, uuid, splits) matches Some(w) ==> {
            &&& forall|date: Seq<char>|
                #![trigger stats::day_key(uuid, date)]
                secs_at(w, stats::day_key(uuid, date)) == secs_at(
                    daily,
                    stats::day_key(uuid, date),
                ) + secs_of(splits, date)
            &&& forall|k: Seq<char>|
                (forall|date: Seq<char>| k != #[trigger] stats::day_key(uuid, date))
                    ==> #[trigger] secs_at(w, k) == secs_at(daily, k)
        },
        (forall|k: Seq<char>|
            #[trigger] secs_at(daily, k) + stats::total_split(splits) <= u64::MAX)
            ==> stats::days_grown(daily, uuid, splits) is Some,
    decreases splits.len(),
{
    let adds = stats::day_additions(uuid, splits);
    let step = |n: Option<u64>, secs: u64| records::day_step(n, secs);
    if splits.len() > 0 {
        let rest = splits.drop_last();
        let (date, secs) = splits.last();
        let k = stats::day_key(uuid, date);
        lemma_days_grow(daily, uuid, rest);
        assert(adds.drop_last() =~= stats::day_additions(uuid, rest));
        assert(adds.last() == (k, secs));
        assert(stats::days_grown(daily, uuid, rest) == records::stepped(daily, adds.drop_last(), step));
        if forall|k: Seq<char>|
            #[trigger] secs_at(daily, k) + stats::total_split(splits) <= u64::MAX {
            assert forall|k: Seq<char>| #[trigger]
                secs_at(daily, k) + stats::total_split(rest) <= u64::MAX by {}
            let u = stats::days_grown(daily, uuid, rest)->0;
            lemma_secs_of(rest, date);
            assert(secs_at(u, k) == secs_at(daily, k) + secs_of(rest, date));
            assert(secs_at(daily, k) + stats::total_split(splits) <= u64::MAX);
        }
        if let Some(w) = stats::days_grown(daily, uuid, splits) {
            let u = stats::days_grown(daily, uuid, rest)->0;
            assert(records::day_step(records::value_at(u, k), secs) is Some);
            assert(w == u.insert(k, records::day_step(records::value_at(u, k), secs)->0));
            assert forall|d: Seq<char>|
                #![trigger stats::day_key(uuid, d)]
                secs_at(w, stats::day_key(uuid, d)) == secs_at(daily, stats::day_key(uuid, d))
                    + secs_of(splits, d) by {
                lemma_day_keys(uuid, d, date);
                assert(secs_at(u, stats::day_key(uuid, d)) == secs_at(
                    daily,
                    stats::day_key(uuid, d),
                ) + secs_of(rest, d));
            }
            assert forall|x: Seq<char>|
                (forall|d: Seq<char>| x != #[trigger] stats::day_key(uuid, d)) implies #[trigger] secs_at(
                w,
                x,
            ) == secs_at(daily, x) by {
                assert(secs_at(u, x) == secs_at(daily, x));
            }
        }
    }
}

/// One who parts is always counted where no sum exceeds its range, and each day of the player grows
/// by the seconds that the session has on it; the days of others stay as they are.
proof fn lemma_days_of_a_session_are_counted(
    v: StateView,
    username: Seq<char>,
    parting: StatsEventView,
    record: Option<PlayerStats>,
    end: i64,
    zone: Seq<char>,
)
    requires
        is_parting(parting, username),
        v.sessions.contains_key(username),
        v.sessions[username] <= end,
    ensures
        ({
            let start = v.sessions[username];
            let key = stats::recorded_as(v, username);
            let w = stats::state_after(v, parting, record, end, zone);
            let splits = stats::split_days(start, end, zone);
            &&& stats::delta_of(v, key).play_time_secs + (end - start) <= u64::MAX && (forall|
                k: Seq<char>,
            | #[trigger] secs_at(v.daily, k) + (end - start) <= u64::MAX) ==> w is Some
            &&& w is Some ==> forall|date: Seq<char>|
                #![trigger stats::day_key(key, date)]
                secs_at((w->0).daily, stats::day_key(key, date)) == secs_at(
                    v.daily,
                    stats::day_key(key, date),
                ) + secs_of(splits, date)
            &&& w is Some ==> forall|k: Seq<char>|
                (forall|date: Seq<char>| k != #[trigger] stats::day_key(key, date))
                    ==> #[trigger] secs_at((w->0).daily, k) == secs_at(v.daily, k)
        }),
{
    let start = v.sessions[username];
    let key = stats::recorded_as(v, username);
    let u = StateView { sessions: v.sessions.remove(username), ..v };
    assert(stats::recorded_as(u, username) == key);
    assert(stats::delta_of(u, key) == stats::delta_of(v, key));
    let splits = stats::split_days(start, end, zone);
    lemma_days_grow(v.daily, key, splits);
    if stats::local_time(zone, start) is Some && stats::local_time(zone, end) is Some {
        stats::law_split_adds_up(start, end, zone);
    } else {
        assert(stats::total_split(splits) == 0);
    }
}

/// Handling an event other than the stop of the server takes the state that one step further.
pub proof fn law_events_are_steps(
    tracker: &mut StatsTracker,
    event: &StatsEvent,
    existing: Option<PlayerStats>,
    now: i64,
    action: TrackerAction,
)
    requires
        call_ensures(
            StatsTracker::handle_event,
            (tracker, event, existing, now),
            Some(action),
        ),
        !(event@ is ServerStop),
    ensures
        after_steps(
            old(tracker).state@,
            seq![Step { event: event@, existing, now }],
            old(tracker).tz@,
        ) == Some(final(tracker).state@),
        final(tracker).tz == old(tracker).tz,
{
    let steps = seq![Step { event: event@, existing, now }];
    assert(steps.drop_last() =~= Seq::<Step>::empty());
    assert(after_steps(old(tracker).state@, steps.drop_last(), old(tracker).tz@) == Some(
        old(tracker).state@,
    ));
}

/// From when a player comes until the player parts, in either way and whatever others do meanwhile,
/// the seconds are counted: the player is no longer playing, the play time has grown by exactly the
/// seconds in between, the last login and the last logout are the two seconds, there is one login
/// more, nothing else of the player has changed, and what has happened is written at once.
pub proof fn law_sessions_are_counted(
    coming: &mut StatsTracker,
    came: &StatsEvent,
    existing: Option<PlayerStats>,
    start: i64,
    greeting: TrackerAction,
    between: Seq<Step>,
    parting: &mut StatsTracker,
    parted: &StatsEvent,
    record: Option<PlayerStats>,
    end: i64,
    action: TrackerAction,
    username: Seq<char>,
    key: Seq<char>,
)
    requires
        call_ensures(
            StatsTracker::handle_event,
            (coming, came, existing, start),
            Some(greeting),
        ),
        call_ensures(StatsTracker::handle_event, (parting, parted, record, end), Some(action)),
        came@ == (StatsEventView::Join { username }),
        ({
            ||| parted@ == (StatsEventView::Leave { username })
            ||| parted@ matches StatsEventView::Disconnect { username: who, .. } && who == username
        }),
        has_own_key(old(coming).state@, username, key),
        forall|i: int|
            0 <= i < between.len() ==> is_of_others((#[trigger] between[i]).event, username, key),
        after_steps(final(coming).state@, between, old(coming).tz@) == Some(old(parting).state@),
        old(parting).tz == old(coming).tz,
        start <= end,
    ensures
        ({
            let before = stats::delta_of(old(coming).state@, key);
            let after = stats::delta_of(final(parting).state@, key);
            &&& old(parting).state@.sessions.contains_key(username)
            &&& !final(parting).state@.sessions.contains_key(username)
            &&& after.play_time_secs == before.play_time_secs + (end - start)
            &&& after.last_login_ts == Some(start)
            &&& after.last_logout_ts == Some(end)
            &&& after.total_logins_delta == before.total_logins_delta + 1
            &&& after.is_new_player == (existing is None)
            &&& after.messages == before.messages
            &&& after.commands == before.commands
            &&& after.deaths == before.deaths
            &&& after.advancements == before.advancements
            &&& action is Flush
        }),
{
    let v = old(coming).state@;
    let zone = old(coming).tz@;
    let steps = seq![Step { event: StatsEventView::Join { username }, existing, now: start }];
    law_events_are_steps(coming, came, existing, start, greeting);
    lemma_steps_split(v, steps, between, zone);
    let parts = Step { event: parted@, existing: record, now: end };
    let w = old(parting).state@;
    assert(after_steps(v, steps + between, zone) == Some(w));
    assert((steps + between).push(parts).drop_last() =~= steps + between);
    assert(after_steps(v, (steps + between).push(parts), zone) == Some(final(parting).state@));
    lemma_sessions_are_counted(
        v,
        username,
        key,
        existing,
        start,
        between,
        parted@,
        record,
        end,
        zone,
    );
}

/// One who parts without playing changes nothing, and nothing is written.
pub proof fn law_parting_twice_counts_once(
    tracker: &mut StatsTracker,
    event: &StatsEvent,
    record: Option<PlayerStats>,
    end: i64,
    r: Option<TrackerAction>,
    username: Seq<char>,
)
    requires
        call_ensures(StatsTracker::handle_event, (tracker, event, record, end), r),
        is_parting(event@, username),
        !old(tracker).state@.sessions.contains_key(username),
    ensures
        r is Some,
        r->0 is Nothing,
        final(tracker).state@ == old(tracker).state@,
{
    lemma_parting_twice_counts_once(
        old(tracker).state@,
        username,
        event@,
        record,
        end,
        old(tracker).tz@,
    );
}

/// A death, an advancement, a message and a command are each counted once, as what they are, for the
/// player, and change nothing else; they can be counted as long as the counter is in its range, and
/// call for nothing to be done.
pub proof fn law_each_thing_is_counted(
    tracker: &mut StatsTracker,
    event: &StatsEvent,
    existing: Option<PlayerStats>,
    now: i64,
    r: Option<TrackerAction>,
    username: Seq<char>,
)
    requires
        call_ensures(StatsTracker::handle_event, (tracker, event, existing, now), r),
        ({
            ||| event@ == (StatsEventView::Death { username })
            ||| event@ matches StatsEventView::Advancement { username: who, .. } && who == username
            ||| event@ == (StatsEventView::Chat { username })
            ||| event@ == (StatsEventView::Command { username })
        }),
    ensures
        ({
            let v = old(tracker).state@;
            let w = final(tracker).state@;
            let key = stats::recorded_as(v, username);
            let d = stats::delta_of(v, key);
            &&& r is Some == (match event@ {
                StatsEventView::Death { .. } => d.deaths,
                StatsEventView::Advancement { .. } => d.advancements,
                StatsEventView::Chat { .. } => d.messages,
                _ => d.commands,
            } < u64::MAX)
            &&& r is Some ==> {
                &&& r->0 is Nothing
                &&& w.uuids == v.uuids
                &&& w.sessions == v.sessions
                &&& w.daily == v.daily
                &&& forall|other: Seq<char>|
                    other != key ==> #[trigger] stats::delta_of(w, other) == stats::delta_of(
                        v,
                        other,
                    )
                &&& grew_by(
                    d,
                    stats::delta_of(w, key),
                    if event@ is Death { 1 } else { 0 },
                    if event@ is Advancement { 1 } else { 0 },
                    if event@ is Chat { 1 } else { 0 },
                    if event@ is Command { 1 } else { 0 },
                )
            }
        }),
{
    lemma_each_thing_is_counted(
        old(tracker).state@,
        event@,
        username,
        existing,
        now,
        old(tracker).tz@,
    );
}

/// A player who has come plays from that second on, has one login more, and is greeted: as new where
/// nothing is recorded of the player, and otherwise with a reminder. Others play on as they did.
pub proof fn law_players_who_come_are_playing(
    tracker: &mut StatsTracker,
    event: &StatsEvent,
    existing: Option<PlayerStats>,
    now: i64,
    r: Option<TrackerAction>,
    username: Seq<char>,
)
    requires
        call_ensures(StatsTracker::handle_event, (tracker, event, existing, now), r),
        event@ == (StatsEventView::Join { username }),
    ensures
        ({
            let v = old(tracker).state@;
            let w = final(tracker).state@;
            let key = stats::recorded_as(v, username);
            let d = stats::delta_of(v, key);
            &&& existing is None ==> r is Some == (d.total_logins_delta < u64::MAX)
            &&& r is Some ==> {
                &&& w.sessions == v.sessions.insert(username, now)
                &&& w.uuids == v.uuids
                &&& w.daily == v.daily
                &&& stats::delta_of(w, key).last_login_ts == Some(now)
                &&& stats::delta_of(w, key).total_logins_delta == d.total_logins_delta + 1
                &&& stats::delta_of(w, key).play_time_secs == d.play_time_secs
                &&& forall|other: Seq<char>|
                    other != key ==> #[trigger] stats::delta_of(w, other) == stats::delta_of(
                        v,
                        other,
                    )
                &&& r->0 matches TrackerAction::Greet { greeting } && greeting is Welcome
                    == existing is None
            }
        }),
{
    lemma_players_who_come_are_playing(
        old(tracker).state@,
        username,
        existing,
        now,
        old(tracker).tz@,
    );
}

/// When the server stops, nobody is playing any more; each player who was, and whose key nobody else
/// who was playing has, has played from when the player came until then; and the records of those who
/// were not playing stay as they are. What has happened is written at once.
pub proof fn law_a_stop_ends_all_sessions(
    tracker: &mut StatsTracker,
    event: &StatsEvent,
    existing: Option<PlayerStats>,
    now: i64,
    action: TrackerAction,
    username: Seq<char>,
)
    requires
        call_ensures(
            StatsTracker::handle_event,
            (tracker, event, existing, now),
            Some(action),
        ),
        event@ is ServerStop,
        forall|other: Seq<char>|
            old(tracker).state@.sessions.contains_key(other) && other != username
                ==> #[trigger] stats::recorded_as(old(tracker).state@, other)
                != stats::recorded_as(old(tracker).state@, username),
    ensures
        ({
            let v = old(tracker).state@;
            let w = final(tracker).state@;
            let key = stats::recorded_as(v, username);
            let d = stats::delta_of(v, key);
            &&& action is Flush
            &&& forall|name: Seq<char>| !#[trigger] w.sessions.contains_key(name)
            &&& w.uuids == v.uuids
            &&& if v.sessions.contains_key(username) {
                &&& stats::delta_of(w, key).play_time_secs == d.play_time_secs + (if now
                    > v.sessions[username] {
                    now - v.sessions[username]
                } else {
                    0
                })
                &&& stats::delta_of(w, key).last_logout_ts == Some(now)
                &&& stats::delta_of(w, key).last_login_ts == d.last_login_ts
                &&& stats::delta_of(w, key).total_logins_delta == d.total_logins_delta
            } else {
                stats::delta_of(w, key) == d
            }
        }),
{
    let v = old(tracker).state@;
    let names = choose|names: Seq<Seq<char>>|
        #![trigger stats::names_all(names, v.sessions)]
        stats::names_all(names, v.sessions) && stats::all_left(v, names, now, old(tracker).tz@)
            is Some && final(tracker).state@ == stats::all_left(v, names, now, old(tracker).tz@)->0;
    lemma_a_stop_ends_all_sessions(v, names, now, old(tracker).tz@, username);
}

/// One who parts is always counted where no sum exceeds its range, and each day of the player grows
/// by the seconds that the session has on it; the days of others stay as they are.
pub proof fn law_days_of_a_session_are_counted(
    tracker: &mut StatsTracker,
    event: &StatsEvent,
    record: Option<PlayerStats>,
    end: i64,
    r: Option<TrackerAction>,
    username: Seq<char>,
)
    requires
        call_ensures(StatsTracker::handle_event, (tracker, event, record, end), r),
        is_parting(event@, username),
        old(tracker).state@.sessions.contains_key(username),
        old(tracker).state@.sessions[username] <= end,
    ensures
        ({
            let v = old(tracker).state@;
            let w = final(tracker).state@;
            let start = v.sessions[username];
            let key = stats::recorded_as(v, username);
            let splits = stats::split_days(start, end, old(tracker).tz@);
            &&& stats::delta_of(v, key).play_time_secs + (end - start) <= u64::MAX && (forall|
                k: Seq<char>,
            | #[trigger] secs_at(v.daily, k) + (end - start) <= u64::MAX) ==> r is Some
            &&& r is Some ==> forall|date: Seq<char>|
                #![trigger stats::day_key(key, date)]
                secs_at(w.daily, stats::day_key(key, date)) == secs_at(
                    v.daily,
                    stats::day_key(key, date),
                ) + secs_of(splits, date)
            &&& r is Some ==> forall|k: Seq<char>|
                (forall|date: Seq<char>| k != #[trigger] stats::day_key(key, date))
                    ==> #[trigger] secs_at(w.daily, k) == secs_at(v.daily, k)
        }),
{
    lemma_days_of_a_session_are_counted(
        old(tracker).state@,
        username,
        event@,
        record,
        end,
        old(tracker).tz@,
    );
}

/// The days, hours and minutes of a number of seconds.
pub proof fn lemma_parts_of_a_time(n: nat, d: nat, h: nat, m: nat, s: nat)
    requires
        h < 24,
        m < 60,
        s < 60,
        n == 86_400 * d + 3_600 * h + 60 * m + s,
    ensures
        n / 86_400 == d,
        (n % 86_400) / 3_600 == h,
        (n % 3_600) / 60 == m,
{
    let rest = 3_600 * h + 60 * m + s;
    assert(n / 86_400 == d && n % 86_400 == rest) by {
        assert(rest < 86_400);
    }
    assert(rest / 3_600 == h);
    assert(n % 3_600 == 60 * m + s) by {
        assert(n == 3_600 * (24 * d + h) + (60 * m + s));
    }
    assert((60 * m + s) / 60 == m);
}

/// A duration tells its days, hours and minutes, in this order and with their letters, and leaves
/// out those that it has none of; where it has none at all it is `0m`. Seconds are not told.
pub proof fn law_durations_tell_days_hours_and_minutes(
    secs: u64,
    r: String,
    d: nat,
    h: nat,
    m: nat,
    s: nat,
)
    requires
        call_ensures(stats::format_duration, (secs,), r),
        h < 24,
        m < 60,
        s < 60,
        secs == 86_400 * d + 3_600 * h + 60 * m + s,
    ensures
        d > 0 && h > 0 && m > 0 ==> r@ == text::dec(d) + "d "@ + text::dec(h) + "h "@ + text::dec(m)
            + "m"@,
        d > 0 && h > 0 && m == 0 ==> r@ == text::dec(d) + "d "@ + text::dec(h) + "h"@,
        d > 0 && h == 0 && m > 0 ==> r@ == text::dec(d) + "d "@ + text::dec(m) + "m"@,
        d > 0 && h == 0 && m == 0 ==> r@ == text::dec(d) + "d"@,
        d == 0 && h > 0 && m > 0 ==> r@ == text::dec(h) + "h "@ + text::dec(m) + "m"@,
        d == 0 && h > 0 && m == 0 ==> r@ == text::dec(h) + "h"@,
        d == 0 && h == 0 ==> r@ == text::dec(m) + "m"@,
{
    let n = secs as nat;
    lemma_parts_of_a_time(n, d, h, m, s);
    let parts = stats::duration_parts(n);
    reveal_strlit("d ");
    reveal_strlit("h ");
    reveal_strlit("d");
    reveal_strlit("h");
    reveal_strlit(" ");
    assert("d "@ =~= "d"@ + " "@);
    assert("h "@ =~= "h"@ + " "@);
    let dd = text::dec(d) + "d"@;
    let hh = text::dec(h) + "h"@;
    let mm = text::dec(m) + "m"@;
    let none = Seq::<Seq<char>>::empty();
    text::lemma_joined_push(none, " "@, dd);
    text::lemma_joined_push(none, " "@, hh);
    text::lemma_joined_push(none, " "@, mm);
    text::lemma_joined_push(seq![dd], " "@, hh);
    text::lemma_joined_push(seq![dd], " "@, mm);
    text::lemma_joined_push(seq![hh], " "@, mm);
    text::lemma_joined_push(seq![dd, hh], " "@, mm);
    assert(none.push(dd) =~= seq![dd]);
    assert(none.push(hh) =~= seq![hh]);
    assert(none.push(mm) =~= seq![mm]);
    assert(seq![dd].push(hh) =~= seq![dd, hh]);
    if d > 0 && h > 0 && m > 0 {
        assert(parts =~= seq![dd, hh].push(mm));
        assert(r@ =~= text::dec(d) + "d "@ + text::dec(h) + "h "@ + text::dec(m) + "m"@);
    } else if d > 0 && h > 0 {
        assert(parts =~= seq![dd].push(hh));
        assert(r@ =~= text::dec(d) + "d "@ + text::dec(h) + "h"@);
    } else if d > 0 && m > 0 {
        assert(parts =~= seq![dd].push(mm));
        assert(r@ =~= text::dec(d) + "d "@ + text::dec(m) + "m"@);
    } else if d > 0 {
        assert(parts =~= none.push(dd));
    } else if h > 0 && m > 0 {
        assert(parts =~= seq![hh].push(mm));
        assert(r@ =~= text::dec(h) + "h "@ + text::dec(m) + "m"@);
    } else if h > 0 {
        assert(parts =~= none.push(hh));
    } else {
        assert(parts =~= none.push(mm));
    }
}

/// The welcome of a new player names the player and says that the login is the first.
pub proof fn law_new_players_are_welcomed(username: &str, r: String)
    requires
        call_ensures(stats::new_player_welcome, (username,), r),
    ensures
        r@ == "tellraw @a {\"text\":\""@ + ("[Stats] Welcome "@ + username@
            + "! This is your first login."@) + "\",\"color\":\"green\"}"@,
{
    reveal_strlit("tellraw @a {\"text\":\"[Stats] Welcome ");
    reveal_strlit("! This is your first login.\",\"color\":\"green\"}");
    reveal_strlit("tellraw @a {\"text\":\"");
    reveal_strlit("[Stats] Welcome ");
    reveal_strlit("! This is your first login.");
    reveal_strlit("\",\"color\":\"green\"}");
    assert("tellraw @a {\"text\":\"[Stats] Welcome "@ =~= "tellraw @a {\"text\":\""@
        + "[Stats] Welcome "@);
    assert("! This is your first login.\",\"color\":\"green\"}"@ =~= "! This is your first login."@
        + "\",\"color\":\"green\"}"@);
}

/// The reminder names the player, when the player came last, and how long the player played the day
/// before.
pub proof fn law_players_are_reminded(username: &str, last_login: &str, secs: u64, r: String)
    requires
        call_ensures(stats::login_reminder, (username, last_login, secs), r),
    ensures
        r@ == "tellraw @a {\"text\":\""@ + ("[Stats] Welcome back "@ + username@
            + "! Last login: "@ + last_login@ + ". Yesterday you played "@
            + stats::duration_text(secs as nat) + "."@) + "\",\"color\":\"gold\"}"@,
{
    reveal_strlit("tellraw @a {\"text\":\"[Stats] Welcome back ");
    reveal_strlit("tellraw @a {\"text\":\"");
    reveal_strlit("[Stats] Welcome back ");
    reveal_strlit(".\",\"color\":\"gold\"}");
    reveal_strlit("\",\"color\":\"gold\"}");
    reveal_strlit(".");
    assert("tellraw @a {\"text\":\"[Stats] Welcome back "@ =~= "tellraw @a {\"text\":\""@
        + "[Stats] Welcome back "@);
    assert(".\",\"color\":\"gold\"}"@ =~= "."@ + "\",\"color\":\"gold\"}"@);
}

/// A flush takes out everything that has happened, each player's delta once and as it is, and leaves
/// nothing of it; who is playing, and who has which UUID, stays. Where nothing has happened there is
/// no flush.
pub proof fn law_flushes_take_everything_once(
    state: &mut PendingState,
    r: Option<(Vec<(String, PlayerDelta)>, Vec<(String, DailyTimeSplit)>)>,
    uuid: Seq<char>,
)
    requires
        call_ensures(PendingState::flush, (state,), r),
    ensures
        final(state)@.sessions == old(state)@.sessions,
        final(state)@.uuids == old(state)@.uuids,
        forall|key: Seq<char>| !#[trigger] final(state)@.deltas.contains_key(key),
        forall|key: Seq<char>| !#[trigger] final(state)@.daily.contains_key(key),
        r is None ==> !old(state)@.deltas.contains_key(uuid),
        r matches Some((deltas, _)) ==> {
            &&& old(state)@.deltas.contains_key(uuid) ==> exists|i: int|
                0 <= i < deltas@.len() && (#[trigger] deltas@[i]).0@ == uuid && deltas@[i].1
                    == old(state)@.deltas[uuid]
            &&& forall|i: int|
                0 <= i < deltas@.len() ==> old(state)@.deltas.contains_key(
                    (#[trigger] deltas@[i]).0@,
                )
            &&& forall|i: int, j: int|
                0 <= i < j < deltas@.len() ==> (#[trigger] deltas@[i]).0@ != (
                #[trigger] deltas@[j]).0@
        },
{
    if let Some((deltas, _)) = r {
        let m = old(state)@.deltas;
        let keys = choose|keys: Seq<Seq<char>>|
            #![trigger stats::lists_keys(keys, m)]
            stats::lists_keys(keys, m) && stats::lists_entries(deltas@, keys, m);
        if m.contains_key(uuid) {
            assert(keys.contains(uuid));
            let i = keys.index_of(uuid);
            assert(deltas@[i].0@ == uuid);
        }
        assert forall|i: int| 0 <= i < deltas@.len() implies m.contains_key(
            (#[trigger] deltas@[i]).0@,
        ) by {
            assert(keys.contains(keys[i]));
        }
        assert forall|i: int, j: int| 0 <= i < j < deltas@.len() implies (#[trigger] deltas@[i]).0@
            != (#[trigger] deltas@[j]).0@ by {
            assert(keys[i] != keys[j]);
        }
    }
}

/// The recent days are seven: the local day of the second, and the days before it one by one.
pub proof fn law_recent_days_go_back_one_by_one(now: i64, tz: &Timezone, dates: Vec<String>, i: int)
    requires
        call_ensures(stats::recent_dates, (now, tz), Some(dates)),
        0 <= i < 7,
    ensures
        dates@.len() == 7,
        stats::local_time(tz@, now) matches Some(local) && stats::day_text(
            (stats::day_of(local) - i) as i32,
        ) == Some(dates@[i]@),
{
    assert(stats::earlier_day(now, tz@, i) == Some(dates@[i]@));
}

/// A local time lies on its day: not before its midnight, and before the next.
pub proof fn law_times_lie_on_their_days(local: int)
    ensures
        stats::midnight_of(stats::day_of(local)) <= local < stats::midnight_of(
            stats::day_of(local) + 1,
        ),
        stats::midnight_of(stats::day_of(local) + 1) - stats::midnight_of(stats::day_of(local))
            == 24 * 60 * 60,
{
}

/// Each key of a player and a day has its row.
proof fn lemma_day_has_its_row(
    keys: Seq<Seq<char>>,
    daily: Map<Seq<char>, u64>,
    uuid: Seq<char>,
    date: Seq<char>,
)
    requires
        keys.contains(stats::day_key(uuid, date)),
        !uuid.contains('\u{1f}'),
    ensures
        stats::day_rows(keys, daily).contains(((uuid, date), daily[stats::day_key(uuid, date)])),
    decreases keys.len(),
{
    let key = stats::day_key(uuid, date);
    let row = ((uuid, date), daily[key]);
    let rest = keys.drop_last();
    let rows = stats::day_rows(keys, daily);
    stats::law_day_keys_come_apart(uuid, date);
    if keys.last() == key {
        assert(rows == stats::day_rows(rest, daily).push(row));
        assert(rows[rows.len() - 1] == row);
    } else {
        let i = keys.index_of(key);
        assert(rest[i] == key);
        lemma_day_has_its_row(rest, daily, uuid, date);
        let before = stats::day_rows(rest, daily);
        let j = before.index_of(row);
        assert(rows[j] == row);
    }
}

/// A flush takes out the seconds of every day of every player, as they are.
pub proof fn law_flushes_take_every_day(
    state: &mut PendingState,
    deltas: Vec<(String, PlayerDelta)>,
    days: Vec<(String, DailyTimeSplit)>,
    uuid: Seq<char>,
    date: Seq<char>,
)
    requires
        call_ensures(PendingState::flush, (state,), Some((deltas, days))),
        !uuid.contains('\u{1f}'),
        old(state)@.daily.contains_key(stats::day_key(uuid, date)),
    ensures
        exists|i: int|
            0 <= i < days@.len() && (#[trigger] days@[i]).0@ == uuid && days@[i].1.date@ == date
                && days@[i].1.secs == old(state)@.daily[stats::day_key(uuid, date)],
{
    let m = old(state)@.daily;
    let keys = choose|keys: Seq<Seq<char>>|
        #![trigger stats::lists_keys(keys, m)]
        stats::lists_keys(keys, m) && records::day_changes(days@) == stats::day_rows(keys, m);
    assert(keys.contains(stats::day_key(uuid, date)));
    lemma_day_has_its_row(keys, m, uuid, date);
    let rows = records::day_changes(days@);
    let i = rows.index_of(((uuid, date), m[stats::day_key(uuid, date)]));
    assert(rows[i] == ((days@[i].0@, days@[i].1.date@), days@[i].1.secs));
    assert(days@[i].0@ == uuid);
}

} // verus!
