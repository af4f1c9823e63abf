//! How long players play, and what they do.

use crate::log_parser::{StatsEvent, StatsEventView};
use crate::storage::records;
use crate::storage::records::{DailyTimeSplit, PlayerDelta, PlayerStats};
use crate::storage::tables;
use crate::storage::tables::{RowWrite, Tables};
use crate::storage::Storage;
use crate::text;
use crate::text::{chars_of, find_text, push_dec, string_of, tail};
use crate::text_map::TextMap;
use chrono::{Offset, TimeZone};
use vstd::prelude::*;
use vstd::slice::slice_subrange;
use vstd::string::*;

verus! {

/// A number and its unit.
pub open spec fn with_unit(n: nat, unit: Seq<char>) -> Seq<char> {
    text::dec(n) + unit
}

/// The parts of a duration: the days and the hours, where there are any, and the minutes, where
/// there are any or there is nothing else.
pub open spec fn duration_parts(secs: nat) -> Seq<Seq<char>> {
    let days = secs / 86_400;
    let hours = (secs % 86_400) / 3_600;
    let minutes = (secs % 3_600) / 60;
    let d = if days > 0 {
        seq![with_unit(days, "d"@)]
    } else {
        Seq::empty()
    };
    let h = if hours > 0 {
        d.push(with_unit(hours, "h"@))
    } else {
        d
    };
    if minutes > 0 || h.len() == 0 {
        h.push(with_unit(minutes, "m"@))
    } else {
        h
    }
}

/// A duration in days, hours and minutes, such as `1d 3h 46m`.
pub open spec fn duration_text(secs: nat) -> Seq<char> {
    text::joined(duration_parts(secs), " "@)
}

/// Appends a number and its unit to parts that were written before.
fn push_part(out: &mut String, first: bool, n: u64, unit: &str, Ghost(parts): Ghost<Seq<Seq<char>>>)
    requires
        old(out)@ == text::joined(parts, " "@),
        first == (parts.len() == 0),
    ensures
        final(out)@ == text::joined(parts.push(with_unit(n as nat, unit@)), " "@),
{
    proof {
        text::lemma_joined_push(parts, " "@, with_unit(n as nat, unit@));
    }
    let ghost before = out@;
    if !first {
        out.append(" ");
    }
    push_dec(out, n);
    out.append(unit);
    proof {
        let w = with_unit(n as nat, unit@);
        if first {
            assert(out@ =~= w);
        } else {
            assert(out@ =~= before + " "@ + w);
        }
    }
}

/// Writes a duration in days, hours and minutes.
pub fn format_duration(secs: u64) -> (r: String)
    ensures
        r@ == duration_text(secs as nat),
{
    let days = secs / 86_400;
    let hours = (secs % 86_400) / 3_600;
    let minutes = (secs % 3_600) / 60;
    let mut out = String::new();
    let mut first = true;
    let ghost mut parts: Seq<Seq<char>> = Seq::empty();
    if days > 0 {
        push_part(&mut out, first, days, "d", Ghost(parts));
        first = false;
        proof {
            parts = parts.push(with_unit(days as nat, "d"@));
        }
    }
    if hours > 0 {
        push_part(&mut out, first, hours, "h", Ghost(parts));
        first = false;
        proof {
            parts = parts.push(with_unit(hours as nat, "h"@));
        }
    }
    if minutes > 0 || first {
        push_part(&mut out, first, minutes, "m", Ghost(parts));
        proof {
            parts = parts.push(with_unit(minutes as nat, "m"@));
        }
    }
    assert(parts =~= duration_parts(secs as nat));
    out
}

/// A time zone of the IANA database.
#[derive(Debug)]
pub struct Timezone {
    name: String,
}

impl View for Timezone {
    type V = Seq<char>;

    closed spec fn view(&self) -> Seq<char> {
        self.name@
    }
}

/// The first second that the calendar of the crate `chrono` reaches.
pub const FIRST_SECOND: i64 = -8_334_601_228_800;

/// The last second that the calendar of the crate `chrono` reaches.
pub const LAST_SECOND: i64 = 8_210_266_876_799;

/// The first day that the calendar reaches, counted from January 1 of the year 1, which is day 1.
pub const FIRST_DAY: i32 = -95_746_129;

/// The last day that the calendar reaches.
pub const LAST_DAY: i32 = 95_745_399;

/// The calendar reaches a second.
pub open spec fn in_calendar(ts: int) -> bool {
    FIRST_SECOND <= ts <= LAST_SECOND
}

/// The name is that of a time zone, as the crate `chrono-tz` knows them.
pub uninterp spec fn known_zone(name: Seq<char>) -> bool;

/// The crate `chrono-tz`: whether `Tz` can be read from a name. Which names these are is left to
/// `known_zone`; `UTC` is one.
#[verifier::external_body]
fn zone_is_known(name: &str) -> (r: bool)
    ensures
        r == known_zone(name@),
        name@ == "UTC"@ ==> r,
{
    name.parse::<chrono_tz::Tz>().is_ok()
}

/// By how many seconds the local time of a zone is ahead of UTC at a second, as the crates `chrono`
/// and `chrono-tz` tell it; `None` where there is no such zone or the calendar does not reach so
/// far.
pub uninterp spec fn zone_offset(name: Seq<char>, ts: i64) -> Option<i32>;

/// The crates `chrono` and `chrono-tz`: the offset of what `timestamp_opt` makes of a second in a
/// zone. There is one if and only if the zone is known and the calendar reaches the second, it is
/// less than a day, and it is 0 for `UTC`. What it is otherwise is left to `zone_offset`.
#[verifier::external_body]
fn offset_at(name: &str, ts: i64) -> (r: Option<i32>)
    ensures
        r == zone_offset(name@, ts),
        r is Some == (known_zone(name@) && in_calendar(ts as int)),
        r matches Some(offset) ==> -86_400 < offset < 86_400,
        name@ == "UTC"@ && in_calendar(ts as int) ==> r == Some(0i32),
{
    let tz = name.parse::<chrono_tz::Tz>().ok()?;
    let dt = tz.timestamp_opt(ts, 0).single()?;
    Some(dt.offset().fix().local_minus_utc())
}

/// The first second at which the clocks of a zone show a local time, given in seconds since they
/// would have shown the beginning of 1970, as the crates `chrono` and `chrono-tz` tell it; `None`
/// where there is no such zone, where the clocks never show that time, and where the calendar does
/// not reach so far.
pub uninterp spec fn zone_utc(name: Seq<char>, local: i64) -> Option<i64>;

/// The crates `chrono` and `chrono-tz`: the second of the `earliest` of what `from_local_datetime`
/// makes of a local time in a zone. The calendar reaches that second, the offset there leads to the
/// local time, and in `UTC` it is the local time itself. What it is otherwise is left to `zone_utc`.
#[verifier::external_body]
fn utc_of_local(name: &str, local: i64) -> (r: Option<i64>)
    ensures
        r == zone_utc(name@, local),
        r matches Some(ts) ==> in_calendar(ts as int) && zone_offset(name@, ts) == Some(
            (local - ts) as i32,
        ) && -86_400 < local - ts < 86_400,
        name@ == "UTC"@ && in_calendar(local as int) ==> r == Some(local),
{
    let tz = name.parse::<chrono_tz::Tz>().ok()?;
    let dt = chrono::DateTime::from_timestamp(local, 0)?.naive_utc();
    Some(tz.from_local_datetime(&dt).earliest()?.timestamp())
}

/// A day as year, month and day, as the crate `chrono` writes it; `None` where the calendar does not
/// reach so far.
pub uninterp spec fn day_text(days: i32) -> Option<Seq<char>>;

/// The crate `chrono`: what `NaiveDate::format` makes of a day with `%Y-%m-%d`. The day is given by
/// its number, which `from_num_days_from_ce_opt` takes; there is one if and only if the calendar
/// reaches it. How it is written is left to `day_text`.
#[verifier::external_body]
fn write_day(days: i32) -> (r: Option<String>)
    ensures
        text::text_view(r) == day_text(days),
        r is Some <==> FIRST_DAY <= days <= LAST_DAY,
{
    let date = chrono::NaiveDate::from_num_days_from_ce_opt(days)?;
    Some(date.format("%Y-%m-%d").to_string())
}

/// A second as the date and the time of day in a zone, as the crates `chrono` and `chrono-tz` write
/// it; `None` where there is no such zone or the calendar does not reach so far.
pub uninterp spec fn zone_time(name: Seq<char>, ts: i64) -> Option<Seq<char>>;

/// The crates `chrono` and `chrono-tz`: what `DateTime::format` makes of a second in a zone with
/// `%Y-%m-%d %H:%M %Z`. There is one if and only if the zone is known and the calendar reaches the
/// second. How it is written is left to `zone_time`.
#[verifier::external_body]
fn write_time(name: &str, ts: i64) -> (r: Option<String>)
    ensures
        text::text_view(r) == zone_time(name@, ts),
        r is Some == (known_zone(name@) && in_calendar(ts as int)),
{
    let tz = name.parse::<chrono_tz::Tz>().ok()?;
    let dt = tz.timestamp_opt(ts, 0).single()?;
    Some(dt.format("%Y-%m-%d %H:%M %Z").to_string())
}

impl Timezone {
    /// The zone is known.
    #[verifier::type_invariant]
    spec fn inv(self) -> bool {
        known_zone(self.name@)
    }

    /// The zone of a name; `None` where there is no such zone.
    pub fn parse(name: &str) -> (r: Option<Self>)
        ensures
            match r {
                Some(tz) => known_zone(name@) && tz@ == name@,
                None => !known_zone(name@),
            },
            name@ == "UTC"@ ==> r is Some,
    {
        if zone_is_known(name) {
            Some(Timezone { name: name.to_owned() })
        } else {
            None
        }
    }
}

/// The number of the day on which a local time falls.
pub open spec fn day_of(local: int) -> int {
    local / 86_400 + 719_163
}

/// The local time at which a day begins.
pub open spec fn midnight_of(day: int) -> int {
    (day - 719_163) * 86_400
}

/// The number of the day on which a local time falls.
fn day_number(local: i64) -> (r: i64)
    requires
        FIRST_SECOND - 86_400 <= local <= LAST_SECOND + 86_400,
    ensures
        r == day_of(local as int),
{
    if local >= 0 {
        local / 86_400 + 719_163
    } else {
        let back: i64 = (-local + 86_399) / 86_400;
        719_163 - back
    }
}

/// A stretch of seconds on a day.
pub open spec fn on_day(day: int, secs: int) -> Seq<(Seq<char>, u64)> {
    if secs > 0 {
        seq![(day_text(day as i32)->0, secs as u64)]
    } else {
        Seq::empty()
    }
}

/// The clocks of a zone have reached a local time at a second.
pub open spec fn has_reached(zone: Seq<char>, ts: int, local: int) -> bool {
    &&& i64::MIN <= ts <= i64::MAX
    &&& zone_offset(zone, ts as i64) matches Some(offset) && ts + offset >= local
}

/// The first second from `ts` on, and before `end`, at which the clocks of a zone have reached a
/// local time; `end` where there is none.
pub open spec fn first_reached(zone: Seq<char>, ts: int, end: int, local: int) -> int
    decreases end - ts,
{
    if ts >= end || has_reached(zone, ts, local) {
        ts
    } else {
        first_reached(zone, ts + 1, end, local)
    }
}

/// The clocks of a zone show a local time at a second.
pub open spec fn shows(zone: Seq<char>, ts: int, local: int) -> bool {
    &&& i64::MIN <= ts <= i64::MAX
    &&& zone_offset(zone, ts as i64) matches Some(offset) && ts + offset == local
}

/// The offset of a zone at a second is still the offset at another second.
pub open spec fn same_offset(zone: Seq<char>, from: int, ts: int) -> bool {
    zone_offset(zone, ts as i64) == zone_offset(zone, from as i64)
}

/// The second at which a local day begins for those who have seen the clocks at the second `from`:
/// when the clocks come to its midnight without being changed. Where they are changed, it is when
/// they first show its midnight. Where that was before `from`, and where they are put forward past
/// midnight and never show it, the day begins once they have reached it.
pub open spec fn day_start(zone: Seq<char>, from: int, day: int) -> int {
    let midnight = midnight_of(day);
    let ahead = midnight - zone_offset(zone, from as i64)->0;
    if same_offset(zone, from, ahead) {
        ahead
    } else {
        match zone_utc(zone, midnight as i64) {
            Some(ts) if ts >= from => ts as int,
            _ => first_reached(zone, from, midnight + 86_400, midnight),
        }
    }
}

/// The second from which on a session, whose first day is `first`, counts for a day: the beginning of
/// the day, though not before the session and its earlier days, nor after its end.
pub open spec fn cut(start: int, end: int, zone: Seq<char>, first: int, day: int) -> int
    decreases day - first,
{
    if day <= first {
        start
    } else {
        let earlier = cut(start, end, zone, first, day - 1);
        let begins = day_start(zone, earlier, day);
        if begins < earlier {
            earlier
        } else if begins > end {
            end
        } else {
            begins
        }
    }
}

/// The days of a session that are over before `day` begins, with the seconds of each.
pub open spec fn days_before(
    start: int,
    end: int,
    zone: Seq<char>,
    first: int,
    day: int,
) -> Seq<(Seq<char>, u64)>
    decreases day - first,
{
    if day <= first {
        Seq::empty()
    } else {
        days_before(start, end, zone, first, day - 1) + on_day(
            day - 1,
            cut(start, end, zone, first, day) - cut(start, end, zone, first, day - 1),
        )
    }
}

/// The local time of a second in a zone, where the calendar reaches both.
pub open spec fn local_time(zone: Seq<char>, ts: i64) -> Option<int> {
    match zone_offset(zone, ts) {
        Some(offset) => if in_calendar(ts + offset) {
            Some(ts + offset)
        } else {
            None
        },
        None => None,
    }
}

/// The seconds of a session that fall on each local day, in order: the session is cut where the
/// days begin. Clocks that go back across midnight do not bring the earlier day back. There are no
/// days where the calendar does not reach the local time of the beginning or the end.
pub open spec fn split_days(start: i64, end: i64, zone: Seq<char>) -> Seq<(Seq<char>, u64)> {
    match (local_time(zone, start), local_time(zone, end)) {
        (Some(a), Some(b)) => if start >= end {
            Seq::empty()
        } else {
            let first = day_of(a);
            let last = if day_of(b) > first {
                day_of(b)
            } else {
                first
            };
            days_before(start as int, end as int, zone, first, last) + on_day(
                last,
                end - cut(start as int, end as int, zone, first, last),
            )
        },
        _ => Seq::empty(),
    }
}

/// Days and seconds with the days as sequences of characters.
pub open spec fn splits_view(splits: Seq<(String, u64)>) -> Seq<(Seq<char>, u64)> {
    splits.map_values(|s: (String, u64)| (s.0@, s.1))
}

/// The seconds of all days together.
pub open spec fn total_split(splits: Seq<(Seq<char>, u64)>) -> int
    decreases splits.len(),
{
    if splits.len() == 0 {
        0
    } else {
        total_split(splits.drop_last()) + splits.last().1
    }
}

/// Appends a stretch of seconds on a day.
fn push_day(out: &mut Vec<(String, u64)>, day: i64, secs: u64)
    requires
        FIRST_DAY <= day <= LAST_DAY,
    ensures
        splits_view(final(out)@) == splits_view(old(out)@) + on_day(day as int, secs as int),
{
    let ghost before = out@;
    match write_day(day as i32) {
        Some(date) => {
            if secs > 0 {
                out.push((date, secs));
                assert(splits_view(out@) =~= splits_view(before) + seq![(date@, secs)]);
            } else {
                assert(splits_view(before) + Seq::<(Seq<char>, u64)>::empty() =~= splits_view(
                    before,
                ));
            }
        },
        None => {},
    }
}

/// The seconds from one second to a later one, 0 where it is not later.
fn secs_between(from: i64, to: i64) -> (r: u64)
    ensures
        r == if to > from {
            to - from
        } else {
            0
        },
{
    if to > from {
        (to as i128 - from as i128) as u64
    } else {
        0
    }
}

/// Finds the second at which a local day begins for those who have seen the clocks at a second.
fn start_of_day(day: i64, from: i64, tz: &Timezone) -> (r: i64)
    requires
        FIRST_DAY <= day <= LAST_DAY,
        in_calendar(from as int),
    ensures
        r == day_start(tz@, from as int, day as int),
{
    proof {
        use_type_invariant(tz);
    }
    let zone = tz.name.as_str();
    let midnight: i64 = (day - 719_163) * 86_400;
    let here = offset_at(zone, from);
    let ahead: i64 = match here {
        Some(offset) => midnight - offset as i64,
        None => midnight,
    };
    if offset_at(zone, ahead) == here {
        return ahead;
    }
    if let Some(ts) = utc_of_local(zone, midnight) {
        if ts >= from {
            return ts;
        }
    }
    let end: i64 = midnight + 86_400;
    let mut ts: i64 = from;
    while ts < end
        invariant
            midnight == midnight_of(day as int),
            end == midnight + 86_400,
            from <= ts,
            first_reached(tz@, from as int, end as int, midnight as int) == first_reached(
                tz@,
                ts as int,
                end as int,
                midnight as int,
            ),
            zone@ == tz@,
            FIRST_SECOND <= ts,
            end <= LAST_SECOND + 86_400,
            day_start(tz@, from as int, day as int) == first_reached(
                tz@,
                from as int,
                end as int,
                midnight as int,
            ),
        decreases end - ts,
    {
        if let Some(offset) = offset_at(zone, ts) {
            if ts + offset as i64 >= midnight {
                return ts;
            }
        }
        ts = ts + 1;
    }
    ts
}

/// The local time of a second.
fn to_local(ts: i64, tz: &Timezone) -> (r: Option<i64>)
    ensures
        match r {
            Some(local) => local_time(tz@, ts) == Some(local as int),
            None => local_time(tz@, ts) is None,
        },
        r is Some ==> in_calendar(ts as int),
{
    match offset_at(tz.name.as_str(), ts) {
        Some(offset) => {
            let local = ts + offset as i64;
            if FIRST_SECOND <= local && local <= LAST_SECOND {
                Some(local)
            } else {
                None
            }
        },
        None => None,
    }
}

/// Splits a session into the seconds that fall on each local day. They make up the session.
pub fn split_session_by_day(start_utc: i64, end_utc: i64, tz: &Timezone) -> (r: Vec<(String, u64)>)
    ensures
        splits_view(r@) == split_days(start_utc, end_utc, tz@),
        local_time(tz@, start_utc) is Some && local_time(tz@, end_utc) is Some && start_utc
            <= end_utc ==> total_split(splits_view(r@)) == end_utc - start_utc,
{
    let mut out: Vec<(String, u64)> = Vec::new();
    assert(splits_view(out@) =~= Seq::<(Seq<char>, u64)>::empty());
    let a = match to_local(start_utc, tz) {
        Some(a) => a,
        None => return out,
    };
    let b = match to_local(end_utc, tz) {
        Some(b) => b,
        None => return out,
    };
    if start_utc >= end_utc {
        return out;
    }
    let first = day_number(a);
    let last_shown = day_number(b);
    let last: i64 = if last_shown > first {
        last_shown
    } else {
        first
    };
    let ghost (start, end) = (start_utc as int, end_utc as int);
    let mut day: i64 = first;
    let mut from: i64 = start_utc;
    while day < last
        invariant
            start == start_utc,
            end == end_utc,
            start < end,
            in_calendar(start),
            in_calendar(end),
            FIRST_DAY <= first <= day <= last <= LAST_DAY,
            start <= from <= end,
            from == cut(start, end, tz@, first as int, day as int),
            splits_view(out@) == days_before(start, end, tz@, first as int, day as int),
        decreases last - day,
    {
        let begins = start_of_day(day + 1, from, tz);
        let to: i64 = if begins < from {
            from
        } else if begins > end_utc {
            end_utc
        } else {
            begins
        };
        push_day(&mut out, day, secs_between(from, to));
        day = day + 1;
        from = to;
    }
    push_day(&mut out, last, secs_between(from, end_utc));
    proof {
        law_split_adds_up(start_utc, end_utc, tz@);
    }
    out
}

/// The seconds of two lists of days together.
proof fn lemma_total_add(a: Seq<(Seq<char>, u64)>, b: Seq<(Seq<char>, u64)>)
    ensures
        total_split(a + b) == total_split(a) + total_split(b),
    decreases b.len(),
{
    if b.len() == 0 {
        assert(a + b =~= a);
    } else {
        lemma_total_add(a, b.drop_last());
        assert((a + b).drop_last() =~= a + b.drop_last());
    }
}

/// The seconds of one day.
proof fn lemma_total_on_day(day: int, secs: int)
    requires
        0 <= secs <= u64::MAX,
    ensures
        total_split(on_day(day, secs)) == secs,
{
    reveal_with_fuel(total_split, 2);
    if secs > 0 {
        assert(on_day(day, secs).drop_last() =~= Seq::<(Seq<char>, u64)>::empty());
    }
}

/// The days of a session before a day hold the seconds up to where it is cut, which lies within the
/// session.
proof fn lemma_days_before(start: int, end: int, zone: Seq<char>, first: int, day: int)
    requires
        start <= end,
        end - start <= u64::MAX,
        first <= day,
    ensures
        start <= cut(start, end, zone, first, day) <= end,
        total_split(days_before(start, end, zone, first, day)) == cut(start, end, zone, first, day)
            - start,
    decreases day - first,
{
    if first < day {
        lemma_days_before(start, end, zone, first, day - 1);
        let secs = cut(start, end, zone, first, day) - cut(start, end, zone, first, day - 1);
        lemma_total_on_day(day - 1, secs);
        lemma_total_add(days_before(start, end, zone, first, day - 1), on_day(day - 1, secs));
    }
}

/// The seconds of a session's days make up the session, whatever the clocks do meanwhile.
pub proof fn law_split_adds_up(start: i64, end: i64, zone: Seq<char>)
    requires
        local_time(zone, start) is Some,
        local_time(zone, end) is Some,
        start <= end,
    ensures
        total_split(split_days(start, end, zone)) == end - start,
{
    if start < end {
        let first = day_of(local_time(zone, start)->0);
        let shown = day_of(local_time(zone, end)->0);
        let last = if shown > first {
            shown
        } else {
            first
        };
        let (s, e) = (start as int, end as int);
        lemma_days_before(s, e, zone, first, last);
        let rest = e - cut(s, e, zone, first, last);
        lemma_total_on_day(last, rest);
        lemma_total_add(days_before(s, e, zone, first, last), on_day(last, rest));
    }
}

/// The clocks of a zone do not show a time past a local time at a second.
pub open spec fn has_not_passed(zone: Seq<char>, ts: int, local: int) -> bool {
    zone_offset(zone, ts as i64) matches Some(offset) && -86_400 < offset < 86_400 && ts + offset
        <= local
}

/// A session is cut at the local midnights: where the clocks show the midnight of a day once after
/// the day before was cut, and that is where the crates find it, the session counts for the day from
/// that very second.
pub proof fn law_sessions_are_cut_at_midnight(
    start: int,
    end: int,
    zone: Seq<char>,
    first: int,
    day: int,
    ts: int,
)
    requires
        first < day,
        ({
            let earlier = cut(start, end, zone, first, day - 1);
            &&& has_not_passed(zone, earlier, midnight_of(day))
            &&& earlier <= ts <= end
            &&& shows(zone, ts, midnight_of(day))
            &&& forall|t: int|
                earlier <= t && #[trigger] shows(zone, t, midnight_of(day)) ==> t == ts
        }),
        i64::MIN + 86_400 <= midnight_of(day) <= i64::MAX - 86_400,
        zone_utc(zone, midnight_of(day) as i64) == Some(ts as i64),
    ensures
        cut(start, end, zone, first, day) == ts,
{
    let earlier = cut(start, end, zone, first, day - 1);
    let ahead = midnight_of(day) - zone_offset(zone, earlier as i64)->0;
    if same_offset(zone, earlier, ahead) {
        assert(shows(zone, ahead, midnight_of(day)));
    }
}

/// The offset of a zone is the same throughout a session.
pub open spec fn keeps_offset(zone: Seq<char>, start: i64, end: i64, offset: i32) -> bool {
    forall|ts: i64| start <= ts <= end ==> #[trigger] zone_offset(zone, ts) == Some(offset)
}

/// Where the clocks are not changed, the days of a session are cut a day apart, and each has an
/// entry.
proof fn lemma_days_of_one_offset(
    start: i64,
    end: i64,
    zone: Seq<char>,
    offset: i32,
    first: int,
    day: int,
)
    requires
        start < end,
        keeps_offset(zone, start, end, offset),
        first == day_of(start + offset),
        first <= day <= day_of(end + offset),
    ensures
        cut(start as int, end as int, zone, first, day) == if day == first {
            start as int
        } else {
            midnight_of(day) - offset
        },
        days_before(start as int, end as int, zone, first, day).len() == day - first,
        forall|i: int|
            0 <= i < day - first ==> #[trigger] days_before(
                start as int,
                end as int,
                zone,
                first,
                day,
            )[i] == (
                day_text((first + i) as i32)->0,
                (midnight_of(first + i + 1) - offset - if i == 0 {
                    start as int
                } else {
                    midnight_of(first + i) - offset
                }) as u64,
            ),
    decreases day - first,
{
    if first < day {
        lemma_days_of_one_offset(start, end, zone, offset, first, day - 1);
        let earlier = cut(start as int, end as int, zone, first, day - 1);
        let ahead = midnight_of(day) - offset;
        assert(start <= earlier < ahead <= end);
        assert(zone_offset(zone, earlier as i64) == Some(offset));
        assert(zone_offset(zone, ahead as i64) == Some(offset));
        let before = days_before(start as int, end as int, zone, first, day - 1);
        let all = days_before(start as int, end as int, zone, first, day);
        assert(all == before + on_day(day - 1, ahead - earlier));
        assert forall|i: int| 0 <= i < day - first implies #[trigger] all[i] == (
            day_text((first + i) as i32)->0,
            (midnight_of(first + i + 1) - offset - if i == 0 {
                start as int
            } else {
                midnight_of(first + i) - offset
            }) as u64,
        ) by {
            if i < day - 1 - first {
                assert(all[i] == before[i]);
            }
        }
    }
}

/// Where the clocks are not changed during a session, its days follow one another without a gap or
/// a repeat, from the local day of its first second to that of its last, and each has the seconds of
/// the session that lie between its midnights: at least one, and no more than a day has.
pub proof fn law_days_follow_one_another(start: i64, end: i64, zone: Seq<char>, offset: i32)
    requires
        start < end,
        keeps_offset(zone, start, end, offset),
        in_calendar(start + offset),
        in_calendar(end + offset),
    ensures
        ({
            let days = split_days(start, end, zone);
            let first = day_of(start + offset);
            &&& days.len() == day_of(end - 1 + offset) - first + 1
            &&& forall|i: int|
                0 <= i < days.len() ==> (#[trigger] days[i]).0 == day_text((first + i) as i32)->0
                    && days[i].1 == if i == days.len() - 1 {
                    end as int
                } else {
                    midnight_of(first + i + 1) - offset
                } - if i == 0 {
                    start as int
                } else {
                    midnight_of(first + i) - offset
                } && 1 <= days[i].1 <= 86_400
        }),
{
    let first = day_of(start + offset);
    let last = day_of(end + offset);
    assert(zone_offset(zone, start) == Some(offset));
    assert(zone_offset(zone, end) == Some(offset));
    lemma_days_of_one_offset(start, end, zone, offset, first, last);
    let before = days_before(start as int, end as int, zone, first, last);
    let rest = on_day(last, end - cut(start as int, end as int, zone, first, last));
    let days = split_days(start, end, zone);
    assert(days == before + rest);
    assert forall|i: int| 0 <= i < days.len() implies (#[trigger] days[i]).0 == day_text(
        (first + i) as i32,
    )->0 && days[i].1 == if i == days.len() - 1 {
        end as int
    } else {
        midnight_of(first + i + 1) - offset
    } - if i == 0 {
        start as int
    } else {
        midnight_of(first + i) - offset
    } && 1 <= days[i].1 <= 86_400 by {
        if i < before.len() {
            assert(days[i] == before[i]);
        }
    }
}

/// What has happened since the last flush, and who is playing.
pub struct PendingState {
    uuid_cache: TextMap<String>,
    online_sessions: TextMap<i64>,
    pending_deltas: TextMap<PlayerDelta>,
    pending_daily: TextMap<u64>,
}

/// What has happened since the last flush, and who is playing: the UUIDs of players, the second at
/// which each player who is playing has come, and by UUID, and by UUID and day, what has happened.
#[verifier::ext_equal]
pub struct StateView {
    pub uuids: Map<Seq<char>, Seq<char>>,
    pub sessions: Map<Seq<char>, i64>,
    pub deltas: Map<Seq<char>, PlayerDelta>,
    pub daily: Map<Seq<char>, u64>,
}

/// The UUIDs of players as sequences of characters.
pub open spec fn uuids_view(m: Map<Seq<char>, String>) -> Map<Seq<char>, Seq<char>> {
    Map::new(|k: Seq<char>| m.contains_key(k), |k: Seq<char>| m[k]@)
}

impl View for PendingState {
    type V = StateView;

    closed spec fn view(&self) -> StateView {
        StateView {
            uuids: uuids_view(self.uuid_cache@),
            sessions: self.online_sessions@,
            deltas: self.pending_deltas@,
            daily: self.pending_daily@,
        }
    }
}

/// What a player is recorded under: the UUID, or the name where the UUID is not known.
pub open spec fn recorded_as(v: StateView, username: Seq<char>) -> Seq<char> {
    if v.uuids.contains_key(username) {
        v.uuids[username]
    } else {
        username
    }
}

/// What has happened to a player since the last flush.
pub open spec fn delta_of(v: StateView, uuid: Seq<char>) -> PlayerDelta {
    if v.deltas.contains_key(uuid) {
        v.deltas[uuid]
    } else {
        records::no_delta()
    }
}

/// The things that players do which are counted.
#[derive(Debug, Clone, Copy, PartialEq, Eq, Structural)]
pub enum Counter {
    Deaths,
    Advancements,
    Messages,
    Commands,
}

/// What has happened, and one thing more; `None` where the counter cannot grow.
pub open spec fn bumped(d: PlayerDelta, c: Counter) -> Option<PlayerDelta> {
    match c {
        Counter::Deaths => if d.deaths < u64::MAX {
            Some(PlayerDelta { deaths: (d.deaths + 1) as u64, ..d })
        } else {
            None
        },
        Counter::Advancements => if d.advancements < u64::MAX {
            Some(PlayerDelta { advancements: (d.advancements + 1) as u64, ..d })
        } else {
            None
        },
        Counter::Messages => if d.messages < u64::MAX {
            Some(PlayerDelta { messages: (d.messages + 1) as u64, ..d })
        } else {
            None
        },
        Counter::Commands => if d.commands < u64::MAX {
            Some(PlayerDelta { commands: (d.commands + 1) as u64, ..d })
        } else {
            None
        },
    }
}

/// The state once a player has done something that is counted.
pub open spec fn counted(v: StateView, username: Seq<char>, c: Counter) -> Option<StateView> {
    let uuid = recorded_as(v, username);
    match bumped(delta_of(v, uuid), c) {
        Some(d) => Some(StateView { deltas: v.deltas.insert(uuid, d), ..v }),
        None => None,
    }
}

/// The state once a player has come. `known` says whether there is a record of the player.
pub open spec fn joined(v: StateView, username: Seq<char>, now: i64, known: bool) -> Option<StateView> {
    let uuid = recorded_as(v, username);
    let d = delta_of(v, uuid);
    if d.total_logins_delta < u64::MAX {
        Some(
            StateView {
                sessions: v.sessions.insert(username, now),
                deltas: v.deltas.insert(
                    uuid,
                    PlayerDelta {
                        last_login_ts: Some(now),
                        total_logins_delta: (d.total_logins_delta + 1) as u64,
                        is_new_player: !known,
                        ..d
                    },
                ),
                ..v
            },
        )
    } else {
        None
    }
}

/// The seconds that have passed.
pub open spec fn passed(from: i64, to: i64) -> int {
    if to > from {
        to - from
    } else {
        0
    }
}

/// The key under which the seconds of a player and a day are kept.
pub open spec fn day_key(uuid: Seq<char>, date: Seq<char>) -> Seq<char> {
    uuid.push('\u{1f}') + date
}

/// The changes that the days of a session are.
pub open spec fn day_additions(uuid: Seq<char>, splits: Seq<(Seq<char>, u64)>) -> Seq<
    (Seq<char>, u64),
> {
    splits.map_values(|s: (Seq<char>, u64)| (day_key(uuid, s.0), s.1))
}

/// The seconds of days after a session; `None` where they exceed the range.
pub open spec fn days_grown(
    daily: Map<Seq<char>, u64>,
    uuid: Seq<char>,
    splits: Seq<(Seq<char>, u64)>,
) -> Option<Map<Seq<char>, u64>> {
    records::stepped(
        daily,
        day_additions(uuid, splits),
        |n: Option<u64>, secs: u64| records::day_step(n, secs),
    )
}

/// The state once the time that a player has played since `start` is counted; `None` where it
/// exceeds the range.
pub open spec fn session_counted(
    v: StateView,
    username: Seq<char>,
    start: i64,
    now: i64,
    zone: Seq<char>,
) -> Option<StateView> {
    let uuid = recorded_as(v, username);
    let d = delta_of(v, uuid);
    if d.play_time_secs + passed(start, now) > u64::MAX {
        None
    } else {
        match days_grown(v.daily, uuid, split_days(start, now, zone)) {
            Some(daily) => Some(
                StateView {
                    deltas: v.deltas.insert(
                        uuid,
                        PlayerDelta {
                            play_time_secs: (d.play_time_secs + passed(start, now)) as u64,
                            last_logout_ts: Some(now),
                            ..d
                        },
                    ),
                    daily,
                    ..v
                },
            ),
            None => None,
        }
    }
}

/// The state once a player has left; nothing changes where the player was not playing.
pub open spec fn left(v: StateView, username: Seq<char>, now: i64, zone: Seq<char>) -> Option<StateView> {
    if v.sessions.contains_key(username) {
        session_counted(
            StateView { sessions: v.sessions.remove(username), ..v },
            username,
            v.sessions[username],
            now,
            zone,
        )
    } else {
        Some(v)
    }
}

/// The state once the time of several players is counted, one after the other.
pub open spec fn sessions_counted(
    v: StateView,
    names: Seq<Seq<char>>,
    now: i64,
    zone: Seq<char>,
) -> Option<StateView>
    decreases names.len(),
{
    if names.len() == 0 {
        Some(v)
    } else {
        match sessions_counted(v, names.drop_last(), now, zone) {
            Some(w) => session_counted(w, names.last(), v.sessions[names.last()], now, zone),
            None => None,
        }
    }
}

/// The state once all who are playing are counted as gone.
pub open spec fn all_left(
    v: StateView,
    names: Seq<Seq<char>>,
    now: i64,
    zone: Seq<char>,
) -> Option<StateView> {
    match sessions_counted(v, names, now, zone) {
        Some(w) => Some(StateView { sessions: Map::empty(), ..w }),
        None => None,
    }
}

/// The names are those of all who are playing, each once.
pub open spec fn names_all(names: Seq<Seq<char>>, sessions: Map<Seq<char>, i64>) -> bool {
    names.no_duplicates() && forall|k: Seq<char>|
        sessions.contains_key(k) <==> #[trigger] names.contains(k)
}

/// The key of a player and a day, taken apart at the first separator.
pub open spec fn key_parts(key: Seq<char>) -> Option<(Seq<char>, Seq<char>)> {
    match text::after_text(key, "\u{1f}"@) {
        Some(date) => Some((key.take(key.len() - date.len() - 1), date)),
        None => None,
    }
}

/// The rows that keys of players and days make, in order; a key without a separator makes none.
pub open spec fn day_rows(keys: Seq<Seq<char>>, daily: Map<Seq<char>, u64>) -> Seq<
    ((Seq<char>, Seq<char>), u64),
>
    decreases keys.len(),
{
    if keys.len() == 0 {
        Seq::empty()
    } else {
        let rest = day_rows(keys.drop_last(), daily);
        match key_parts(keys.last()) {
            Some(parts) => rest.push((parts, daily[keys.last()])),
            None => rest,
        }
    }
}

/// The keys are those of a map, each once.
pub open spec fn lists_keys<V>(keys: Seq<Seq<char>>, m: Map<Seq<char>, V>) -> bool {
    keys.no_duplicates() && forall|k: Seq<char>|
        m.contains_key(k) <==> #[trigger] keys.contains(k)
}

/// The entries are those of a map, in the order of the keys.
pub open spec fn lists_entries<V>(
    entries: Seq<(String, V)>,
    keys: Seq<Seq<char>>,
    m: Map<Seq<char>, V>,
) -> bool {
    entries.len() == keys.len() && forall|i: int|
        0 <= i < entries.len() ==> (#[trigger] entries[i]).0@ == keys[i] && entries[i].1
            == m[keys[i]]
}

impl PendingState {
    /// The maps are well formed.
    pub closed spec fn wf(self) -> bool {
        &&& self.uuid_cache.wf()
        &&& self.online_sessions.wf()
        &&& self.pending_deltas.wf()
        &&& self.pending_daily.wf()
    }

    /// Nothing has happened, and nobody is playing.
    pub fn new() -> (r: Self)
        ensures
            r.wf(),
            r@ == (StateView {
                uuids: Map::empty(),
                sessions: Map::empty(),
                deltas: Map::empty(),
                daily: Map::empty(),
            }),
    {
        let r = PendingState {
            uuid_cache: TextMap::new(),
            online_sessions: TextMap::new(),
            pending_deltas: TextMap::new(),
            pending_daily: TextMap::new(),
        };
        assert(r@.uuids =~= Map::<Seq<char>, Seq<char>>::empty());
        r
    }

    /// What a player is recorded under.
    pub fn resolve_uuid(&self, username: &str) -> (r: String)
        requires
            self.wf(),
        ensures
            r@ == recorded_as(self@, username@),
    {
        match self.uuid_cache.get(username) {
            Some(uuid) => uuid.clone(),
            None => username.to_owned(),
        }
    }

    /// What has happened to a player.
    fn delta(&self, uuid: &str) -> (r: PlayerDelta)
        requires
            self.wf(),
        ensures
            r == delta_of(self@, uuid@),
    {
        match self.pending_deltas.get(uuid) {
            Some(d) => *d,
            None => PlayerDelta::default(),
        }
    }

    /// Notes the UUID of a player.
    pub fn note_uuid(&mut self, username: &str, uuid: &str)
        requires
            old(self).wf(),
        ensures
            final(self).wf(),
            final(self)@ == (StateView {
                uuids: old(self)@.uuids.insert(username@, uuid@),
                ..old(self)@
            }),
    {
        let ghost before = self.uuid_cache@;
        self.uuid_cache.insert(username.to_owned(), uuid.to_owned());
        assert(uuids_view(self.uuid_cache@) =~= uuids_view(before).insert(username@, uuid@));
    }

    /// Counts something that a player has done. It tells whether the counter could grow; where it
    /// could not, nothing changes.
    pub fn count(&mut self, username: &str, c: Counter) -> (r: bool)
        requires
            old(self).wf(),
        ensures
            final(self).wf(),
            r == counted(old(self)@, username@, c) is Some,
            final(self)@ == if r {
                counted(old(self)@, username@, c)->0
            } else {
                old(self)@
            },
    {
        let uuid = self.resolve_uuid(username);
        let mut d = self.delta(uuid.as_str());
        match c {
            Counter::Deaths => {
                if d.deaths == 0xffff_ffff_ffff_ffff {
                    return false;
                }
                d.deaths = d.deaths + 1;
            },
            Counter::Advancements => {
                if d.advancements == 0xffff_ffff_ffff_ffff {
                    return false;
                }
                d.advancements = d.advancements + 1;
            },
            Counter::Messages => {
                if d.messages == 0xffff_ffff_ffff_ffff {
                    return false;
                }
                d.messages = d.messages + 1;
            },
            Counter::Commands => {
                if d.commands == 0xffff_ffff_ffff_ffff {
                    return false;
                }
                d.commands = d.commands + 1;
            },
        }
        self.pending_deltas.insert(uuid, d);
        true
    }

    /// Notes that a player has come. It tells whether the counter of logins could grow; where it
    /// could not, nothing changes.
    pub fn handle_join(&mut self, username: &str, now: i64, known: bool) -> (r: bool)
        requires
            old(self).wf(),
        ensures
            final(self).wf(),
            r == joined(old(self)@, username@, now, known) is Some,
            final(self)@ == if r {
                joined(old(self)@, username@, now, known)->0
            } else {
                old(self)@
            },
    {
        let uuid = self.resolve_uuid(username);
        let mut d = self.delta(uuid.as_str());
        if d.total_logins_delta == 0xffff_ffff_ffff_ffff {
            return false;
        }
        d.last_login_ts = Some(now);
        d.total_logins_delta = d.total_logins_delta + 1;
        d.is_new_player = !known;
        self.online_sessions.insert(username.to_owned(), now);
        self.pending_deltas.insert(uuid, d);
        true
    }

    /// Adds the seconds of days to those of a player. It tells whether they stayed within the range.
    fn add_days(&mut self, uuid: &str, splits: &Vec<(String, u64)>) -> (r: bool)
        requires
            old(self).wf(),
        ensures
            final(self).wf(),
            final(self).online_sessions == old(self).online_sessions,
            final(self).uuid_cache == old(self).uuid_cache,
            final(self).pending_deltas == old(self).pending_deltas,
            r == days_grown(old(self)@.daily, uuid@, splits_view(splits@)) is Some,
            r ==> final(self)@.daily == days_grown(
                old(self)@.daily,
                uuid@,
                splits_view(splits@),
            )->0,
    {
        let ghost before = self@.daily;
        let ghost changes = day_additions(uuid@, splits_view(splits@));
        let ghost step = |n: Option<u64>, secs: u64| records::day_step(n, secs);
        let mut i: usize = 0;
        assert(changes.take(0) =~= Seq::<(Seq<char>, u64)>::empty());
        while i < splits.len()
            invariant
                i <= splits@.len(),
                self.wf(),
                self.online_sessions == old(self).online_sessions,
                self.uuid_cache == old(self).uuid_cache,
                self.pending_deltas == old(self).pending_deltas,
                before == old(self)@.daily,
                changes == day_additions(uuid@, splits_view(splits@)),
                step == (|n: Option<u64>, secs: u64| records::day_step(n, secs)),
                records::stepped(before, changes.take(i as int), step) == Some(self.pending_daily@),
            decreases splits@.len() - i,
        {
            assert(changes.take(i + 1).drop_last() =~= changes.take(i as int));
            let mut key = uuid.to_owned();
            key.push('\u{1f}');
            key.append(splits[i].0.as_str());
            let current: u64 = match self.pending_daily.get(key.as_str()) {
                Some(n) => *n,
                None => 0,
            };
            match current.checked_add(splits[i].1) {
                Some(n) => {
                    self.pending_daily.insert(key, n);
                },
                None => {
                    proof {
                        records::lemma_stepped_fails(before, changes, i + 1, step);
                    }
                    return false;
                },
            }
            i = i + 1;
        }
        assert(changes.take(i as int) =~= changes);
        true
    }

    /// Counts the time that a player has played since `start`. It tells whether the time stayed
    /// within the range.
    fn count_session(&mut self, username: &str, start: i64, now: i64, tz: &Timezone) -> (r: bool)
        requires
            old(self).wf(),
        ensures
            final(self).wf(),
            final(self).online_sessions == old(self).online_sessions,
            r == session_counted(old(self)@, username@, start, now, tz@) is Some,
            r ==> final(self)@ == session_counted(old(self)@, username@, start, now, tz@)->0,
    {
        let uuid = self.resolve_uuid(username);
        let mut d = self.delta(uuid.as_str());
        let secs = secs_between(start, now);
        match d.play_time_secs.checked_add(secs) {
            Some(total) => {
                d.play_time_secs = total;
            },
            None => return false,
        }
        d.last_logout_ts = Some(now);
        let splits = split_session_by_day(start, now, tz);
        if !self.add_days(uuid.as_str(), &splits) {
            return false;
        }
        self.pending_deltas.insert(uuid, d);
        true
    }

    /// Notes that a player has left, and counts the time that the player has played. Where the
    /// player was not playing, nothing changes and there is nothing to flush. `None` tells that the
    /// time exceeded the range.
    pub fn handle_leave(&mut self, username: &str, now: i64, tz: &Timezone) -> (r: Option<bool>)
        requires
            old(self).wf(),
        ensures
            final(self).wf(),
            r is Some == left(old(self)@, username@, now, tz@) is Some,
            r matches Some(flush) ==> {
                &&& final(self)@ == left(old(self)@, username@, now, tz@)->0
                &&& flush == old(self)@.sessions.contains_key(username@)
            },
    {
        let start: i64 = match self.online_sessions.remove(username) {
            Some(start) => start,
            None => {
                assert(self@ =~= old(self)@);
                return Some(false);
            },
        };
        if self.count_session(username, start, now, tz) {
            Some(true)
        } else {
            None
        }
    }

    /// Counts the time of all who are playing, and takes them to have left. It tells whether the
    /// time stayed within the range.
    pub fn flush_all_sessions(&mut self, now: i64, tz: &Timezone) -> (r: bool)
        requires
            old(self).wf(),
        ensures
            final(self).wf(),
            exists|names: Seq<Seq<char>>|
                #![trigger names_all(names, old(self)@.sessions)]
                names_all(names, old(self)@.sessions) && r == all_left(
                    old(self)@,
                    names,
                    now,
                    tz@,
                ) is Some && (r ==> final(self)@ == all_left(old(self)@, names, now, tz@)->0),
    {
        let ghost v = self@;
        let ghost names = self.online_sessions.keys();
        proof {
            self.online_sessions.lemma_keys();
            assert(names_all(names, v.sessions));
        }
        let mut i: usize = 0;
        assert(names.take(0) =~= Seq::<Seq<char>>::empty());
        while i < self.online_sessions.len()
            invariant
                i <= names.len(),
                self.wf(),
                    self.online_sessions == old(self).online_sessions,
                v == old(self)@,
                names == self.online_sessions.keys(),
                names_all(names, v.sessions),
                sessions_counted(v, names.take(i as int), now, tz@) == Some(self@),
            decreases names.len() - i,
        {
            let username = self.online_sessions.key_at(i).clone();
            let start = *self.online_sessions.value_at(i);
            proof {
                assert(names.take(i + 1).drop_last() =~= names.take(i as int));
                assert(names.contains(names[i as int]));
            }
            if !self.count_session(username.as_str(), start, now, tz) {
                proof {
                    lemma_sessions_fail(v, names, i + 1, now, tz@);
                }
                return false;
            }
            i = i + 1;
        }
        assert(names.take(i as int) =~= names);
        self.online_sessions = TextMap::new();
        true
    }

    /// Takes out what has happened since the last flush, for the database; `None` where there is
    /// nothing.
    pub fn flush(&mut self) -> (r: Option<(Vec<(String, PlayerDelta)>, Vec<(String, DailyTimeSplit)>)>)
        requires
            old(self).wf(),
        ensures
            final(self).wf(),
            match r {
                None => {
                    &&& old(self)@.deltas == Map::<Seq<char>, PlayerDelta>::empty()
                    &&& old(self)@.daily == Map::<Seq<char>, u64>::empty()
                    &&& final(self)@ == old(self)@
                },
                Some((deltas, daily)) => {
                    &&& old(self)@.deltas != Map::<Seq<char>, PlayerDelta>::empty() || old(
                        self,
                    )@.daily != Map::<Seq<char>, u64>::empty()
                    &&& exists|keys: Seq<Seq<char>>|
                        #![trigger lists_keys(keys, old(self)@.deltas)]
                        lists_keys(keys, old(self)@.deltas) && lists_entries(
                            deltas@,
                            keys,
                            old(self)@.deltas,
                        )
                    &&& exists|keys: Seq<Seq<char>>|
                        #![trigger lists_keys(keys, old(self)@.daily)]
                        lists_keys(keys, old(self)@.daily) && records::day_changes(daily@)
                            == day_rows(keys, old(self)@.daily)
                    &&& final(self)@ == (StateView {
                        deltas: Map::empty(),
                        daily: Map::empty(),
                        ..old(self)@
                    })
                },
            },
    {
        let ghost v = self@;
        let ghost names = self.pending_deltas.keys();
        let ghost keys = self.pending_daily.keys();
        proof {
            self.pending_deltas.lemma_keys();
            self.pending_daily.lemma_keys();
            assert(lists_keys(names, v.deltas));
            assert(lists_keys(keys, v.daily));
            lemma_empty_keys(names, v.deltas);
            lemma_empty_keys(keys, v.daily);
        }
        if self.pending_deltas.is_empty() && self.pending_daily.is_empty() {
            return None;
        }
        let mut deltas: Vec<(String, PlayerDelta)> = Vec::new();
        let mut i: usize = 0;
        while i < self.pending_deltas.len()
            invariant
                self.wf(),
                v == self@,
                names == self.pending_deltas.keys(),
                i <= names.len(),
                deltas@.len() == i,
                forall|j: int|
                    0 <= j < i ==> (#[trigger] deltas@[j]).0@ == names[j] && deltas@[j].1
                        == v.deltas[names[j]],
            decreases names.len() - i,
        {
            deltas.push((self.pending_deltas.key_at(i).clone(), *self.pending_deltas.value_at(i)));
            i = i + 1;
        }
        let mut daily: Vec<(String, DailyTimeSplit)> = Vec::new();
        let mut j: usize = 0;
        assert(records::day_changes(daily@) =~= day_rows(keys.take(0), v.daily));
        while j < self.pending_daily.len()
            invariant
                self.wf(),
                v == self@,
                keys == self.pending_daily.keys(),
                j <= keys.len(),
                records::day_changes(daily@) == day_rows(keys.take(j as int), v.daily),
            decreases keys.len() - j,
        {
            let ghost before = daily@;
            assert(keys.take(j + 1).drop_last() =~= keys.take(j as int));
            if let Some((uuid, date)) = split_key(self.pending_daily.key_at(j).as_str()) {
                let secs = *self.pending_daily.value_at(j);
                let row = (uuid, DailyTimeSplit { date, secs });
                daily.push(row);
                assert(records::day_changes(daily@) =~= records::day_changes(before).push(
                    ((row.0@, row.1.date@), secs),
                ));
            }
            j = j + 1;
        }
        assert(keys.take(j as int) =~= keys);
        self.pending_deltas = TextMap::new();
        self.pending_daily = TextMap::new();
        Some((deltas, daily))
    }
}

/// A map has no keys exactly where it is empty.
proof fn lemma_empty_keys<V>(keys: Seq<Seq<char>>, m: Map<Seq<char>, V>)
    requires
        lists_keys(keys, m),
    ensures
        keys.len() == 0 <==> m == Map::<Seq<char>, V>::empty(),
{
    if keys.len() == 0 {
        assert forall|k: Seq<char>| !m.contains_key(k) by {
            assert(!keys.contains(k));
        }
        assert(m =~= Map::<Seq<char>, V>::empty());
    } else {
        assert(keys.contains(keys[0]));
    }
}

/// Time that exceeds the range is not made up for by the time of others.
proof fn lemma_sessions_fail(v: StateView, names: Seq<Seq<char>>, n: int, now: i64, zone: Seq<char>)
    requires
        0 <= n <= names.len(),
        sessions_counted(v, names.take(n), now, zone) is None,
    ensures
        sessions_counted(v, names, now, zone) is None,
    decreases names.len() - n,
{
    if n == names.len() {
        assert(names.take(n) =~= names);
    } else {
        assert(names.take(n + 1).drop_last() =~= names.take(n));
        lemma_sessions_fail(v, names, n + 1, now, zone);
    }
}

/// Takes the key of a player and a day apart.
fn split_key(key: &str) -> (r: Option<(String, String)>)
    ensures
        match r {
            Some((uuid, date)) => key_parts(key@) == Some((uuid@, date@)),
            None => key_parts(key@) is None,
        },
{
    let v = chars_of(key);
    let len = v.len();
    match find_text(v.as_slice(), "\u{1f}") {
        Some(i) => {
            proof {
                reveal_strlit("\u{1f}");
                text::lemma_first_text(key@, i as int, "\u{1f}"@);
                assert(text::text_at(key@, i as int, "\u{1f}"@) && i + 1 <= len);
            }
            let uuid = slice_subrange(v.as_slice(), 0, i);
            let date = tail(v.as_slice(), i + 1);
            assert(uuid@ =~= key@.take(i as int));
            Some((string_of(uuid), string_of(date)))
        },
        None => None,
    }
}

/// What a player who has come is told.
#[derive(Debug, PartialEq)]
pub enum Greeting {
    /// The player is new: the command that welcomes the player.
    Welcome { command: String },
    /// The player is known: the time of the last login, and the day before, whose seconds played by
    /// the player of the UUID are to be read for the reminder.
    Reminder { uuid: String, last_login: String, yesterday: String },
}

/// What is done upon an event.
#[derive(Debug, PartialEq)]
pub enum TrackerAction {
    Nothing,
    /// The transaction that records a UUID is carried out.
    Store { writes: Vec<RowWrite> },
    /// A player is greeted.
    Greet { greeting: Greeting },
    /// What has happened is written to the database at once.
    Flush,
}

/// The command that welcomes a new player.
pub open spec fn welcome_text(username: Seq<char>) -> Seq<char> {
    "tellraw @a {\"text\":\"[Stats] Welcome "@ + username
        + "! This is your first login.\",\"color\":\"green\"}"@
}

/// Writes the command that welcomes a new player.
pub fn new_player_welcome(username: &str) -> (r: String)
    ensures
        r@ == welcome_text(username@),
{
    let mut s = "tellraw @a {\"text\":\"[Stats] Welcome ".to_owned();
    s.append(username);
    s.append("! This is your first login.\",\"color\":\"green\"}");
    s
}

/// The command that reminds a player of the last login and of the time played the day before.
pub open spec fn reminder_text(
    username: Seq<char>,
    last_login: Seq<char>,
    yesterday_secs: nat,
) -> Seq<char> {
    "tellraw @a {\"text\":\"[Stats] Welcome back "@ + username + "! Last login: "@ + last_login
        + ". Yesterday you played "@ + duration_text(yesterday_secs)
        + ".\",\"color\":\"gold\"}"@
}

/// Writes the command that reminds a player of the last login and of the time played the day
/// before.
pub fn login_reminder(username: &str, last_login: &str, yesterday_secs: u64) -> (r: String)
    ensures
        r@ == reminder_text(username@, last_login@, yesterday_secs as nat),
{
    let played = format_duration(yesterday_secs);
    let mut s = "tellraw @a {\"text\":\"[Stats] Welcome back ".to_owned();
    s.append(username);
    s.append("! Last login: ");
    s.append(last_login);
    s.append(". Yesterday you played ");
    s.append(played.as_str());
    s.append(".\",\"color\":\"gold\"}");
    s
}

/// The time of a last login, where it is known.
pub open spec fn last_login_text(ts: i64, zone: Seq<char>) -> Seq<char> {
    match zone_time(zone, ts) {
        Some(s) => if ts > 0 {
            s
        } else {
            "unknown"@
        },
        None => "unknown"@,
    }
}

/// Writes the time of a last login.
fn write_last_login(ts: i64, tz: &Timezone) -> (r: String)
    ensures
        r@ == last_login_text(ts, tz@),
{
    let written = write_time(tz.name.as_str(), ts);
    if ts > 0 {
        match written {
            Some(s) => s,
            None => "unknown".to_owned(),
        }
    } else {
        "unknown".to_owned()
    }
}

/// The local day that lies `back` days before the day of a second; `None` where the calendar does
/// not reach so far.
pub open spec fn earlier_day(now: i64, zone: Seq<char>, back: int) -> Option<Seq<char>> {
    match local_time(zone, now) {
        Some(local) => day_text((day_of(local) - back) as i32),
        None => None,
    }
}

/// Writes the local day that lies `back` days before the day of a second.
fn write_earlier_day(now: i64, tz: &Timezone, back: i64) -> (r: Option<String>)
    requires
        0 <= back < 7,
    ensures
        text::text_view(r) == earlier_day(now, tz@, back as int),
{
    match to_local(now, tz) {
        Some(local) => {
            let day = day_number(local) - back;
            write_day(day as i32)
        },
        None => None,
    }
}

/// Writes the last seven local days, the day of a second first; `None` where the calendar does not
/// reach one of them.
pub fn recent_dates(now: i64, tz: &Timezone) -> (r: Option<Vec<String>>)
    ensures
        match r {
            Some(dates) => dates@.len() == 7 && forall|i: int|
                0 <= i < 7 ==> earlier_day(now, tz@, i) == Some((#[trigger] dates@[i])@),
            None => exists|i: int| 0 <= i < 7 && #[trigger] earlier_day(now, tz@, i) is None,
        },
{
    let mut dates: Vec<String> = Vec::new();
    let mut back: i64 = 0;
    while back < 7
        invariant
            0 <= back <= 7,
            dates@.len() == back,
            forall|i: int|
                0 <= i < back ==> earlier_day(now, tz@, i) == Some((#[trigger] dates@[i])@),
        decreases 7 - back,
    {
        match write_earlier_day(now, tz, back) {
            Some(date) => {
                dates.push(date);
            },
            None => {
                assert(earlier_day(now, tz@, back as int) is None);
                return None;
            },
        }
        back = back + 1;
    }
    Some(dates)
}

/// The greeting of a player who has come is the one that the player's record calls for.
pub open spec fn greets(
    g: Greeting,
    v: StateView,
    username: Seq<char>,
    existing: Option<PlayerStats>,
    now: i64,
    zone: Seq<char>,
) -> bool {
    match existing {
        Some(stats) => {
            &&& g matches Greeting::Reminder { uuid, last_login, yesterday }
            &&& uuid@ == recorded_as(v, username)
            &&& last_login@ == last_login_text(stats.last_login_ts, zone)
            &&& earlier_day(now, zone, 1) == Some(yesterday@)
        },
        None => g matches Greeting::Welcome { command } && command@ == welcome_text(username),
    }
}

/// A player who has come can be greeted: the calendar reaches the day before, of which a player who
/// is known is reminded.
pub open spec fn can_greet(existing: Option<PlayerStats>, now: i64, zone: Seq<char>) -> bool {
    existing is Some ==> earlier_day(now, zone, 1) is Some
}

/// Decides how a player who has come is greeted; `None` where the calendar does not reach the day
/// before.
fn greet(
    state: &PendingState,
    username: &str,
    existing: Option<PlayerStats>,
    now: i64,
    tz: &Timezone,
) -> (r: Option<Greeting>)
    requires
        state.wf(),
    ensures
        r is Some == can_greet(existing, now, tz@),
        r matches Some(g) ==> greets(g, state@, username@, existing, now, tz@),
{
    match existing {
        Some(stats) => match write_earlier_day(now, tz, 1) {
            Some(yesterday) => Some(
                Greeting::Reminder {
                    uuid: state.resolve_uuid(username),
                    last_login: write_last_login(stats.last_login_ts, tz),
                    yesterday,
                },
            ),
            None => None,
        },
        None => Some(Greeting::Welcome { command: new_player_welcome(username) }),
    }
}

/// The state after an event other than the stop of the server; `None` where a counter cannot grow.
pub open spec fn state_after(
    v: StateView,
    e: StatsEventView,
    existing: Option<PlayerStats>,
    now: i64,
    zone: Seq<char>,
) -> Option<StateView> {
    match e {
        StatsEventView::UuidResolved { username, uuid } => Some(
            StateView { uuids: v.uuids.insert(username, uuid), ..v },
        ),
        StatsEventView::Join { username } => joined(v, username, now, existing is Some),
        StatsEventView::Leave { username } => left(v, username, now, zone),
        StatsEventView::Disconnect { username, .. } => left(v, username, now, zone),
        StatsEventView::Death { username } => counted(v, username, Counter::Deaths),
        StatsEventView::Advancement { username, .. } => counted(v, username, Counter::Advancements),
        StatsEventView::Chat { username } => counted(v, username, Counter::Messages),
        StatsEventView::Command { username } => counted(v, username, Counter::Commands),
        StatsEventView::ServerStart => Some(v),
        StatsEventView::ServerStop => Some(v),
    }
}

/// What is done upon an event is what it calls for.
pub open spec fn answers(
    a: TrackerAction,
    v: StateView,
    e: StatsEventView,
    existing: Option<PlayerStats>,
    now: i64,
    zone: Seq<char>,
) -> bool {
    match e {
        StatsEventView::UuidResolved { username, uuid } => a matches TrackerAction::Store { writes }
            && forall|t: Tables| #[trigger]
            tables::written_all(t, writes@) == (Tables {
                username_uuid: t.username_uuid.insert(username, uuid),
                ..t
            }),
        StatsEventView::Join { username } => a matches TrackerAction::Greet { greeting } && greets(
            greeting,
            v,
            username,
            existing,
            now,
            zone,
        ),
        StatsEventView::Leave { username } => if v.sessions.contains_key(username) {
            a is Flush
        } else {
            a is Nothing
        },
        StatsEventView::Disconnect { username, .. } => if v.sessions.contains_key(username) {
            a is Flush
        } else {
            a is Nothing
        },
        StatsEventView::ServerStop => a is Flush,
        _ => a is Nothing,
    }
}

/// Keeps the statistics of the players.
pub struct StatsTracker {
    pub state: PendingState,
    pub tz: Timezone,
}

impl StatsTracker {
    /// The state is well formed.
    pub open spec fn wf(self) -> bool {
        self.state.wf()
    }

    /// A tracker to which nothing has happened.
    pub fn new(tz: Timezone) -> (r: Self)
        ensures
            r.wf(),
            r.tz == tz,
            r.state@ == (StateView {
                uuids: Map::empty(),
                sessions: Map::empty(),
                deltas: Map::empty(),
                daily: Map::empty(),
            }),
    {
        StatsTracker { state: PendingState::new(), tz }
    }

    /// Takes note of an event at a time, and decides what is done upon it. `existing` is, for a
    /// player who has come, what is recorded under what the player is recorded under. `None` tells
    /// that a counter could not grow or that the calendar does not reach the day before; nothing is
    /// said of the state then.
    pub fn handle_event(&mut self, event: &StatsEvent, existing: Option<PlayerStats>, now: i64) -> (r:
        Option<TrackerAction>)
        requires
            old(self).wf(),
        ensures
            final(self).wf(),
            final(self).tz == old(self).tz,
            match event@ {
                StatsEventView::ServerStop => exists|names: Seq<Seq<char>>|
                    #![trigger names_all(names, old(self).state@.sessions)]
                    names_all(names, old(self).state@.sessions) && r is Some == all_left(
                        old(self).state@,
                        names,
                        now,
                        old(self).tz@,
                    ) is Some && (r is Some ==> final(self).state@ == all_left(
                        old(self).state@,
                        names,
                        now,
                        old(self).tz@,
                    )->0),
                _ => {
                    &&& r is Some == (state_after(
                        old(self).state@,
                        event@,
                        existing,
                        now,
                        old(self).tz@,
                    ) is Some && (event@ is Join ==> can_greet(existing, now, old(self).tz@)))
                    &&& r is Some ==> final(self).state@ == state_after(
                        old(self).state@,
                        event@,
                        existing,
                        now,
                        old(self).tz@,
                    )->0
                },
            },
            r matches Some(a) ==> answers(
                a,
                old(self).state@,
                event@,
                existing,
                now,
                old(self).tz@,
            ),
    {
        match event {
            StatsEvent::UuidResolved { username, uuid } => {
                self.state.note_uuid(username.as_str(), uuid.as_str());
                Some(
                    TrackerAction::Store {
                        writes: Storage::store_uuid_mapping(username.as_str(), uuid.as_str()),
                    },
                )
            },
            StatsEvent::Join { username } => {
                let greeting = match greet(
                    &self.state,
                    username.as_str(),
                    existing,
                    now,
                    &self.tz,
                ) {
                    Some(greeting) => greeting,
                    None => return None,
                };
                if self.state.handle_join(username.as_str(), now, existing.is_some()) {
                    Some(TrackerAction::Greet { greeting })
                } else {
                    None
                }
            },
            StatsEvent::Leave { username } => match self.state.handle_leave(
                username.as_str(),
                now,
                &self.tz,
            ) {
                Some(true) => Some(TrackerAction::Flush),
                Some(false) => Some(TrackerAction::Nothing),
                None => None,
            },
            StatsEvent::Disconnect { username, .. } => match self.state.handle_leave(
                username.as_str(),
                now,
                &self.tz,
            ) {
                Some(true) => Some(TrackerAction::Flush),
                Some(false) => Some(TrackerAction::Nothing),
                None => None,
            },
            StatsEvent::Death { username } => if self.state.count(
                username.as_str(),
                Counter::Deaths,
            ) {
                Some(TrackerAction::Nothing)
            } else {
                None
            },
            StatsEvent::Advancement { username, .. } => if self.state.count(
                username.as_str(),
                Counter::Advancements,
            ) {
                Some(TrackerAction::Nothing)
            } else {
                None
            },
            StatsEvent::Chat { username } => if self.state.count(
                username.as_str(),
                Counter::Messages,
            ) {
                Some(TrackerAction::Nothing)
            } else {
                None
            },
            StatsEvent::Command { username } => if self.state.count(
                username.as_str(),
                Counter::Commands,
            ) {
                Some(TrackerAction::Nothing)
            } else {
                None
            },
            StatsEvent::ServerStart => Some(TrackerAction::Nothing),
            StatsEvent::ServerStop => if self.state.flush_all_sessions(now, &self.tz) {
                Some(TrackerAction::Flush)
            } else {
                None
            },
        }
    }
}

/// From coming to leaving, a player's time is counted, once: it is added to what was counted before,
/// leaving again adds nothing, and the record says when the player came and left.
pub proof fn law_session_is_counted_once(
    v: StateView,
    username: Seq<char>,
    known: bool,
    start: i64,
    end: i64,
    later: i64,
    zone: Seq<char>,
)
    requires
        start <= end,
        joined(v, username, start, known) is Some,
        left(joined(v, username, start, known)->0, username, end, zone) is Some,
    ensures
        ({
            let during = joined(v, username, start, known)->0;
            let after = left(during, username, end, zone)->0;
            let uuid = recorded_as(v, username);
            let d = delta_of(after, uuid);
            &&& during.sessions.contains_key(username)
            &&& !after.sessions.contains_key(username)
            &&& d.play_time_secs == delta_of(v, uuid).play_time_secs + (end - start)
            &&& d.total_logins_delta == delta_of(v, uuid).total_logins_delta + 1
            &&& d.last_login_ts == Some(start)
            &&& d.last_logout_ts == Some(end)
            &&& left(after, username, later, zone) == Some(after)
        }),
{
}

/// The key of a player and a day comes apart into the player and the day.
pub proof fn law_day_keys_come_apart(uuid: Seq<char>, date: Seq<char>)
    requires
        !uuid.contains('\u{1f}'),
    ensures
        key_parts(day_key(uuid, date)) == Some((uuid, date)),
{
    reveal_strlit("\u{1f}");
    let key = day_key(uuid, date);
    let sep = "\u{1f}"@;
    let i = uuid.len() as int;
    assert(sep.len() == 1 && sep[0] == '\u{1f}');
    assert(key.subrange(i, i + 1) =~= sep);
    assert forall|j: int| 0 <= j < i implies !#[trigger] text::text_at(key, j, sep) by {
        if text::text_at(key, j, sep) {
            assert(key.subrange(j, j + 1)[0] == key[j]);
            assert(key[j] == uuid[j]);
            assert(uuid.contains(uuid[j]));
        }
    }
    assert(text::first_text_at(key, i, sep));
    text::lemma_first_text(key, i, sep);
    assert(key.skip(i + 1) =~= date);
    assert(key.take(i) =~= uuid);
}

} // verus!
