//! What the server's files tell of a player, and the pages that show it.

use crate::bot::commands;
use crate::bot::commands::total_secs;
use crate::bot::embed;
use crate::bot::embed::{Embed, EmbedView};
use crate::consts;
use crate::consts::join;
use crate::decimal;
use crate::decimal::{percent, push_one_decimal};
use crate::order;
use crate::order::{precedes, sort_stable, Order};
use crate::storage::records::PlayerStats;
use crate::text;
use crate::text::{
    chars_of, find_text, has_text_at, push_dec, push_dec_int, push_replaced, rest_after, same_text,
    split_items, string_of, strip_prefix, tail, trimmed,
};
use vstd::prelude::*;
use vstd::slice::slice_subrange;
use vstd::string::*;

verus! {

/// An item that a player carries.
#[derive(Debug)]
pub struct InventoryItem {
    pub slot: i8,
    pub id: String,
    pub count: i32,
    pub components: Option<ItemComponents>,
}

/// What is special about an item.
#[derive(Debug)]
pub struct ItemComponents {
    /// The name that a player gave it, as a text component in JSON.
    pub custom_name: Option<String>,
}

/// An item as it is shown.
#[derive(Debug, PartialEq)]
pub struct DisplayItem {
    pub slot: i8,
    pub item_id: String,
    pub count: i32,
    pub display_name: String,
}

/// The text of a text component in JSON: what stands between the quotation marks after `"text"` and
/// a colon. Where there is no such thing, the JSON itself.
pub open spec fn component_text(json: Seq<char>) -> Seq<char> {
    match text::after_text(text::trim(json), "\"text\""@) {
        Some(after) => match text::after_text(after, ":"@) {
            Some(value) => {
                let v = text::trim(value);
                if v.len() > 0 && v[0] == '"' && text::contains_text(v.skip(1), "\""@) {
                    let end = v.skip(1).len() - (text::after_text(v.skip(1), "\""@)->0).len() - 1;
                    v.skip(1).take(end)
                } else {
                    json
                }
            },
            None => json,
        },
        None => json,
    }
}

/// Reads the text of a text component in JSON.
pub fn extract_text_from_json(json_str: &str) -> (r: String)
    ensures
        r@ == component_text(json_str@),
{
    let v = chars_of(json_str);
    if let Some(after) = rest_after(trimmed(v.as_slice()), "\"text\"") {
        if let Some(value) = rest_after(after, ":") {
            let value = trimmed(value);
            if value.len() > 0 && value[0] == '"' {
                let inner = tail(value, 1);
                if let Some(end) = find_text(inner, "\"") {
                    let name = slice_subrange(inner, 0, end);
                    proof {
                        reveal_strlit("\"");
                        text::lemma_first_text(inner@, end as int, "\""@);
                        assert(text::text_at(inner@, end as int, "\""@));
                        assert(name@ =~= inner@.take(end as int));
                    }
                    return string_of(name);
                }
            }
        }
    }
    json_str.to_owned()
}

/// An identifier of the game as words: without the game's own prefix, and with spaces for
/// underscores.
pub open spec fn plain_name(id: Seq<char>) -> Seq<char> {
    text::replace_char(text::without_prefix(id, "minecraft:"@), '_', ' ')
}

/// Appends an identifier of the game as words.
fn push_plain_name(out: &mut String, id: &str)
    ensures
        final(out)@ == old(out)@ + plain_name(id@),
{
    let v = chars_of(id);
    push_replaced(out, strip_prefix(v.as_slice(), "minecraft:"), '_', ' ');
}

/// The name under which an item is shown: the one that a player gave it, or else its identifier as
/// words.
pub open spec fn item_name(id: Seq<char>, components: Option<ItemComponents>) -> Seq<char> {
    match components {
        Some(ItemComponents { custom_name: Some(json) }) => component_text(json@),
        _ => plain_name(id),
    }
}

/// Finds the name under which an item is shown.
pub fn item_display_name(id: &str, components: Option<&ItemComponents>) -> (r: String)
    ensures
        r@ == item_name(
            id@,
            match components {
                Some(c) => Some(*c),
                None => None,
            },
        ),
{
    if let Some(c) = components {
        if let Some(json) = &c.custom_name {
            return extract_text_from_json(json.as_str());
        }
    }
    let mut out = String::new();
    push_plain_name(&mut out, id);
    assert(Seq::<char>::empty() + plain_name(id@) =~= plain_name(id@));
    out
}

/// The item as it is shown.
pub open spec fn shows_item(d: DisplayItem, item: InventoryItem) -> bool {
    &&& d.slot == item.slot
    &&& d.item_id@ == item.id@
    &&& d.count == item.count
    &&& d.display_name@ == item_name(item.id@, item.components)
}

/// Prepares the items that a player carries for being shown.
pub fn inventory_items(items: &[InventoryItem]) -> (r: Vec<DisplayItem>)
    ensures
        r@.len() == items@.len(),
        forall|i: int| 0 <= i < r@.len() ==> shows_item(#[trigger] r@[i], items@[i]),
{
    let mut out: Vec<DisplayItem> = Vec::new();
    let mut i: usize = 0;
    while i < items.len()
        invariant
            i <= items@.len(),
            out@.len() == i,
            forall|j: int| 0 <= j < i ==> shows_item(#[trigger] out@[j], items@[j]),
        decreases items@.len() - i,
    {
        let item = &items[i];
        let display_name = match &item.components {
            Some(c) => item_display_name(item.id.as_str(), Some(c)),
            None => item_display_name(item.id.as_str(), None),
        };
        out.push(
            DisplayItem {
                slot: item.slot,
                item_id: item.id.clone(),
                count: item.count,
                display_name,
            },
        );
        i = i + 1;
    }
    out
}

/// The name of a dimension; one that is not the game's own is called by its identifier.
pub open spec fn dimension_name(dim: Seq<char>) -> Seq<char> {
    if dim == "minecraft:overworld"@ {
        "Overworld"@
    } else if dim == "minecraft:the_nether"@ {
        "The Nether"@
    } else if dim == "minecraft:the_end"@ {
        "The End"@
    } else {
        dim
    }
}

/// Names a dimension.
pub fn format_dimension(dim: &str) -> (r: &str)
    ensures
        r@ == dimension_name(dim@),
{
    if same_text(dim, "minecraft:overworld") {
        "Overworld"
    } else if same_text(dim, "minecraft:the_nether") {
        "The Nether"
    } else if same_text(dim, "minecraft:the_end") {
        "The End"
    } else {
        dim
    }
}

/// The name of a game mode.
pub open spec fn mode_name(gt: i32) -> Seq<char> {
    if gt == 0 {
        "Survival"@
    } else if gt == 1 {
        "Creative"@
    } else if gt == 2 {
        "Adventure"@
    } else if gt == 3 {
        "Spectator"@
    } else {
        "Unknown"@
    }
}

/// Names a game mode.
pub fn game_type_name(gt: i32) -> (r: &'static str)
    ensures
        r@ == mode_name(gt),
{
    match gt {
        0 => "Survival",
        1 => "Creative",
        2 => "Adventure",
        3 => "Spectator",
        _ => "Unknown",
    }
}

/// A play time: days, hours and minutes, from the first of these that there are any of, or just
/// minutes.
pub open spec fn play_time_text(secs: nat) -> Seq<char> {
    let days = secs / 86400;
    let hours = (secs % 86400) / 3600;
    let minutes = (secs % 3600) / 60;
    if days > 0 {
        text::dec(days) + "d "@ + text::dec(hours) + "h "@ + text::dec(minutes) + "m"@
    } else if hours > 0 {
        text::dec(hours) + "h "@ + text::dec(minutes) + "m"@
    } else {
        text::dec(minutes) + "m"@
    }
}

/// Appends a play time.
fn push_play_time(out: &mut String, secs: u64)
    ensures
        final(out)@ == old(out)@ + play_time_text(secs as nat),
{
    let days = secs / 86400;
    let hours = (secs % 86400) / 3600;
    let minutes = (secs % 3600) / 60;
    if days > 0 {
        push_dec(out, days);
        out.append("d ");
    }
    if days > 0 || hours > 0 {
        push_dec(out, hours);
        out.append("h ");
    }
    push_dec(out, minutes);
    out.append("m");
    assert(out@ =~= old(out)@ + play_time_text(secs as nat));
}

/// Writes a play time.
pub fn format_play_time(secs: u64) -> (r: String)
    ensures
        r@ == play_time_text(secs as nat),
{
    let mut out = String::new();
    push_play_time(&mut out, secs);
    assert(Seq::<char>::empty() + play_time_text(secs as nat) =~= play_time_text(secs as nat));
    out
}

/// A distance in metres, or in kilometres with one decimal from a kilometre on.
pub open spec fn distance_text(cm: nat) -> Seq<char> {
    let meters = cm / 100;
    if meters >= 1000 {
        decimal::one_decimal(meters, 1000) + "km"@
    } else {
        text::dec(meters) + "m"@
    }
}

/// Appends a distance.
fn push_distance(out: &mut String, cm: u64)
    ensures
        final(out)@ == old(out)@ + distance_text(cm as nat),
{
    let meters = cm / 100;
    if meters >= 1000 {
        push_one_decimal(out, meters, 1000);
        out.append("km");
    } else {
        push_dec(out, meters);
        out.append("m");
    }
    assert(out@ =~= old(out)@ + distance_text(cm as nat));
}

/// Writes a distance.
pub fn format_distance(cm: u64) -> (r: String)
    ensures
        r@ == distance_text(cm as nat),
{
    let mut out = String::new();
    push_distance(&mut out, cm);
    assert(Seq::<char>::empty() + distance_text(cm as nat) =~= distance_text(cm as nat));
    out
}

/// A number, in thousands or millions with one decimal from a thousand or a million on.
pub open spec fn short_number(n: nat) -> Seq<char> {
    if n >= 1_000_000 {
        decimal::one_decimal(n, 1_000_000) + "M"@
    } else if n >= 1_000 {
        decimal::one_decimal(n, 1_000) + "K"@
    } else {
        text::dec(n)
    }
}

/// Appends a number, in thousands or millions where it is large.
fn push_num(out: &mut String, n: u64)
    ensures
        final(out)@ == old(out)@ + short_number(n as nat),
{
    if n >= 1_000_000 {
        push_one_decimal(out, n, 1_000_000);
        out.append("M");
    } else if n >= 1_000 {
        push_one_decimal(out, n, 1_000);
        out.append("K");
    } else {
        push_dec(out, n);
    }
    assert(out@ =~= old(out)@ + short_number(n as nat));
}

/// Writes a number, in thousands or millions where it is large.
pub fn fmt_num(n: u64) -> (r: String)
    ensures
        r@ == short_number(n as nat),
{
    let mut out = String::new();
    push_num(&mut out, n);
    assert(Seq::<char>::empty() + short_number(n as nat) =~= short_number(n as nat));
    out
}

/// A character several times.
pub open spec fn repeated(c: char, n: nat) -> Seq<char> {
    Seq::new(n, |i: int| c)
}

/// Appends a character several times.
fn push_repeated(out: &mut String, c: char, n: usize)
    ensures
        final(out)@ == old(out)@ + repeated(c, n as nat),
{
    let mut i: usize = 0;
    assert(out@ + repeated(c, 0) =~= out@);
    while i < n
        invariant
            i <= n,
            out@ == old(out)@ + repeated(c, i as nat),
        decreases n - i,
    {
        out.push(c);
        i = i + 1;
        assert(repeated(c, i as nat) =~= repeated(c, (i - 1) as nat).push(c));
    }
}

/// A bar of a width of which some is filled; the last filled place of several is half filled.
pub open spec fn bar_text(filled: nat, width: nat) -> Seq<char> {
    let full = if filled > 1 {
        repeated('█', (filled - 1) as nat).push('▌')
    } else {
        repeated('█', filled)
    };
    full + repeated(
        '░',
        if filled < width {
            (width - filled) as nat
        } else {
            0
        },
    )
}

/// Writes a bar of a width of which some is filled.
pub fn progress_bar(filled: usize, width: usize) -> (r: String)
    ensures
        r@ == bar_text(filled as nat, width as nat),
{
    let mut out = String::new();
    if filled > 1 {
        push_repeated(&mut out, '█', filled - 1);
        out.push('▌');
    } else {
        push_repeated(&mut out, '█', filled);
    }
    let rest: usize = if filled < width {
        width - filled
    } else {
        0
    };
    push_repeated(&mut out, '░', rest);
    assert(out@ =~= bar_text(filled as nat, width as nat));
    out
}

/// How many of eight places a day's play time fills; an hour fills all.
pub open spec fn day_places(secs: nat) -> nat {
    let shown = if secs < 3600 {
        secs
    } else {
        3600
    };
    (shown + 449) / 450
}

/// A day's play time, and a bar for it.
pub open spec fn day_bar(secs: nat) -> Seq<char> {
    if secs == 0 {
        "        —"@
    } else {
        let time = play_time_text(secs);
        let pad = if time.len() < 8 {
            (8 - time.len()) as nat
        } else {
            0
        };
        time + repeated(' ', pad) + " "@ + repeated('█', day_places(secs)) + repeated(
            '░',
            (8 - day_places(secs)) as nat,
        )
    }
}

/// Writes a day's play time, and a bar for it.
pub fn daily_bar(secs: u64) -> (r: String)
    ensures
        r@ == day_bar(secs as nat),
{
    if secs == 0 {
        return "        —".to_owned();
    }
    let shown: u64 = if secs < 3600 {
        secs
    } else {
        3600
    };
    let filled: usize = ((shown + 449) / 450) as usize;
    let mut out = format_play_time(secs);
    let len = out.as_str().unicode_len();
    let pad: usize = if len < 8 {
        8 - len
    } else {
        0
    };
    push_repeated(&mut out, ' ', pad);
    out.append(" ");
    push_repeated(&mut out, '█', filled);
    push_repeated(&mut out, '░', 8 - filled);
    out
}

/// An entry of a list of counts: its name and its count.
pub open spec fn entry_text(e: (String, u64)) -> Seq<char> {
    plain_name(e.0@) + " ("@ + text::dec(e.1 as nat) + ")"@
}

/// The first entries of a list, with commas between them; a list without entries reads `fallback`.
pub open spec fn top_text(list: Seq<(String, u64)>, count: nat, fallback: Seq<char>) -> Seq<char> {
    if list.len() == 0 {
        fallback
    } else {
        let shown = if list.len() < count {
            list
        } else {
            list.take(count as int)
        };
        text::joined(shown.map_values(|e: (String, u64)| entry_text(e)), ", "@)
    }
}

/// Writes the first entries of a list.
pub fn top_entries(list: &[(String, u64)], count: usize, fallback: &str) -> (r: String)
    ensures
        r@ == top_text(list@, count as nat, fallback@),
{
    if list.len() == 0 {
        return fallback.to_owned();
    }
    let n = if list.len() < count {
        list.len()
    } else {
        count
    };
    let ghost parts = list@.take(n as int).map_values(|e: (String, u64)| entry_text(e));
    let mut out = String::new();
    let mut i: usize = 0;
    assert(parts.take(0) =~= Seq::<Seq<char>>::empty());
    while i < n
        invariant
            i <= n <= list@.len(),
            parts == list@.take(n as int).map_values(|e: (String, u64)| entry_text(e)),
            out@ == text::joined(parts.take(i as int), ", "@),
        decreases n - i,
    {
        let ghost before = out@;
        proof {
            text::lemma_joined_push(parts.take(i as int), ", "@, parts[i as int]);
            assert(parts.take(i + 1) =~= parts.take(i as int).push(parts[i as int]));
            assert(parts[i as int] == entry_text(list@[i as int]));
        }
        if i > 0 {
            out.append(", ");
        }
        push_plain_name(&mut out, list[i].0.as_str());
        out.append(" (");
        push_dec(&mut out, list[i].1);
        out.append(")");
        proof {
            if i == 0 {
                assert(out@ =~= parts[0]);
            } else {
                assert(out@ =~= before + ", "@ + parts[i as int]);
            }
        }
        i = i + 1;
    }
    assert(parts.take(i as int) =~= parts);
    assert(list@.len() < count ==> list@.take(n as int) =~= list@);
    out
}

/// The part of an advancement's identifier that names it: the second of the parts between slashes,
/// or all of it where there is but one.
pub open spec fn own_part(name: Seq<char>) -> Seq<char> {
    let parts = text::split_on(name, '/');
    if parts.len() >= 2 {
        parts[1]
    } else {
        name
    }
}

/// The name of an advancement as words.
pub open spec fn advancement_name(id: Seq<char>) -> Seq<char> {
    if text::text_at(id, 0, "minecraft:"@) {
        text::replace_char(own_part(id.skip("minecraft:"@.len() as int)), '_', ' ')
    } else if text::text_at(id, 0, "blazeandcave:"@) {
        "[BACAP] "@ + text::replace_char(
            own_part(id.skip("blazeandcave:"@.len() as int)),
            '_',
            ' ',
        )
    } else {
        text::replace_char(id, '_', ' ')
    }
}

/// Appends the part of an advancement's identifier that names it, as words.
fn push_own_part(out: &mut String, name: &[char])
    ensures
        final(out)@ == old(out)@ + text::replace_char(own_part(name@), '_', ' '),
{
    let parts = split_items(name, '/');
    let ghost views = text::texts(parts@);
    if parts.len() >= 2 {
        let part = chars_of(parts[1].as_str());
        assert(views[1] == part@);
        push_replaced(out, part.as_slice(), '_', ' ');
    } else {
        push_replaced(out, name, '_', ' ');
    }
}

/// Writes the name of an advancement as words.
pub fn format_advancement_name(id: &str) -> (r: String)
    ensures
        r@ == advancement_name(id@),
{
    let v = chars_of(id);
    let s = v.as_slice();
    let mut out = String::new();
    let ghost empty = out@;
    if has_text_at(s, 0, "minecraft:") {
        let n = "minecraft:".unicode_len();
        push_own_part(&mut out, tail(s, n));
    } else if has_text_at(s, 0, "blazeandcave:") {
        let n = "blazeandcave:".unicode_len();
        out.append("[BACAP] ");
        push_own_part(&mut out, tail(s, n));
    } else {
        push_replaced(&mut out, s, '_', ' ');
    }
    assert(out@ =~= advancement_name(id@));
    out
}

/// Where the world lies, as the configuration says.
pub fn world_dir_from_config(config_path: Option<&String>) -> (r: Option<String>)
    ensures
        match config_path {
            Some(p) => r matches Some(s) && s@ == p@,
            None => r is None,
        },
{
    match config_path {
        Some(p) => Some(p.clone()),
        None => None,
    }
}

/// What the server counts of a player.
#[derive(Debug)]
pub struct MinecraftStats {
    pub play_time_ticks: u64,
    pub play_time_secs: u64,
    pub deaths: u64,
    pub mob_kills: u64,
    pub damage_dealt: u64,
    pub damage_taken: u64,
    pub distance_walked_cm: u64,
    pub distance_sprinted_cm: u64,
    pub distance_fallen_cm: u64,
    pub distance_flown_cm: u64,
    pub distance_swum_cm: u64,
    pub jumps: u64,
    pub animals_bred: u64,
    pub fish_caught: u64,
    pub times_slept: u64,
    pub mined: Vec<(String, u64)>,
    pub picked_up: Vec<(String, u64)>,
    pub used: Vec<(String, u64)>,
    pub dropped: Vec<(String, u64)>,
    pub crafted: Vec<(String, u64)>,
    pub broken: Vec<(String, u64)>,
    pub killed: Vec<(String, u64)>,
    pub killed_by: Vec<(String, u64)>,
}

/// The file of a player's statistics.
#[derive(Debug)]
pub struct RawStatsJson {
    pub stats: Option<RawStats>,
}

/// The statistics of a player as the file has them: for each kind the counts by identifier, in any
/// order.
#[derive(Debug)]
pub struct RawStats {
    pub mined: Option<Vec<(String, u64)>>,
    pub picked_up: Option<Vec<(String, u64)>>,
    pub used: Option<Vec<(String, u64)>>,
    pub dropped: Option<Vec<(String, u64)>>,
    pub crafted: Option<Vec<(String, u64)>>,
    pub broken: Option<Vec<(String, u64)>>,
    pub killed: Option<Vec<(String, u64)>>,
    pub killed_by: Option<Vec<(String, u64)>>,
    pub custom: Option<Vec<(String, u64)>>,
}

/// The counts of a kind; none where the file has none.
pub open spec fn counts(c: Option<Vec<(String, u64)>>) -> Seq<(String, u64)> {
    match c {
        Some(v) => v@,
        None => Seq::empty(),
    }
}

/// The count of the first entry of a name, 0 where there is none.
pub open spec fn count_of(list: Seq<(String, u64)>, name: Seq<char>) -> u64
    decreases list.len(),
{
    if list.len() == 0 {
        0
    } else if list[0].0@ == name {
        list[0].1
    } else {
        count_of(list.skip(1), name)
    }
}

/// Looks a count up.
fn look_up(list: &Vec<(String, u64)>, name: &str) -> (r: u64)
    ensures
        r == count_of(list@, name@),
{
    let mut i: usize = 0;
    assert(list@.skip(0) =~= list@);
    while i < list.len()
        invariant
            i <= list@.len(),
            count_of(list@, name@) == count_of(list@.skip(i as int), name@),
        decreases list@.len() - i,
    {
        assert(list@.skip(i as int)[0] == list@[i as int]);
        if same_text(list[i].0.as_str(), name) {
            return list[i].1;
        }
        assert(list@.skip(i as int).skip(1) =~= list@.skip(i + 1));
        i = i + 1;
    }
    0
}

/// The order of counts, the largest first.
pub struct LargestFirst;

impl Order<(String, u64)> for LargestFirst {
    open spec fn before(a: (String, u64), b: (String, u64)) -> bool {
        a.1 > b.1
    }

    proof fn one_way(a: (String, u64), b: (String, u64)) {
    }

    proof fn chain(a: (String, u64), b: (String, u64), c: (String, u64)) {
    }

    fn ranks_before(a: &(String, u64), b: &(String, u64)) -> (r: bool) {
        a.1 > b.1
    }
}

/// Sorts counts, the largest first.
pub fn sort_stats(list: Vec<(String, u64)>) -> (r: Vec<(String, u64)>)
    ensures
        order::sorted_from::<(String, u64), LargestFirst>(list@, r@),
{
    sort_stable::<(String, u64), LargestFirst>(list)
}

/// Takes the counts of a kind.
fn take_counts(c: Option<Vec<(String, u64)>>) -> (r: Vec<(String, u64)>)
    ensures
        r@ == counts(c),
{
    match c {
        Some(v) => v,
        None => Vec::new(),
    }
}

/// The list is that of a kind, sorted.
pub open spec fn sorted_counts(c: Option<Vec<(String, u64)>>, list: Seq<(String, u64)>) -> bool {
    order::sorted_from::<(String, u64), LargestFirst>(counts(c), list)
}

/// The statistics are those of the file.
pub open spec fn stats_of(raw: RawStats, m: MinecraftStats) -> bool {
    let custom = counts(raw.custom);
    &&& m.play_time_ticks == count_of(custom, "minecraft:play_time"@)
    &&& m.play_time_secs == count_of(custom, "minecraft:play_time"@) / 20
    &&& m.deaths == count_of(custom, "minecraft:deaths"@)
    &&& m.mob_kills == count_of(custom, "minecraft:mob_kills"@)
    &&& m.damage_dealt == count_of(custom, "minecraft:damage_dealt"@) / 10
    &&& m.damage_taken == count_of(custom, "minecraft:damage_taken"@) / 10
    &&& m.distance_walked_cm == count_of(custom, "minecraft:walk_one_cm"@)
    &&& m.distance_sprinted_cm == count_of(custom, "minecraft:sprint_one_cm"@)
    &&& m.distance_fallen_cm == count_of(custom, "minecraft:fall_one_cm"@)
    &&& m.distance_flown_cm == count_of(custom, "minecraft:fly_one_cm"@)
    &&& m.distance_swum_cm == count_of(custom, "minecraft:swim_one_cm"@)
    &&& m.jumps == count_of(custom, "minecraft:jump"@)
    &&& m.animals_bred == count_of(custom, "minecraft:animals_bred"@)
    &&& m.fish_caught == count_of(custom, "minecraft:fish_caught"@)
    &&& m.times_slept == count_of(custom, "minecraft:sleep_in_bed"@)
    &&& sorted_counts(raw.mined, m.mined@)
    &&& sorted_counts(raw.picked_up, m.picked_up@)
    &&& sorted_counts(raw.used, m.used@)
    &&& sorted_counts(raw.dropped, m.dropped@)
    &&& sorted_counts(raw.crafted, m.crafted@)
    &&& sorted_counts(raw.broken, m.broken@)
    &&& sorted_counts(raw.killed, m.killed@)
    &&& sorted_counts(raw.killed_by, m.killed_by@)
}

/// Turns the statistics of the file into those that are shown: ticks, of which there are twenty in a
/// second, into seconds as well, tenths of damage into damage, and the counts sorted.
pub fn transform_stats(raw: RawStats) -> (r: MinecraftStats)
    ensures
        stats_of(raw, r),
{
    let custom = take_counts(raw.custom);
    MinecraftStats {
        play_time_ticks: look_up(&custom, "minecraft:play_time"),
        play_time_secs: look_up(&custom, "minecraft:play_time") / 20,
        deaths: look_up(&custom, "minecraft:deaths"),
        mob_kills: look_up(&custom, "minecraft:mob_kills"),
        damage_dealt: look_up(&custom, "minecraft:damage_dealt") / 10,
        damage_taken: look_up(&custom, "minecraft:damage_taken") / 10,
        distance_walked_cm: look_up(&custom, "minecraft:walk_one_cm"),
        distance_sprinted_cm: look_up(&custom, "minecraft:sprint_one_cm"),
        distance_fallen_cm: look_up(&custom, "minecraft:fall_one_cm"),
        distance_flown_cm: look_up(&custom, "minecraft:fly_one_cm"),
        distance_swum_cm: look_up(&custom, "minecraft:swim_one_cm"),
        jumps: look_up(&custom, "minecraft:jump"),
        animals_bred: look_up(&custom, "minecraft:animals_bred"),
        fish_caught: look_up(&custom, "minecraft:fish_caught"),
        times_slept: look_up(&custom, "minecraft:sleep_in_bed"),
        mined: sort_stats(take_counts(raw.mined)),
        picked_up: sort_stats(take_counts(raw.picked_up)),
        used: sort_stats(take_counts(raw.used)),
        dropped: sort_stats(take_counts(raw.dropped)),
        crafted: sort_stats(take_counts(raw.crafted)),
        broken: sort_stats(take_counts(raw.broken)),
        killed: sort_stats(take_counts(raw.killed)),
        killed_by: sort_stats(take_counts(raw.killed_by)),
    }
}

/// What the file says of an advancement: whether it is done, and when each criterion was met.
#[derive(Debug)]
pub struct AdvancementEntry {
    pub done: bool,
    pub criteria: Vec<(String, String)>,
}

/// The advancements of a file, by identifier.
pub type AdvancementMap = Vec<(String, AdvancementEntry)>;

/// How far a player has come with the advancements.
#[derive(Debug)]
pub struct Advancements {
    pub total: usize,
    pub earned: usize,
    pub vanilla_total: usize,
    pub vanilla_earned: usize,
    pub modded_total: usize,
    pub modded_earned: usize,
    /// The identifiers of those that are done, with the time of the last criterion, latest first.
    pub earned_list: Vec<(String, String)>,
    /// The identifiers of those that are begun, with the number of criteria met.
    pub in_progress: Vec<(String, usize, usize)>,
}

/// The entries of the file that are advancements: not the version of the data, and not what could
/// not be read.
pub open spec fn readable(raw: Seq<(String, Option<AdvancementEntry>)>) -> Seq<
    (String, AdvancementEntry),
>
    decreases raw.len(),
{
    if raw.len() == 0 {
        Seq::empty()
    } else {
        let rest = readable(raw.drop_last());
        let last = raw.last();
        match last.1 {
            Some(entry) => if last.0@ != "DataVersion"@ {
                rest.push((last.0, entry))
            } else {
                rest
            },
            None => rest,
        }
    }
}

/// Takes the entries of the file that are advancements.
pub fn parse_advancement_map(raw: Vec<(String, Option<AdvancementEntry>)>) -> (r: AdvancementMap)
    ensures
        r@ == readable(raw@),
{
    let mut rest = raw;
    let ghost all = raw@;
    let ghost mut i: int = 0;
    let mut out: Vec<(String, AdvancementEntry)> = Vec::new();
    assert(all.skip(0) =~= all);
    while rest.len() > 0
        invariant
            0 <= i <= all.len(),
            rest@ == all.skip(i),
            out@ == readable(all.take(i)),
        decreases rest@.len(),
    {
        let (key, value) = rest.remove(0);
        proof {
            assert((key, value) == all[i]);
            assert(rest@ =~= all.skip(i + 1));
            assert(all.take(i + 1).drop_last() =~= all.take(i));
            assert(all.take(i + 1).last() == all[i]);
        }
        if let Some(entry) = value {
            if !same_text(key.as_str(), "DataVersion") {
                out.push((key, entry));
            }
        }
        proof {
            i = i + 1;
        }
    }
    assert(all.take(i) =~= all);
    out
}

/// The advancement unlocks a recipe; such are not counted.
pub open spec fn is_recipe(e: (String, AdvancementEntry)) -> bool {
    text::text_at(e.0@, 0, "minecraft:recipes/"@)
}

/// The advancement is the game's own.
pub open spec fn is_vanilla(e: (String, AdvancementEntry)) -> bool {
    text::text_at(e.0@, 0, "minecraft:"@)
}

/// How many of the advancements, recipes left out, have a property.
pub open spec fn how_many(
    map: Seq<(String, AdvancementEntry)>,
    p: spec_fn((String, AdvancementEntry)) -> bool,
) -> nat
    decreases map.len(),
{
    if map.len() == 0 {
        0
    } else {
        how_many(map.drop_last(), p) + if !is_recipe(map.last()) && p(map.last()) {
            1nat
        } else {
            0
        }
    }
}

/// The latest of the times, empty where there is none.
pub open spec fn latest(criteria: Seq<(String, String)>) -> Seq<char>
    decreases criteria.len(),
{
    if criteria.len() == 0 {
        Seq::empty()
    } else {
        let rest = latest(criteria.drop_last());
        if order::text_less(rest, criteria.last().1@) {
            criteria.last().1@
        } else {
            rest
        }
    }
}

/// Finds the latest of the times.
fn find_latest(criteria: &Vec<(String, String)>) -> (r: String)
    ensures
        r@ == latest(criteria@),
{
    let mut best = String::new();
    let mut i: usize = 0;
    assert(criteria@.take(0) =~= Seq::<(String, String)>::empty());
    while i < criteria.len()
        invariant
            i <= criteria@.len(),
            best@ == latest(criteria@.take(i as int)),
        decreases criteria@.len() - i,
    {
        assert(criteria@.take(i + 1).drop_last() =~= criteria@.take(i as int));
        if precedes(best.as_str(), criteria[i].1.as_str()) {
            best = criteria[i].1.clone();
        }
        i = i + 1;
    }
    assert(criteria@.take(i as int) =~= criteria@);
    best
}

/// The advancements that are done, with the latest time, in the order of the file.
pub open spec fn done_list(map: Seq<(String, AdvancementEntry)>) -> Seq<(Seq<char>, Seq<char>)>
    decreases map.len(),
{
    if map.len() == 0 {
        Seq::empty()
    } else {
        let rest = done_list(map.drop_last());
        let e = map.last();
        if !is_recipe(e) && e.1.done {
            rest.push((e.0@, latest(e.1.criteria@)))
        } else {
            rest
        }
    }
}

/// The advancements that are begun and not done, with the number of criteria met.
pub open spec fn begun_list(map: Seq<(String, AdvancementEntry)>) -> Seq<(Seq<char>, usize, usize)>
    decreases map.len(),
{
    if map.len() == 0 {
        Seq::empty()
    } else {
        let rest = begun_list(map.drop_last());
        let e = map.last();
        if !is_recipe(e) && !e.1.done && e.1.criteria@.len() > 0 {
            rest.push((e.0@, e.1.criteria@.len() as usize, 1))
        } else {
            rest
        }
    }
}

/// The order of times, the latest first.
pub struct LatestFirst;

impl Order<(String, String)> for LatestFirst {
    open spec fn before(a: (String, String), b: (String, String)) -> bool {
        order::text_less(b.1@, a.1@)
    }

    proof fn one_way(a: (String, String), b: (String, String)) {
        order::lemma_text_less_total(a.1@, b.1@);
    }

    proof fn chain(a: (String, String), b: (String, String), c: (String, String)) {
        order::lemma_text_less_total(a.1@, b.1@);
        order::lemma_text_less_total(b.1@, c.1@);
        order::lemma_text_less_total(a.1@, c.1@);
        if a.1@ != b.1@ && b.1@ != c.1@ && !order::text_less(b.1@, a.1@) && !order::text_less(
            c.1@,
            b.1@,
        ) {
            order::lemma_text_less_trans(a.1@, b.1@, c.1@);
        }
    }

    fn ranks_before(a: &(String, String), b: &(String, String)) -> (r: bool) {
        precedes(b.1.as_str(), a.1.as_str())
    }
}

/// Pairs of texts as sequences of characters.
pub open spec fn pairs_view(v: Seq<(String, String)>) -> Seq<(Seq<char>, Seq<char>)> {
    v.map_values(|p: (String, String)| (p.0@, p.1@))
}

/// Advancements that are begun, with their identifiers as sequences of characters.
pub open spec fn begun_view(v: Seq<(String, usize, usize)>) -> Seq<(Seq<char>, usize, usize)> {
    v.map_values(|p: (String, usize, usize)| (p.0@, p.1, p.2))
}

impl Advancements {
    /// The numbers fit together.
    pub open spec fn wf(self) -> bool {
        &&& self.earned <= self.total
        &&& self.vanilla_earned <= self.vanilla_total
        &&& self.modded_earned <= self.modded_total
        &&& self.vanilla_total + self.modded_total == self.total
        &&& self.vanilla_earned + self.modded_earned == self.earned
    }
}

/// The numbers and lists are those of the advancements.
pub open spec fn advancements_of(map: Seq<(String, AdvancementEntry)>, a: Advancements) -> bool {
    &&& a.wf()
    &&& a.total == how_many(map, |e: (String, AdvancementEntry)| true)
    &&& a.earned == how_many(map, |e: (String, AdvancementEntry)| e.1.done)
    &&& a.vanilla_total == how_many(map, |e: (String, AdvancementEntry)| is_vanilla(e))
    &&& a.vanilla_earned == how_many(
        map,
        |e: (String, AdvancementEntry)| is_vanilla(e) && e.1.done,
    )
    &&& a.modded_total == how_many(map, |e: (String, AdvancementEntry)| !is_vanilla(e))
    &&& a.modded_earned == how_many(
        map,
        |e: (String, AdvancementEntry)| !is_vanilla(e) && e.1.done,
    )
    &&& exists|listed: Seq<(String, String)>|
        #![trigger pairs_view(listed)]
        pairs_view(listed) == done_list(map) && order::sorted_from::<(String, String), LatestFirst>(
            listed,
            a.earned_list@,
        )
    &&& begun_view(a.in_progress@) == begun_list(map)
}

/// Counts the advancements, recipes left out, and lists those that are done or begun.
pub fn compute_advancements(map: &AdvancementMap) -> (r: Advancements)
    ensures
        advancements_of(map@, r),
{
    let mut total: usize = 0;
    let mut earned: usize = 0;
    let mut vanilla_total: usize = 0;
    let mut vanilla_earned: usize = 0;
    let mut modded_total: usize = 0;
    let mut modded_earned: usize = 0;
    let mut listed: Vec<(String, String)> = Vec::new();
    let mut in_progress: Vec<(String, usize, usize)> = Vec::new();
    let ghost any = |e: (String, AdvancementEntry)| true;
    let ghost done = |e: (String, AdvancementEntry)| e.1.done;
    let ghost own = |e: (String, AdvancementEntry)| is_vanilla(e);
    let ghost own_done = |e: (String, AdvancementEntry)| is_vanilla(e) && e.1.done;
    let ghost other = |e: (String, AdvancementEntry)| !is_vanilla(e);
    let ghost other_done = |e: (String, AdvancementEntry)| !is_vanilla(e) && e.1.done;
    let mut i: usize = 0;
    proof {
        assert(map@.take(0) =~= Seq::<(String, AdvancementEntry)>::empty());
        assert(pairs_view(listed@) =~= done_list(map@.take(0)));
        assert(begun_view(in_progress@) =~= begun_list(map@.take(0)));
    }
    while i < map.len()
        invariant
            i <= map@.len(),
            any == (|e: (String, AdvancementEntry)| true),
            done == (|e: (String, AdvancementEntry)| e.1.done),
            own == (|e: (String, AdvancementEntry)| is_vanilla(e)),
            own_done == (|e: (String, AdvancementEntry)| is_vanilla(e) && e.1.done),
            other == (|e: (String, AdvancementEntry)| !is_vanilla(e)),
            other_done == (|e: (String, AdvancementEntry)| !is_vanilla(e) && e.1.done),
            total <= i,
            earned <= total,
            vanilla_earned <= vanilla_total,
            modded_earned <= modded_total,
            vanilla_total + modded_total == total,
            vanilla_earned + modded_earned == earned,
            total == how_many(map@.take(i as int), any),
            earned == how_many(map@.take(i as int), done),
            vanilla_total == how_many(map@.take(i as int), own),
            vanilla_earned == how_many(map@.take(i as int), own_done),
            modded_total == how_many(map@.take(i as int), other),
            modded_earned == how_many(map@.take(i as int), other_done),
            pairs_view(listed@) == done_list(map@.take(i as int)),
            begun_view(in_progress@) == begun_list(map@.take(i as int)),
        decreases map@.len() - i,
    {
        let id = &map[i].0;
        let entry = &map[i].1;
        let v = chars_of(id.as_str());
        proof {
            assert(map@.take(i + 1).drop_last() =~= map@.take(i as int));
            assert(map@.take(i + 1).last() == map@[i as int]);
        }
        if !has_text_at(v.as_slice(), 0, "minecraft:recipes/") {
            let vanilla = has_text_at(v.as_slice(), 0, "minecraft:");
            total = total + 1;
            if vanilla {
                vanilla_total = vanilla_total + 1;
            } else {
                modded_total = modded_total + 1;
            }
            if entry.done {
                earned = earned + 1;
                if vanilla {
                    vanilla_earned = vanilla_earned + 1;
                } else {
                    modded_earned = modded_earned + 1;
                }
                let ghost before = listed@;
                let pair = (id.clone(), find_latest(&entry.criteria));
                listed.push(pair);
                assert(pairs_view(listed@) =~= pairs_view(before).push((pair.0@, pair.1@)));
            } else if entry.criteria.len() > 0 {
                let ghost before = in_progress@;
                let row = (id.clone(), entry.criteria.len(), 1usize);
                in_progress.push(row);
                assert(begun_view(in_progress@) =~= begun_view(before).push((row.0@, row.1, row.2)));
            }
        }
        i = i + 1;
    }
    assert(map@.take(i as int) =~= map@);
    let ghost unsorted = listed@;
    let earned_list = sort_stable::<(String, String), LatestFirst>(listed);
    assert(pairs_view(unsorted) == done_list(map@));
    Advancements {
        total,
        earned,
        vanilla_total,
        vanilla_earned,
        modded_total,
        modded_earned,
        earned_list,
        in_progress,
    }
}

/// Why a player's data could not be had.
#[derive(Debug, PartialEq)]
pub enum PlayerDataError {
    DataFileNotFound(String),
    ReadFile { path: String, source: String },
    NbtParse { path: String, source: String },
    JsonParse { path: String, source: String },
}

impl PlayerDataError {
    /// What is said of the error.
    pub open spec fn text(self) -> Seq<char> {
        match self {
            PlayerDataError::DataFileNotFound(path) => "player data file not found: "@ + path@,
            PlayerDataError::ReadFile { path, source } => {
                "failed to read file `"@ + path@ + "`: "@ + source@
            },
            PlayerDataError::NbtParse { path, source } => {
                "failed to parse NBT data from `"@ + path@ + "`: "@ + source@
            },
            PlayerDataError::JsonParse { path, source } => {
                "failed to parse JSON from `"@ + path@ + "`: "@ + source@
            },
        }
    }

    /// Says what the error is.
    pub fn message(&self) -> (r: String)
        ensures
            r@ == self.text(),
    {
        match self {
            PlayerDataError::DataFileNotFound(path) => {
                let mut s = "player data file not found: ".to_owned();
                s.append(path.as_str());
                s
            },
            PlayerDataError::ReadFile { path, source } => {
                about_file("failed to read file `", path, source)
            },
            PlayerDataError::NbtParse { path, source } => {
                about_file("failed to parse NBT data from `", path, source)
            },
            PlayerDataError::JsonParse { path, source } => {
                about_file("failed to parse JSON from `", path, source)
            },
        }
    }
}

/// `head`, a path and what is wrong with it.
fn about_file(head: &str, path: &String, source: &String) -> (r: String)
    ensures
        r@ == head@ + path@ + "`: "@ + source@,
{
    let mut s = head.to_owned();
    s.append(path.as_str());
    s.append("`: ");
    s.append(source.as_str());
    s
}

/// The error for a file that could not be read: a file that is not there is told apart.
pub fn read_error(path: String, not_found: bool, source: String) -> (r: PlayerDataError)
    ensures
        r == if not_found {
            PlayerDataError::DataFileNotFound(path)
        } else {
            PlayerDataError::ReadFile { path, source }
        },
{
    if not_found {
        PlayerDataError::DataFileNotFound(path)
    } else {
        PlayerDataError::ReadFile { path, source }
    }
}

/// What the server's file tells of a player's state.
#[derive(Debug)]
pub struct NbtPlayerData {
    pub data_version: i32,
    pub dimension: String,
    /// The position, each coordinate with one decimal, with commas between them; none where the file
    /// has fewer than three coordinates.
    pub position: Option<String>,
    /// The health, rounded up.
    pub health: i32,
    /// How many of the twenty places of the bar the health fills.
    pub health_filled: usize,
    /// The absorption, rounded up, where there is any.
    pub absorption: Option<i32>,
    pub food_level: i32,
    pub xp_level: i32,
    /// How far it is to the next level, in hundredths.
    pub xp_percent: u32,
    pub xp_total: i32,
    pub score: i32,
    pub game_type: i32,
    pub inventory: Vec<InventoryItem>,
    pub ender_items: Vec<InventoryItem>,
}

/// What is known of a player.
#[derive(Debug)]
pub struct PlayerProfile {
    pub username: String,
    pub uuid: String,
    pub player_data: Option<NbtPlayerData>,
    pub stats: Option<MinecraftStats>,
    pub advancements: Option<Advancements>,
}

/// Where the file of a player's state lies.
pub fn player_data_path(world_dir: &str, uuid: &str) -> (r: String)
    ensures
        r@ == consts::path_join(consts::path_join(world_dir@, "playerdata"@), uuid@ + ".dat"@),
{
    let mut name = uuid.to_owned();
    name.append(".dat");
    join(join(world_dir.to_owned(), "playerdata"), name.as_str())
}

/// Where the file of a player's statistics lies.
pub fn stats_path(world_dir: &str, uuid: &str) -> (r: String)
    ensures
        r@ == consts::path_join(consts::path_join(world_dir@, "stats"@), uuid@ + ".json"@),
{
    let mut name = uuid.to_owned();
    name.append(".json");
    join(join(world_dir.to_owned(), "stats"), name.as_str())
}

/// Where the file of a player's advancements lies.
pub fn advancements_path(world_dir: &str, uuid: &str) -> (r: String)
    ensures
        r@ == consts::path_join(consts::path_join(world_dir@, "advancements"@), uuid@ + ".json"@),
{
    let mut name = uuid.to_owned();
    name.append(".json");
    join(join(world_dir.to_owned(), "advancements"), name.as_str())
}

/// What comes of reading a file that may not be there.
pub open spec fn if_there<T>(read: Result<T, PlayerDataError>) -> Result<Option<T>, PlayerDataError> {
    match read {
        Ok(v) => Ok(Some(v)),
        Err(PlayerDataError::DataFileNotFound(_)) => Ok(None),
        Err(e) => Err(e),
    }
}

/// Takes what was read, or nothing where the file is not there.
fn take_if_there<T>(read: Result<T, PlayerDataError>) -> (r: Result<Option<T>, PlayerDataError>)
    ensures
        r == if_there(read),
{
    match read {
        Ok(v) => Ok(Some(v)),
        Err(PlayerDataError::DataFileNotFound(_)) => Ok(None),
        Err(e) => Err(e),
    }
}

/// A player's state; none where there is no file.
pub fn load_nbt_player_data(read: Result<NbtPlayerData, PlayerDataError>) -> (r: Result<
    Option<NbtPlayerData>,
    PlayerDataError,
>)
    ensures
        r == if_there(read),
{
    take_if_there(read)
}

/// A player's statistics; none where there is no file, or none in it.
pub fn load_stats(read: Result<RawStatsJson, PlayerDataError>) -> (r: Result<
    Option<MinecraftStats>,
    PlayerDataError,
>)
    ensures
        match if_there(read) {
            Ok(Some(RawStatsJson { stats: Some(raw) })) => r matches Ok(Some(m)) && stats_of(raw, m),
            Ok(_) => r == Ok::<Option<MinecraftStats>, PlayerDataError>(None),
            Err(e) => r == Err::<Option<MinecraftStats>, PlayerDataError>(e),
        },
{
    match take_if_there(read) {
        Ok(Some(json)) => match json.stats {
            Some(raw) => Ok(Some(transform_stats(raw))),
            None => Ok(None),
        },
        Ok(None) => Ok(None),
        Err(e) => Err(e),
    }
}

/// A player's advancements; none where there is no file.
pub fn load_advancements(
    read: Result<Vec<(String, Option<AdvancementEntry>)>, PlayerDataError>,
) -> (r: Result<Option<Advancements>, PlayerDataError>)
    ensures
        match if_there(read) {
            Ok(Some(raw)) => r matches Ok(Some(a)) && advancements_of(readable(raw@), a),
            Ok(None) => r == Ok::<Option<Advancements>, PlayerDataError>(None),
            Err(e) => r == Err::<Option<Advancements>, PlayerDataError>(e),
        },
{
    match take_if_there(read) {
        Ok(Some(raw)) => {
            let map = parse_advancement_map(raw);
            Ok(Some(compute_advancements(&map)))
        },
        Ok(None) => Ok(None),
        Err(e) => Err(e),
    }
}

/// What was loaded; nothing where that failed.
pub open spec fn or_nothing<T>(r: Result<Option<T>, PlayerDataError>) -> Option<T> {
    match r {
        Ok(v) => v,
        Err(_) => None,
    }
}

/// Takes what was loaded.
fn take_or_nothing<T>(r: Result<Option<T>, PlayerDataError>) -> (v: Option<T>)
    ensures
        v == or_nothing(r),
{
    match r {
        Ok(v) => v,
        Err(_) => None,
    }
}

/// Puts together what is known of a player; what could not be loaded is left out.
pub fn load_player_profile(
    player_data: Result<Option<NbtPlayerData>, PlayerDataError>,
    stats: Result<Option<MinecraftStats>, PlayerDataError>,
    advancements: Result<Option<Advancements>, PlayerDataError>,
    uuid: &str,
    username: &str,
) -> (r: PlayerProfile)
    ensures
        r.username@ == username@,
        r.uuid@ == uuid@,
        r.player_data == or_nothing(player_data),
        r.stats == or_nothing(stats),
        r.advancements == or_nothing(advancements),
{
    PlayerProfile {
        username: username.to_owned(),
        uuid: uuid.to_owned(),
        player_data: take_or_nothing(player_data),
        stats: take_or_nothing(stats),
        advancements: take_or_nothing(advancements),
    }
}

/// `head`, a number and `rest`.
fn with_int(head: &str, n: i64, rest: &str) -> (r: String)
    ensures
        r@ == head@ + text::dec_int(n as int) + rest@,
{
    let mut s = head.to_owned();
    push_dec_int(&mut s, n);
    s.append(rest);
    s
}

/// `head`, a text and `rest`.
fn with_text(head: &str, middle: &str, rest: &str) -> (r: String)
    ensures
        r@ == head@ + middle@ + rest@,
{
    let mut s = head.to_owned();
    s.append(middle);
    s.append(rest);
    s
}

/// The health, and a bar for it.
pub open spec fn health_lines(pd: NbtPlayerData) -> Seq<char> {
    "❤️ **Health:** "@ + text::dec_int(pd.health as int) + "/20\n```"@ + bar_text(
        pd.health_filled as nat,
        20,
    ) + "```\n"@
}

/// The absorption, where there is any.
pub open spec fn absorption_lines(pd: NbtPlayerData) -> Seq<char> {
    match pd.absorption {
        Some(n) => "🟡 **Absorption:** "@ + text::dec_int(n as int) + "\n"@,
        None => Seq::empty(),
    }
}

/// How many of the twenty places of the bar the food fills.
pub open spec fn food_places(food: i32) -> nat {
    if food <= 0 {
        0
    } else if food >= 20 {
        20
    } else {
        food as nat
    }
}

/// The hunger, and a bar for it.
pub open spec fn hunger_lines(pd: NbtPlayerData) -> Seq<char> {
    "🍖 **Hunger:** "@ + text::dec_int(pd.food_level as int) + "/20\n```"@ + bar_text(
        food_places(pd.food_level),
        20,
    ) + "```\n"@
}

/// The level.
pub open spec fn level_line(pd: NbtPlayerData) -> Seq<char> {
    "⭐ **Level:** "@ + text::dec_int(pd.xp_level as int) + "  •  "@ + text::dec(
        pd.xp_percent as nat,
    ) + "% to next  •  "@ + text::dec_int(pd.xp_total as int) + " total XP\n"@
}

/// Where the player is, and in which mode.
pub open spec fn place_lines(pd: NbtPlayerData) -> Seq<char> {
    "🎯 **Mode:** "@ + mode_name(pd.game_type) + "\n🗺️ **Dimension:** "@ + dimension_name(
        pd.dimension@,
    ) + "\n"@ + (match pd.position {
        Some(p) => "📍 **Position:** "@ + p@ + "\n"@,
        None => Seq::empty(),
    }) + "💯 **Score:** "@ + text::dec_int(pd.score as int) + "\n"@
}

/// `label` and the time since a point in time, where it is known.
pub open spec fn time_line(label: Seq<char>, ts: i64) -> Seq<char> {
    if ts > 0 {
        label + "<t:"@ + text::dec_int(ts as int) + ":R>\n"@
    } else {
        Seq::empty()
    }
}

/// What the bridge has recorded of the player's activity, where it has recorded any.
pub open spec fn activity_lines(record: Option<PlayerStats>) -> Seq<char> {
    match record {
        Some(rs) => if rs.total_logins > 0 || rs.total_messages > 0 || rs.total_commands > 0 {
            "\n📋 **Activity (tracked):**\n🔑 Logins: "@ + text::dec(rs.total_logins as nat)
                + "  •  💬 Messages: "@ + text::dec(rs.total_messages as nat)
                + "  •  ⌨️ Commands: "@ + text::dec(rs.total_commands as nat) + "\n"@ + time_line(
                "🕐 First seen: "@,
                rs.first_login_ts,
            ) + time_line("🟢 Last login: "@, rs.last_login_ts)
        } else {
            Seq::empty()
        },
        None => Seq::empty(),
    }
}

/// An item, with its count where there are several.
pub open spec fn item_line(item: InventoryItem) -> Seq<char> {
    (if item.count > 1 {
        text::dec_int(item.count as int) + "x "@
    } else {
        Seq::empty()
    }) + item_name(item.id@, item.components) + "\n"@
}

/// Items, one to a line.
pub open spec fn item_lines(items: Seq<InventoryItem>) -> Seq<char>
    decreases items.len(),
{
    if items.len() == 0 {
        Seq::empty()
    } else {
        item_lines(items.drop_last()) + item_line(items.last())
    }
}

/// The inventory: how much of it is used, and the first eight items.
pub open spec fn inventory_lines(items: Seq<InventoryItem>) -> Seq<char> {
    let head = "🎒 **Inventory:** "@ + text::dec(items.len()) + "/41 slots used\n"@;
    if items.len() == 0 {
        head
    } else if items.len() <= 8 {
        head + "```\n"@ + item_lines(items) + "```\n"@
    } else {
        head + "```\n"@ + item_lines(items.take(8)) + "... and "@ + text::dec(
            (items.len() - 8) as nat,
        ) + " more\n```\n"@
    }
}

/// The first page of a player's profile.
pub open spec fn overview_embed(profile: PlayerProfile, record: Option<PlayerStats>) -> EmbedView {
    EmbedView {
        description: Some(
            match profile.player_data {
                Some(pd) => health_lines(pd) + absorption_lines(pd) + hunger_lines(pd) + level_line(
                    pd,
                ) + place_lines(pd) + activity_lines(record) + "\n"@ + inventory_lines(
                    pd.inventory@,
                ),
                None => "Player data file not yet available for **"@ + profile.username@
                    + "**.\nJoin the server to generate it."@,
            },
        ),
        ..embed::titled("🎮 "@ + profile.username@, 0x00aa00)
    }
}

/// Writes the health.
fn write_health(pd: &NbtPlayerData) -> (r: String)
    ensures
        r@ == health_lines(*pd),
{
    let bar = progress_bar(pd.health_filled, 20);
    let mut s = with_int("❤️ **Health:** ", pd.health as i64, "/20\n```");
    s.append(bar.as_str());
    s.append("```\n");
    s
}

/// Writes the absorption.
fn write_absorption(pd: &NbtPlayerData) -> (r: String)
    ensures
        r@ == absorption_lines(*pd),
{
    match pd.absorption {
        Some(n) => with_int("🟡 **Absorption:** ", n as i64, "\n"),
        None => String::new(),
    }
}

/// Writes the hunger.
fn write_hunger(pd: &NbtPlayerData) -> (r: String)
    ensures
        r@ == hunger_lines(*pd),
{
    let places: usize = if pd.food_level <= 0 {
        0
    } else if pd.food_level >= 20 {
        20
    } else {
        pd.food_level as usize
    };
    let bar = progress_bar(places, 20);
    let mut s = with_int("🍖 **Hunger:** ", pd.food_level as i64, "/20\n```");
    s.append(bar.as_str());
    s.append("```\n");
    s
}

/// Writes the level.
fn write_level(pd: &NbtPlayerData) -> (r: String)
    ensures
        r@ == level_line(*pd),
{
    let mut s = with_int("⭐ **Level:** ", pd.xp_level as i64, "  •  ");
    push_dec(&mut s, pd.xp_percent as u64);
    s.append("% to next  •  ");
    push_dec_int(&mut s, pd.xp_total as i64);
    s.append(" total XP\n");
    s
}

/// Writes where the player is, and in which mode.
fn write_place(pd: &NbtPlayerData) -> (r: String)
    ensures
        r@ == place_lines(*pd),
{
    let position = match &pd.position {
        Some(p) => with_text("📍 **Position:** ", p.as_str(), "\n"),
        None => String::new(),
    };
    let mut s = with_text("🎯 **Mode:** ", game_type_name(pd.game_type), "\n🗺️ **Dimension:** ");
    s.append(format_dimension(pd.dimension.as_str()));
    s.append("\n");
    s.append(position.as_str());
    s.append("💯 **Score:** ");
    push_dec_int(&mut s, pd.score as i64);
    s.append("\n");
    s
}

/// Writes a point in time, where it is known.
fn write_time_line(label: &str, ts: i64) -> (r: String)
    ensures
        r@ == time_line(label@, ts),
{
    if ts > 0 {
        let mut s = label.to_owned();
        s.append("<t:");
        push_dec_int(&mut s, ts);
        s.append(":R>\n");
        s
    } else {
        String::new()
    }
}

/// Writes what the bridge has recorded of the player's activity.
fn write_activity(record: Option<&PlayerStats>) -> (r: String)
    ensures
        r@ == activity_lines(
            match record {
                Some(rs) => Some(*rs),
                None => None,
            },
        ),
{
    match record {
        Some(rs) => if rs.total_logins > 0 || rs.total_messages > 0 || rs.total_commands > 0 {
            let first = write_time_line("🕐 First seen: ", rs.first_login_ts);
            let last = write_time_line("🟢 Last login: ", rs.last_login_ts);
            let mut s = "\n📋 **Activity (tracked):**\n🔑 Logins: ".to_owned();
            push_dec(&mut s, rs.total_logins);
            s.append("  •  💬 Messages: ");
            push_dec(&mut s, rs.total_messages);
            s.append("  •  ⌨️ Commands: ");
            push_dec(&mut s, rs.total_commands);
            s.append("\n");
            s.append(first.as_str());
            s.append(last.as_str());
            s
        } else {
            String::new()
        },
        None => String::new(),
    }
}

/// Writes the first items, one to a line.
fn write_items(items: &[InventoryItem], n: usize) -> (r: String)
    requires
        n <= items@.len(),
    ensures
        r@ == item_lines(items@.take(n as int)),
{
    let shown = inventory_items(items);
    let mut s = String::new();
    let mut i: usize = 0;
    assert(items@.take(0) =~= Seq::<InventoryItem>::empty());
    while i < n
        invariant
            i <= n <= items@.len(),
            shown@.len() == items@.len(),
            forall|j: int| 0 <= j < shown@.len() ==> shows_item(#[trigger] shown@[j], items@[j]),
            s@ == item_lines(items@.take(i as int)),
        decreases n - i,
    {
        let item = &shown[i];
        let ghost before = s@;
        proof {
            assert(items@.take(i + 1).drop_last() =~= items@.take(i as int));
            assert(shows_item(shown@[i as int], items@[i as int]));
        }
        if item.count > 1 {
            push_dec_int(&mut s, item.count as i64);
            s.append("x ");
        }
        s.append(item.display_name.as_str());
        s.append("\n");
        assert(s@ =~= before + item_line(items@[i as int]));
        i = i + 1;
    }
    s
}

/// Writes the inventory.
fn write_inventory(items: &[InventoryItem]) -> (r: String)
    ensures
        r@ == inventory_lines(items@),
{
    let n = items.len();
    let mut s = "🎒 **Inventory:** ".to_owned();
    push_dec(&mut s, n as u64);
    s.append("/41 slots used\n");
    if n == 0 {
        return s;
    }
    s.append("```\n");
    if n <= 8 {
        let lines = write_items(items, n);
        assert(items@.take(n as int) =~= items@);
        s.append(lines.as_str());
        s.append("```\n");
    } else {
        let lines = write_items(items, 8);
        s.append(lines.as_str());
        s.append("... and ");
        push_dec(&mut s, (n - 8) as u64);
        s.append(" more\n```\n");
    }
    s
}

/// `🎮 `, `📊 Statistics — ` or the like, and a name.
fn page_title(head: &str, username: &String) -> (r: String)
    ensures
        r@ == head@ + username@,
{
    let mut s = head.to_owned();
    s.append(username.as_str());
    s
}

/// Makes the first page of a player's profile.
pub fn build_overview_embed(profile: &PlayerProfile, redb_stats: Option<&PlayerStats>) -> (r: Embed)
    ensures
        r@ == overview_embed(
            *profile,
            match redb_stats {
                Some(rs) => Some(*rs),
                None => None,
            },
        ),
{
    let description = match &profile.player_data {
        Some(pd) => {
            let mut s = write_health(pd);
            s.append(write_absorption(pd).as_str());
            s.append(write_hunger(pd).as_str());
            s.append(write_level(pd).as_str());
            s.append(write_place(pd).as_str());
            s.append(write_activity(redb_stats).as_str());
            s.append("\n");
            s.append(write_inventory(pd.inventory.as_slice()).as_str());
            s
        },
        None => with_text(
            "Player data file not yet available for **",
            profile.username.as_str(),
            "**.\nJoin the server to generate it.",
        ),
    };
    Embed::new(page_title("🎮 ", &profile.username), 0x00aa00).described(description)
}

/// What is recorded of the player, by the bridge or else by the server.
pub open spec fn record_lines(record: Option<PlayerStats>, stats: Option<MinecraftStats>) -> Seq<char> {
    match record {
        Some(rs) => "⏱️ **Play Time:** "@ + play_time_text(rs.total_play_time_secs as nat)
            + "\n💀 **Deaths:** "@ + text::dec(rs.total_deaths as nat)
            + "  •  ⚔️ **Mob Kills:** "@ + text::dec(
            (match stats {
                Some(s) => s.mob_kills,
                None => 0,
            }) as nat,
        ) + "  •  🔑 **Logins:** "@ + text::dec(rs.total_logins as nat)
            + "\n💬 **Messages:** "@ + text::dec(rs.total_messages as nat)
            + "  •  ⌨️ **Commands:** "@ + text::dec(rs.total_commands as nat)
            + "  •  🏆 **Advancements:** "@ + text::dec(rs.total_advancements as nat) + "\n"@,
        None => match stats {
            Some(s) => "⏱️ **Play Time:** "@ + play_time_text(s.play_time_secs as nat)
                + "\n💀 **Deaths:** "@ + text::dec(s.deaths as nat)
                + "  •  ⚔️ **Mob Kills:** "@ + text::dec(s.mob_kills as nat) + "\n"@,
            None => Seq::empty(),
        },
    }
}

/// What the server counts of the player's movements and fights.
pub open spec fn movement_lines(stats: Option<MinecraftStats>) -> Seq<char> {
    match stats {
        Some(s) => "\n**Movement (from stats):**\n👣 Walked: "@ + distance_text(
            s.distance_walked_cm as nat,
        ) + "  •  ✈️ Flown: "@ + distance_text(s.distance_flown_cm as nat)
            + "  •  🏊 Swum: "@ + distance_text(s.distance_swum_cm as nat)
            + "\n🦘 Jumps: "@ + short_number(s.jumps as nat)
            + "\n🗡️ **Damage Dealt:** "@ + short_number(s.damage_dealt as nat)
            + "  •  💥 **Damage Taken:** "@ + short_number(s.damage_taken as nat)
            + "\n\n🔝 **Top Killed:** "@ + top_text(s.killed@, 5, "Nothing"@)
            + "\n⛏️ **Top Mined:** "@ + top_text(s.mined@, 5, "Nothing"@) + "\n"@,
        None => Seq::empty(),
    }
}

/// Days with their bars, one to a line.
pub open spec fn day_bars(days: Seq<(String, u64)>) -> Seq<char>
    decreases days.len(),
{
    if days.len() == 0 {
        Seq::empty()
    } else {
        day_bars(days.drop_last()) + days.last().0@ + "  "@ + day_bar(days.last().1 as nat)
            + "\n"@
    }
}

/// The play time of the days, where there are any.
pub open spec fn week_lines(days: Seq<(String, u64)>) -> Seq<char> {
    if days.len() == 0 {
        Seq::empty()
    } else {
        "\n📅 **This Week:** "@ + play_time_text(commands::total_of(days)) + "\n```\n"@ + day_bars(
            days,
        ) + "```\n"@
    }
}

/// The second page of a player's profile.
pub open spec fn statistics_embed(
    profile: PlayerProfile,
    record: Option<PlayerStats>,
    days: Seq<(String, u64)>,
) -> EmbedView {
    let lines = record_lines(record, profile.stats) + movement_lines(profile.stats) + week_lines(
        days,
    );
    EmbedView {
        description: Some(
            if lines.len() == 0 {
                "No statistics data available for this player."@
            } else {
                lines
            },
        ),
        ..embed::titled("📊 Statistics — "@ + profile.username@, 0x3498db)
    }
}

/// Writes what is recorded of the player.
fn write_record(record: Option<&PlayerStats>, stats: &Option<MinecraftStats>) -> (r: String)
    ensures
        r@ == record_lines(
            match record {
                Some(rs) => Some(*rs),
                None => None,
            },
            *stats,
        ),
{
    match record {
        Some(rs) => {
            let kills: u64 = match stats {
                Some(s) => s.mob_kills,
                None => 0,
            };
            let mut s = "⏱️ **Play Time:** ".to_owned();
            push_play_time(&mut s, rs.total_play_time_secs);
            s.append("\n💀 **Deaths:** ");
            push_dec(&mut s, rs.total_deaths);
            s.append("  •  ⚔️ **Mob Kills:** ");
            push_dec(&mut s, kills);
            s.append("  •  🔑 **Logins:** ");
            push_dec(&mut s, rs.total_logins);
            s.append("\n💬 **Messages:** ");
            push_dec(&mut s, rs.total_messages);
            s.append("  •  ⌨️ **Commands:** ");
            push_dec(&mut s, rs.total_commands);
            s.append("  •  🏆 **Advancements:** ");
            push_dec(&mut s, rs.total_advancements);
            s.append("\n");
            s
        },
        None => match stats {
            Some(m) => {
                let mut s = "⏱️ **Play Time:** ".to_owned();
                push_play_time(&mut s, m.play_time_secs);
                s.append("\n💀 **Deaths:** ");
                push_dec(&mut s, m.deaths);
                s.append("  •  ⚔️ **Mob Kills:** ");
                push_dec(&mut s, m.mob_kills);
                s.append("\n");
                s
            },
            None => String::new(),
        },
    }
}

/// Writes what the server counts of the player's movements and fights.
fn write_movement(stats: &Option<MinecraftStats>) -> (r: String)
    ensures
        r@ == movement_lines(*stats),
{
    match stats {
        Some(m) => {
            let killed = top_entries(m.killed.as_slice(), 5, "Nothing");
            let mined = top_entries(m.mined.as_slice(), 5, "Nothing");
            let mut s = "\n**Movement (from stats):**\n👣 Walked: ".to_owned();
            push_distance(&mut s, m.distance_walked_cm);
            s.append("  •  ✈️ Flown: ");
            push_distance(&mut s, m.distance_flown_cm);
            s.append("  •  🏊 Swum: ");
            push_distance(&mut s, m.distance_swum_cm);
            s.append("\n🦘 Jumps: ");
            push_num(&mut s, m.jumps);
            s.append("\n🗡️ **Damage Dealt:** ");
            push_num(&mut s, m.damage_dealt);
            s.append("  •  💥 **Damage Taken:** ");
            push_num(&mut s, m.damage_taken);
            s.append("\n\n🔝 **Top Killed:** ");
            s.append(killed.as_str());
            s.append("\n⛏️ **Top Mined:** ");
            s.append(mined.as_str());
            s.append("\n");
            s
        },
        None => String::new(),
    }
}

/// Writes the days with their bars.
fn write_day_bars(days: &[(String, u64)]) -> (r: String)
    ensures
        r@ == day_bars(days@),
{
    let mut s = String::new();
    let mut i: usize = 0;
    assert(days@.take(0) =~= Seq::<(String, u64)>::empty());
    while i < days.len()
        invariant
            i <= days@.len(),
            s@ == day_bars(days@.take(i as int)),
        decreases days@.len() - i,
    {
        assert(days@.take(i + 1).drop_last() =~= days@.take(i as int));
        let bar = daily_bar(days[i].1);
        s.append(days[i].0.as_str());
        s.append("  ");
        s.append(bar.as_str());
        s.append("\n");
        i = i + 1;
    }
    assert(days@.take(i as int) =~= days@);
    s
}

/// Writes the play time of the days.
fn write_week(days: &[(String, u64)]) -> (r: String)
    requires
        commands::total_of(days@) <= u64::MAX,
    ensures
        r@ == week_lines(days@),
{
    if days.len() == 0 {
        return String::new();
    }
    let week: u64 = match total_secs(days) {
        Some(n) => n,
        None => 0,
    };
    let bars = write_day_bars(days);
    let mut s = "\n📅 **This Week:** ".to_owned();
    push_play_time(&mut s, week);
    s.append("\n```\n");
    s.append(bars.as_str());
    s.append("```\n");
    s
}

/// Makes the second page of a player's profile.
pub fn build_stats_embed(
    profile: &PlayerProfile,
    redb_stats: Option<&PlayerStats>,
    daily_play_time: &[(String, u64)],
) -> (r: Embed)
    requires
        commands::total_of(daily_play_time@) <= u64::MAX,
    ensures
        r@ == statistics_embed(
            *profile,
            match redb_stats {
                Some(rs) => Some(*rs),
                None => None,
            },
            daily_play_time@,
        ),
{
    let mut s = write_record(redb_stats, &profile.stats);
    s.append(write_movement(&profile.stats).as_str());
    s.append(write_week(daily_play_time).as_str());
    let description = if s.as_str().unicode_len() == 0 {
        "No statistics data available for this player.".to_owned()
    } else {
        s
    };
    Embed::new(page_title("📊 Statistics — ", &profile.username), 0x3498db).described(description)
}

/// How many of how many, and in hundredths.
pub open spec fn progress_line(label: Seq<char>, earned: nat, total: nat) -> Seq<char> {
    label + text::dec(earned) + "/"@ + text::dec(total) + " ("@ + text::dec(
        decimal::percentage(earned, total),
    ) + "%)\n"@
}

/// Advancements that are done, one to a line.
pub open spec fn earned_lines(list: Seq<(String, String)>) -> Seq<char>
    decreases list.len(),
{
    if list.len() == 0 {
        Seq::empty()
    } else {
        earned_lines(list.drop_last()) + "• "@ + advancement_name(list.last().0@) + "\n"@
    }
}

/// Advancements that are begun, one to a line.
pub open spec fn begun_lines(list: Seq<(String, usize, usize)>) -> Seq<char>
    decreases list.len(),
{
    if list.len() == 0 {
        Seq::empty()
    } else {
        begun_lines(list.drop_last()) + "• "@ + advancement_name(list.last().0@) + " — "@
            + text::dec(list.last().1 as nat) + "/"@ + text::dec(list.last().2 as nat) + "\n"@
    }
}

/// The first five of a list, or all where there are fewer.
pub open spec fn first_five<A>(list: Seq<A>) -> Seq<A> {
    if list.len() < 5 {
        list
    } else {
        list.take(5)
    }
}

/// How far the player has come with the advancements.
pub open spec fn advancement_lines(a: Advancements) -> Seq<char> {
    progress_line("📈 **Overall:** "@, a.earned as nat, a.total as nat) + progress_line(
        "🧱 **Vanilla:** "@,
        a.vanilla_earned as nat,
        a.vanilla_total as nat,
    ) + (if a.modded_total > 0 {
        progress_line("✨ **Modded:** "@, a.modded_earned as nat, a.modded_total as nat)
    } else {
        Seq::empty()
    }) + (if a.earned_list@.len() > 0 {
        "\n⭐ **Recently Earned:**\n"@ + earned_lines(first_five(a.earned_list@))
    } else {
        Seq::empty()
    }) + (if a.in_progress@.len() > 0 {
        "\n📋 **In Progress:**\n"@ + begun_lines(first_five(a.in_progress@))
    } else {
        Seq::empty()
    })
}

/// The third page of a player's profile.
pub open spec fn advancements_embed(profile: PlayerProfile) -> EmbedView {
    EmbedView {
        description: Some(
            match profile.advancements {
                Some(a) => advancement_lines(a),
                None => "No advancement data available for this player."@,
            },
        ),
        ..embed::titled("🏆 Advancements — "@ + profile.username@, 0xe67e22)
    }
}

/// Writes how many of how many.
fn write_progress(label: &str, earned: usize, total: usize) -> (r: String)
    requires
        earned <= total,
    ensures
        r@ == progress_line(label@, earned as nat, total as nat),
{
    let mut s = label.to_owned();
    push_dec(&mut s, earned as u64);
    s.append("/");
    push_dec(&mut s, total as u64);
    s.append(" (");
    push_dec(&mut s, percent(earned as u64, total as u64) as u64);
    s.append("%)\n");
    s
}

/// Writes the first advancements that are done.
fn write_earned(list: &Vec<(String, String)>) -> (r: String)
    ensures
        r@ == if list@.len() > 0 {
            "\n⭐ **Recently Earned:**\n"@ + earned_lines(first_five(list@))
        } else {
            Seq::empty()
        },
{
    if list.len() == 0 {
        return String::new();
    }
    let n = if list.len() < 5 {
        list.len()
    } else {
        5
    };
    let mut s = "\n⭐ **Recently Earned:**\n".to_owned();
    let ghost head = s@;
    let mut i: usize = 0;
    assert(list@.take(0) =~= Seq::<(String, String)>::empty());
    assert(head + Seq::<char>::empty() =~= head);
    while i < n
        invariant
            i <= n <= list@.len(),
            s@ == head + earned_lines(list@.take(i as int)),
        decreases n - i,
    {
        assert(list@.take(i + 1).drop_last() =~= list@.take(i as int));
        let name = format_advancement_name(list[i].0.as_str());
        s.append("• ");
        s.append(name.as_str());
        s.append("\n");
        assert(s@ =~= head + earned_lines(list@.take(i + 1)));
        i = i + 1;
    }
    assert(list@.take(n as int) =~= first_five(list@));
    s
}

/// Writes the first advancements that are begun.
fn write_begun(list: &Vec<(String, usize, usize)>) -> (r: String)
    ensures
        r@ == if list@.len() > 0 {
            "\n📋 **In Progress:**\n"@ + begun_lines(first_five(list@))
        } else {
            Seq::empty()
        },
{
    if list.len() == 0 {
        return String::new();
    }
    let n = if list.len() < 5 {
        list.len()
    } else {
        5
    };
    let mut s = "\n📋 **In Progress:**\n".to_owned();
    let ghost head = s@;
    let mut i: usize = 0;
    assert(list@.take(0) =~= Seq::<(String, usize, usize)>::empty());
    assert(head + Seq::<char>::empty() =~= head);
    while i < n
        invariant
            i <= n <= list@.len(),
            s@ == head + begun_lines(list@.take(i as int)),
        decreases n - i,
    {
        assert(list@.take(i + 1).drop_last() =~= list@.take(i as int));
        let name = format_advancement_name(list[i].0.as_str());
        s.append("• ");
        s.append(name.as_str());
        s.append(" — ");
        push_dec(&mut s, list[i].1 as u64);
        s.append("/");
        push_dec(&mut s, list[i].2 as u64);
        s.append("\n");
        assert(s@ =~= head + begun_lines(list@.take(i + 1)));
        i = i + 1;
    }
    assert(list@.take(n as int) =~= first_five(list@));
    s
}

/// Makes the third page of a player's profile.
pub fn build_advancements_embed(profile: &PlayerProfile) -> (r: Embed)
    requires
        profile.advancements matches Some(a) ==> a.wf(),
    ensures
        r@ == advancements_embed(*profile),
{
    let description = match &profile.advancements {
        Some(a) => {
            let modded = if a.modded_total > 0 {
                write_progress("✨ **Modded:** ", a.modded_earned, a.modded_total)
            } else {
                String::new()
            };
            let mut s = write_progress("📈 **Overall:** ", a.earned, a.total);
            s.append(
                write_progress("🧱 **Vanilla:** ", a.vanilla_earned, a.vanilla_total).as_str(),
            );
            s.append(modded.as_str());
            s.append(write_earned(&a.earned_list).as_str());
            s.append(write_begun(&a.in_progress).as_str());
            s
        },
        None => "No advancement data available for this player.".to_owned(),
    };
    Embed::new(page_title("🏆 Advancements — ", &profile.username), 0xe67e22).described(description)
}

/// Makes the pages of a player's profile; the third only where there is something to show on it.
pub fn build_profile_embeds(
    profile: &PlayerProfile,
    redb_stats: Option<&PlayerStats>,
    daily_play_time: &[(String, u64)],
) -> (r: Vec<Embed>)
    requires
        commands::total_of(daily_play_time@) <= u64::MAX,
        profile.advancements matches Some(a) ==> a.wf(),
    ensures
        r@.len() == if profile.advancements is Some {
            3int
        } else {
            2
        },
        ({
            let record = match redb_stats {
                Some(rs) => Some(*rs),
                None => None,
            };
            &&& r@[0]@ == overview_embed(*profile, record)
            &&& r@[1]@ == statistics_embed(*profile, record, daily_play_time@)
            &&& profile.advancements is Some ==> r@[2]@ == advancements_embed(*profile)
        }),
{
    let mut embeds: Vec<Embed> = Vec::new();
    embeds.push(build_overview_embed(profile, redb_stats));
    embeds.push(build_stats_embed(profile, redb_stats, daily_play_time));
    if profile.advancements.is_some() {
        embeds.push(build_advancements_embed(profile));
    }
    embeds
}

} // verus!
