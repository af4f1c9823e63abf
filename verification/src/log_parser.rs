//! From lines of a Minecraft server's log to the events that the bridge forwards.

use crate::text;
use crate::text::{
    chars_of, comma_items, has_text, has_text_at, name_char, parse_number, same_text, space_char,
    string_of, tail, to_lower, trimmed, trimmed_start, upper_string,
};
use crate::text_map::TextMap;
use vstd::prelude::*;
use vstd::slice::slice_subrange;
use vstd::string::*;

verus! {

/// What a line of the log reports.
#[derive(Debug, PartialEq)]
pub enum MinecraftEvent {
    Chat { username: String, message: String },
    Join { username: String },
    Leave { username: String },
    Disconnect { username: String, reason: String },
    Death { username: String, message: String },
    Advancement { username: String, advancement: String },
    Command { username: String, command: String },
    ServerSay { message: String },
    PlayerList { current: u32, max: u32, players: Vec<String> },
    UuidResolved { username: String, uuid: String },
    ServerStart,
    ServerStop,
    SaveComplete,
}

/// An event with its texts as sequences of characters.
pub enum EventView {
    Chat { username: Seq<char>, message: Seq<char> },
    Join { username: Seq<char> },
    Leave { username: Seq<char> },
    Disconnect { username: Seq<char>, reason: Seq<char> },
    Death { username: Seq<char>, message: Seq<char> },
    Advancement { username: Seq<char>, advancement: Seq<char> },
    Command { username: Seq<char>, command: Seq<char> },
    ServerSay { message: Seq<char> },
    PlayerList { current: u32, max: u32, players: Seq<Seq<char>> },
    UuidResolved { username: Seq<char>, uuid: Seq<char> },
    ServerStart,
    ServerStop,
    SaveComplete,
}

impl View for MinecraftEvent {
    type V = EventView;

    open spec fn view(&self) -> EventView {
        match *self {
            MinecraftEvent::Chat { username, message } => EventView::Chat {
                username: username@,
                message: message@,
            },
            MinecraftEvent::Join { username } => EventView::Join { username: username@ },
            MinecraftEvent::Leave { username } => EventView::Leave { username: username@ },
            MinecraftEvent::Disconnect { username, reason } => EventView::Disconnect {
                username: username@,
                reason: reason@,
            },
            MinecraftEvent::Death { username, message } => EventView::Death {
                username: username@,
                message: message@,
            },
            MinecraftEvent::Advancement { username, advancement } => EventView::Advancement {
                username: username@,
                advancement: advancement@,
            },
            MinecraftEvent::Command { username, command } => EventView::Command {
                username: username@,
                command: command@,
            },
            MinecraftEvent::ServerSay { message } => EventView::ServerSay { message: message@ },
            MinecraftEvent::PlayerList { current, max, players } => EventView::PlayerList {
                current,
                max,
                players: text::texts(players@),
            },
            MinecraftEvent::UuidResolved { username, uuid } => EventView::UuidResolved {
                username: username@,
                uuid: uuid@,
            },
            MinecraftEvent::ServerStart => EventView::ServerStart,
            MinecraftEvent::ServerStop => EventView::ServerStop,
            MinecraftEvent::SaveComplete => EventView::SaveComplete,
        }
    }
}

/// The view of an optional event.
pub open spec fn event_view(e: Option<MinecraftEvent>) -> Option<EventView> {
    match e {
        Some(e) => Some(e@),
        None => None,
    }
}

/// What the player statistics are told of an event.
#[derive(Debug, PartialEq)]
pub enum StatsEvent {
    UuidResolved { username: String, uuid: String },
    Join { username: String },
    Leave { username: String },
    Disconnect { username: String, reason: String },
    Death { username: String },
    Advancement { username: String, advancement: String },
    Chat { username: String },
    Command { username: String },
    ServerStart,
    ServerStop,
}

/// A report to the player statistics with its texts as sequences of characters.
pub enum StatsEventView {
    UuidResolved { username: Seq<char>, uuid: Seq<char> },
    Join { username: Seq<char> },
    Leave { username: Seq<char> },
    Disconnect { username: Seq<char>, reason: Seq<char> },
    Death { username: Seq<char> },
    Advancement { username: Seq<char>, advancement: Seq<char> },
    Chat { username: Seq<char> },
    Command { username: Seq<char> },
    ServerStart,
    ServerStop,
}

impl View for StatsEvent {
    type V = StatsEventView;

    open spec fn view(&self) -> StatsEventView {
        match *self {
            StatsEvent::UuidResolved { username, uuid } => StatsEventView::UuidResolved {
                username: username@,
                uuid: uuid@,
            },
            StatsEvent::Join { username } => StatsEventView::Join { username: username@ },
            StatsEvent::Leave { username } => StatsEventView::Leave { username: username@ },
            StatsEvent::Disconnect { username, reason } => StatsEventView::Disconnect {
                username: username@,
                reason: reason@,
            },
            StatsEvent::Death { username } => StatsEventView::Death { username: username@ },
            StatsEvent::Advancement { username, advancement } => StatsEventView::Advancement {
                username: username@,
                advancement: advancement@,
            },
            StatsEvent::Chat { username } => StatsEventView::Chat { username: username@ },
            StatsEvent::Command { username } => StatsEventView::Command { username: username@ },
            StatsEvent::ServerStart => StatsEventView::ServerStart,
            StatsEvent::ServerStop => StatsEventView::ServerStop,
        }
    }
}

/// What the player statistics are told of an event; `None` where they are told nothing.
pub open spec fn stats_event_for(e: EventView) -> Option<StatsEventView> {
    match e {
        EventView::UuidResolved { username, uuid } => Some(
            StatsEventView::UuidResolved { username, uuid },
        ),
        EventView::Join { username } => Some(StatsEventView::Join { username }),
        EventView::Leave { username } => Some(StatsEventView::Leave { username }),
        EventView::Disconnect { username, reason } => Some(
            StatsEventView::Disconnect { username, reason },
        ),
        EventView::Death { username, .. } => Some(StatsEventView::Death { username }),
        EventView::Advancement { username, advancement } => Some(
            StatsEventView::Advancement { username, advancement },
        ),
        EventView::Chat { username, .. } => Some(StatsEventView::Chat { username }),
        EventView::Command { username, .. } => Some(StatsEventView::Command { username }),
        EventView::ServerStart => Some(StatsEventView::ServerStart),
        EventView::ServerStop => Some(StatsEventView::ServerStop),
        EventView::ServerSay { .. } => None,
        EventView::PlayerList { .. } => None,
        EventView::SaveComplete => None,
    }
}

impl MinecraftEvent {
    /// Tells what the player statistics are told of the event.
    pub fn to_stats_event(&self) -> (r: Option<StatsEvent>)
        ensures
            match r {
                Some(e) => stats_event_for(self@) == Some(e@),
                None => stats_event_for(self@) is None,
            },
    {
        match self {
            MinecraftEvent::UuidResolved { username, uuid } => Some(
                StatsEvent::UuidResolved { username: username.clone(), uuid: uuid.clone() },
            ),
            MinecraftEvent::Join { username } => Some(
                StatsEvent::Join { username: username.clone() },
            ),
            MinecraftEvent::Leave { username } => Some(
                StatsEvent::Leave { username: username.clone() },
            ),
            MinecraftEvent::Disconnect { username, reason } => Some(
                StatsEvent::Disconnect { username: username.clone(), reason: reason.clone() },
            ),
            MinecraftEvent::Death { username, .. } => Some(
                StatsEvent::Death { username: username.clone() },
            ),
            MinecraftEvent::Advancement { username, advancement } => Some(
                StatsEvent::Advancement {
                    username: username.clone(),
                    advancement: advancement.clone(),
                },
            ),
            MinecraftEvent::Chat { username, .. } => Some(
                StatsEvent::Chat { username: username.clone() },
            ),
            MinecraftEvent::Command { username, .. } => Some(
                StatsEvent::Command { username: username.clone() },
            ),
            MinecraftEvent::ServerStart => Some(StatsEvent::ServerStart),
            MinecraftEvent::ServerStop => Some(StatsEvent::ServerStop),
            MinecraftEvent::ServerSay { .. } => None,
            MinecraftEvent::PlayerList { .. } => None,
            MinecraftEvent::SaveComplete => None,
        }
    }
}

/// The players whose connection was lost and whose leaving has not been logged yet, with the
/// reason that was given.
pub struct RecentDisconnects {
    pub reasons: TextMap<String>,
}

impl View for RecentDisconnects {
    type V = Set<Seq<char>>;

    open spec fn view(&self) -> Set<Seq<char>> {
        self.reasons@.dom()
    }
}

impl RecentDisconnects {
    /// The map of reasons is well formed.
    pub open spec fn wf(self) -> bool {
        self.reasons.wf()
    }

    /// Nobody was disconnected yet.
    pub fn new() -> (r: Self)
        ensures
            r.wf(),
            r@ == Set::<Seq<char>>::empty(),
    {
        let r = RecentDisconnects { reasons: TextMap::new() };
        assert(r@ =~= Set::<Seq<char>>::empty());
        r
    }
}

/// `s` holds the text of a death message.
pub open spec fn is_death(s: Seq<char>) -> bool {
    ||| text::contains_text(s, "was slain by"@)
    ||| text::contains_text(s, "was shot by"@)
    ||| text::contains_text(s, "was blown up by"@)
    ||| text::contains_text(s, "was smashed by"@)
    ||| text::contains_text(s, "was impaled on"@)
    ||| text::contains_text(s, "was impaled by"@)
    ||| text::contains_text(s, "was pummeled by"@)
    ||| text::contains_text(s, "was skewered by"@)
    ||| text::contains_text(s, "was squashed by"@)
    ||| text::contains_text(s, "was fireballed by"@)
    ||| text::contains_text(s, "was speared by"@)
    ||| text::contains_text(s, "was stung to death"@)
    ||| text::contains_text(s, "was poked to death"@)
    ||| text::contains_text(s, "was pricked to death"@)
    ||| text::contains_text(s, "was burned to a crisp"@)
    ||| text::contains_text(s, "was struck by lightning"@)
    ||| text::contains_text(s, "was frozen to death"@)
    ||| text::contains_text(s, "was obliterated"@)
    ||| text::contains_text(s, "was roasted in dragon's breath"@)
    ||| text::contains_text(s, "was killed"@)
    ||| text::contains_text(s, "burned to death"@)
    ||| text::contains_text(s, "went up in flames"@)
    ||| text::contains_text(s, "went off with a bang"@)
    ||| text::contains_text(s, "drowned"@)
    ||| text::contains_text(s, "starved to death"@)
    ||| text::contains_text(s, "suffocated in a wall"@)
    ||| text::contains_text(s, "fell from a high place"@)
    ||| text::contains_text(s, "fell out of the world"@)
    ||| text::contains_text(s, "fell while climbing"@)
    ||| text::contains_text(s, "fell off"@)
    ||| text::contains_text(s, "hit the ground too hard"@)
    ||| text::contains_text(s, "experienced kinetic energy"@)
    ||| text::contains_text(s, "didn't want to live"@)
    ||| text::contains_text(s, "was doomed to fall"@)
    ||| text::contains_text(s, "tried to swim in lava"@)
    ||| text::contains_text(s, "discovered the floor was lava"@)
    ||| text::contains_text(s, "died because not just the floor is lava"@)
    ||| text::contains_text(s, "withered away"@)
    ||| text::contains_text(s, "killed by magic"@)
    ||| text::contains_text(s, "froze to death"@)
    ||| text::contains_text(s, "left the confines of this world"@)
    ||| text::contains_text(s, "was squished too much"@)
    ||| text::contains_text(s, "blew up"@)
    ||| text::contains_text(s, "walked into"@)
}

/// `s` holds a mark of the server messages that are not forwarded.
pub open spec fn is_ignorable(s: Seq<char>) -> bool {
    ||| text::contains_text(s, "[Rcon:"@)
    ||| text::contains_text(s, "[AuthMe]"@)
    ||| text::contains_text(s, "UUID of player"@)
    ||| text::contains_text(s, "Logged in with entity id"@)
    ||| text::contains_text(s, "Saving chunks for level"@)
    ||| text::contains_text(s, "Rcon connection from"@)
    ||| text::contains_text(s, "[bootstrap]"@)
    ||| text::contains_text(s, "[PluginInitializerManager]"@)
    ||| text::contains_text(s, "Environment:"@)
    ||| text::contains_text(s, "Loaded "@)
    ||| text::contains_text(s, "Starting json RPC"@)
    ||| text::contains_text(s, "Json-RPC Management"@)
    ||| text::contains_text(s, "Preparing level"@)
    ||| text::contains_text(s, "Done ("@)
    ||| text::contains_text(s, "was kicked due to"@)
}

/// `s` is the command `name`, alone or followed by a space and arguments.
pub open spec fn is_command(s: Seq<char>, name: Seq<char>) -> bool {
    s == name || (text::text_at(s, 0, name) && s.len() > name.len() && s[name.len() as int] == ' ')
}

/// `s` is a command that others are not meant to read.
pub open spec fn is_private(s: Seq<char>) -> bool {
    ||| is_command(s, "/msg"@)
    ||| is_command(s, "/tell"@)
    ||| is_command(s, "/w"@)
    ||| is_command(s, "/whisper"@)
    ||| is_command(s, "/reply"@)
    ||| is_command(s, "/r"@)
    ||| is_command(s, "/teammsg"@)
    ||| is_command(s, "/tm"@)
    ||| is_command(s, "/me"@)
}

/// Whether a server message reports a death.
pub fn is_death_message(payload: &str) -> (r: bool)
    ensures
        r == is_death(payload@),
{
    has_text(payload, "was slain by")
        || has_text(payload, "was shot by")
        || has_text(payload, "was blown up by")
        || has_text(payload, "was smashed by")
        || has_text(payload, "was impaled on")
        || has_text(payload, "was impaled by")
        || has_text(payload, "was pummeled by")
        || has_text(payload, "was skewered by")
        || has_text(payload, "was squashed by")
        || has_text(payload, "was fireballed by")
        || has_text(payload, "was speared by")
        || has_text(payload, "was stung to death")
        || has_text(payload, "was poked to death")
        || has_text(payload, "was pricked to death")
        || has_text(payload, "was burned to a crisp")
        || has_text(payload, "was struck by lightning")
        || has_text(payload, "was frozen to death")
        || has_text(payload, "was obliterated")
        || has_text(payload, "was roasted in dragon's breath")
        || has_text(payload, "was killed")
        || has_text(payload, "burned to death")
        || has_text(payload, "went up in flames")
        || has_text(payload, "went off with a bang")
        || has_text(payload, "drowned")
        || has_text(payload, "starved to death")
        || has_text(payload, "suffocated in a wall")
        || has_text(payload, "fell from a high place")
        || has_text(payload, "fell out of the world")
        || has_text(payload, "fell while climbing")
        || has_text(payload, "fell off")
        || has_text(payload, "hit the ground too hard")
        || has_text(payload, "experienced kinetic energy")
        || has_text(payload, "didn't want to live")
        || has_text(payload, "was doomed to fall")
        || has_text(payload, "tried to swim in lava")
        || has_text(payload, "discovered the floor was lava")
        || has_text(payload, "died because not just the floor is lava")
        || has_text(payload, "withered away")
        || has_text(payload, "killed by magic")
        || has_text(payload, "froze to death")
        || has_text(payload, "left the confines of this world")
        || has_text(payload, "was squished too much")
        || has_text(payload, "blew up")
        || has_text(payload, "walked into")
}

/// Whether a server message is one that is not forwarded.
pub fn is_ignorable_system_message(payload: &str) -> (r: bool)
    ensures
        r == is_ignorable(payload@),
{
    has_text(payload, "[Rcon:")
        || has_text(payload, "[AuthMe]")
        || has_text(payload, "UUID of player")
        || has_text(payload, "Logged in with entity id")
        || has_text(payload, "Saving chunks for level")
        || has_text(payload, "Rcon connection from")
        || has_text(payload, "[bootstrap]")
        || has_text(payload, "[PluginInitializerManager]")
        || has_text(payload, "Environment:")
        || has_text(payload, "Loaded ")
        || has_text(payload, "Starting json RPC")
        || has_text(payload, "Json-RPC Management")
        || has_text(payload, "Preparing level")
        || has_text(payload, "Done (")
        || has_text(payload, "was kicked due to")
}

/// Whether `s` is the command `name`, alone or followed by a space and arguments.
fn names_command(s: &str, name: &str) -> (r: bool)
    ensures
        r == is_command(s@, name@),
{
    let v = chars_of(s);
    let n = name.unicode_len();
    if !has_text_at(v.as_slice(), 0, name) {
        assert(name@.subrange(0, name@.len() as int) =~= name@);
        return false;
    }
    assert(s@.len() == n ==> s@ =~= s@.subrange(0, n as int));
    v.len() == n || v[n] == ' '
}

/// Whether a command is one that others are not meant to read.
pub fn is_private_command(command: &str) -> (r: bool)
    ensures
        r == is_private(command@),
{
    names_command(command, "/msg")
        || names_command(command, "/tell")
        || names_command(command, "/w")
        || names_command(command, "/whisper")
        || names_command(command, "/reply")
        || names_command(command, "/r")
        || names_command(command, "/teammsg")
        || names_command(command, "/tm")
        || names_command(command, "/me")
}

/// `s` begins with `p` in small or capital letters.
pub open spec fn begins_with(s: Seq<char>, p: Seq<char>) -> bool {
    &&& s.len() >= p.len()
    &&& forall|i: int| 0 <= i < p.len() ==> text::lower(#[trigger] s[i]) == text::lower(p[i])
}

/// `s` begins with `p` in small or capital letters, and ends there or goes on with a space.
pub open spec fn opens_with(s: Seq<char>, p: Seq<char>) -> bool {
    begins_with(s, p) && (s.len() == p.len() || s[p.len() as int] == ' ')
}

/// Whether `v` begins with `p` in small or capital letters.
fn begins(v: &[char], p: &str) -> (r: bool)
    ensures
        r == begins_with(v@, p@),
{
    let pat = chars_of(p);
    if v.len() < pat.len() {
        return false;
    }
    let mut i: usize = 0;
    while i < pat.len()
        invariant
            pat@ == p@,
            i <= pat@.len() <= v@.len(),
            forall|j: int| 0 <= j < i ==> text::lower(#[trigger] v@[j]) == text::lower(p@[j]),
        decreases pat@.len() - i,
    {
        if to_lower(v[i]) != to_lower(pat[i]) {
            assert(text::lower(v@[i as int]) != text::lower(p@[i as int]));
            return false;
        }
        i = i + 1;
    }
    true
}

/// Whether `s` begins with `p` in small or capital letters, and ends there or goes on with a space.
fn opens(s: &str, p: &str) -> (r: bool)
    ensures
        r == opens_with(s@, p@),
{
    let v = chars_of(s);
    let n = p.unicode_len();
    begins(v.as_slice(), p) && (v.len() == n || v[n] == ' ')
}

/// Whether a Discord message asks not to be relayed: it begins with `@silent` or `@s`, in small or
/// capital letters, and ends there or goes on with a space.
pub fn is_silent_message_prefix(text: &str) -> (r: bool)
    ensures
        r == (opens_with(text@, "@silent"@) || opens_with(text@, "@s"@)),
{
    opens(text, "@silent") || opens(text, "@s")
}

/// `@s`, in small or capital letters, stands in `s` at `i` between white space.
pub open spec fn silent_token_at(s: Seq<char>, i: int) -> bool {
    &&& 0 <= i && i + 2 <= s.len()
    &&& s[i] == '@' && (s[i + 1] == 's' || s[i + 1] == 'S')
    &&& i == 0 || text::is_space(s[i - 1])
    &&& i + 2 == s.len() || text::is_space(s[i + 2])
}

/// Whether one of the words of a Minecraft message is `@s`, in small or capital letters.
pub fn contains_silent_token(text: &str) -> (r: bool)
    ensures
        r == (exists|i: int| silent_token_at(text@, i)),
{
    let v = chars_of(text);
    let n = v.len();
    let mut i: usize = 0;
    while i < n
        invariant
            n == v@.len(),
            v@ == text@,
            i <= n,
            forall|j: int| 0 <= j < i ==> !silent_token_at(text@, j),
        decreases n - i,
    {
        if n - i >= 2 && v[i] == '@' && (v[i + 1] == 's' || v[i + 1] == 'S') && (i == 0
            || space_char(v[i - 1])) && (n - i == 2 || space_char(v[i + 2])) {
            assert(silent_token_at(text@, i as int));
            return true;
        }
        i = i + 1;
    }
    false
}

/// The code that a chat message confirms: what follows `@s confirm-`, which may be written in small
/// or capital letters, trimmed and in capital letters.
pub open spec fn confirmed_code(s: Seq<char>) -> Option<Seq<char>> {
    if begins_with(s, "@s confirm-"@) {
        Some(text::upper_text(text::trim(s.skip("@s confirm-"@.len() as int))))
    } else {
        None
    }
}

/// Reads the code that a chat message confirms.
pub fn confirmation(message: &str) -> (r: Option<String>)
    ensures
        match r {
            Some(code) => confirmed_code(message@) == Some(code@),
            None => confirmed_code(message@) is None,
        },
{
    let v = chars_of(message);
    let n = "@s confirm-".unicode_len();
    if begins(v.as_slice(), "@s confirm-") {
        Some(upper_string(trimmed(tail(v.as_slice(), n))))
    } else {
        None
    }
}

/// Whether the class `\d` of the regular expressions of the crate `regex` holds a character.
pub uninterp spec fn regex_digit(c: char) -> bool;

/// The crate `regex`: whether `\d`, which stands for the decimal digits of every script, matches
/// the text that `c` alone makes. Which characters these are is left to `regex_digit`.
#[verifier::external_body]
fn matches_digit_class(c: char) -> (r: bool)
    ensures
        r == regex_digit(c),
{
    let one = String::from(c);
    regex::Regex::new(r"^\d$").expect("a valid pattern").is_match(&one)
}

/// An ASCII digit or, beyond ASCII, a digit of another script.
pub open spec fn is_digit(c: char) -> bool {
    if c <= '\u{7f}' {
        '0' <= c <= '9'
    } else {
        regex_digit(c)
    }
}

/// Whether `c` is a decimal digit.
fn digit_char(c: char) -> (r: bool)
    ensures
        r == is_digit(c),
{
    if c <= '\u{7f}' {
        '0' <= c && c <= '9'
    } else {
        matches_digit_class(c)
    }
}

/// The first position from `i` on at which `c` stands in `s`, or the end of `s`.
pub open spec fn next_index(s: Seq<char>, i: int, c: char) -> int
    decreases s.len() - i,
{
    if i >= s.len() || s[i] == c {
        i
    } else {
        next_index(s, i + 1, c)
    }
}

/// Finds the first position from `i` on at which `c` stands.
fn index_from(s: &[char], i: usize, c: char) -> (r: usize)
    requires
        i <= s@.len(),
    ensures
        r == next_index(s@, i as int, c),
        i <= r <= s@.len(),
{
    let mut k: usize = i;
    while k < s.len() && s[k] != c
        invariant
            i <= k <= s@.len(),
            next_index(s@, i as int, c) == next_index(s@, k as int, c),
        decreases s@.len() - k,
    {
        k = k + 1;
    }
    k
}

/// `s` begins with a time of day in brackets: `[hh:mm:ss]`.
pub open spec fn opens_with_clock(s: Seq<char>) -> bool {
    &&& s.len() >= 10
    &&& s[0] == '['
    &&& is_digit(s[1]) && is_digit(s[2]) && s[3] == ':'
    &&& is_digit(s[4]) && is_digit(s[5]) && s[6] == ':'
    &&& is_digit(s[7]) && is_digit(s[8]) && s[9] == ']'
}

/// What follows the head `[hh:mm:ss] [thread/INFO]: ` of a line; the thread's name is not empty
/// and holds no closing bracket.
pub open spec fn info_body(line: Seq<char>) -> Option<Seq<char>> {
    let k = next_index(line, 12, ']');
    if opens_with_clock(line) && line.len() > 12 && text::is_space(line[10]) && line[11] == '['
        && k + 2 < line.len() && k >= 18 && text::text_at(line, k - 5, "/INFO"@) && line[k + 1]
        == ':' && text::is_space(line[k + 2]) {
        Some(line.skip(k + 3))
    } else {
        None
    }
}

/// The view of an optional stretch of characters.
pub open spec fn chars_view(s: Option<&[char]>) -> Option<Seq<char>> {
    match s {
        Some(s) => Some(s@),
        None => None,
    }
}

/// Reads past the head of a line.
fn past_head(line: &[char]) -> (r: Option<&[char]>)
    ensures
        chars_view(r) == info_body(line@),
{
    let n = line.len();
    if n <= 12 {
        return None;
    }
    let clock = line[0] == '[' && digit_char(line[1]) && digit_char(line[2]) && line[3] == ':'
        && digit_char(line[4]) && digit_char(line[5]) && line[6] == ':' && digit_char(line[7])
        && digit_char(line[8]) && line[9] == ']';
    if !clock || !space_char(line[10]) || line[11] != '[' {
        return None;
    }
    let k = index_from(line, 12, ']');
    if n - k <= 2 || k < 18 {
        return None;
    }
    proof {
        reveal_strlit("/INFO");
    }
    if !has_text_at(line, k - 5, "/INFO") || line[k + 1] != ':' || !space_char(line[k + 2]) {
        return None;
    }
    Some(tail(line, k + 3))
}

/// `s` is a text of at least one character and of one line.
pub open spec fn is_line(s: Seq<char>) -> bool {
    s.len() > 0 && !s.contains('\n')
}

/// Whether `s` is a text of at least one character and of one line.
fn one_line(s: &[char]) -> (r: bool)
    ensures
        r == is_line(s@),
{
    let k = first_line_feed(s);
    s.len() > 0 && k == s.len()
}

/// The position of the first line feed, or the length.
fn first_line_feed(s: &[char]) -> (r: usize)
    ensures
        r <= s@.len(),
        r == s@.len() <==> !s@.contains('\n'),
{
    let mut k: usize = 0;
    while k < s.len()
        invariant
            k <= s@.len(),
            forall|j: int| 0 <= j < k ==> s@[j] != '\n',
        decreases s@.len() - k,
    {
        if s[k] == '\n' {
            assert(s@.contains('\n'));
            return k;
        }
        k = k + 1;
    }
    k
}

/// `s` past `p` and one white space character.
pub open spec fn past_label(s: Seq<char>, p: Seq<char>) -> Option<Seq<char>> {
    if text::text_at(s, 0, p) && s.len() > p.len() && text::is_space(s[p.len() as int]) {
        Some(s.skip(p.len() as int + 1))
    } else {
        None
    }
}

/// Reads past `p` and one white space character.
fn after_label<'a>(s: &'a [char], p: &str) -> (r: Option<&'a [char]>)
    ensures
        chars_view(r) == past_label(s@, p@),
{
    let n = p.unicode_len();
    if has_text_at(s, 0, p) && s.len() > n && space_char(s[n]) {
        Some(tail(s, n + 1))
    } else {
        None
    }
}

/// `s` past the mark of unsigned chat, where it has one.
pub open spec fn past_mark(s: Seq<char>) -> Seq<char> {
    match past_label(s, "[Not Secure]"@) {
        Some(rest) => rest,
        None => s,
    }
}

/// Reads past the mark of unsigned chat.
fn after_mark(s: &[char]) -> (r: &[char])
    ensures
        r@ == past_mark(s@),
{
    match after_label(s, "[Not Secure]") {
        Some(rest) => rest,
        None => s,
    }
}

/// How many of the first characters of `s` may stand in a player name.
pub open spec fn name_run(s: Seq<char>, i: int) -> int
    decreases s.len() - i,
{
    if i >= s.len() || !text::is_name_char(s[i]) {
        i
    } else {
        name_run(s, i + 1)
    }
}

/// Counts the characters of a player name.
fn run_of_name(s: &[char]) -> (r: usize)
    ensures
        r == name_run(s@, 0),
        r <= s@.len(),
{
    let mut k: usize = 0;
    while k < s.len() && name_char(s[k])
        invariant
            k <= s@.len(),
            name_run(s@, 0) == name_run(s@, k as int),
        decreases s@.len() - k,
    {
        k = k + 1;
    }
    k
}

/// A player name of 3 to 16 characters, one white space character, and what follows.
pub open spec fn name_and_rest(s: Seq<char>) -> Option<(Seq<char>, Seq<char>)> {
    let n = name_run(s, 0);
    if 3 <= n <= 16 && n < s.len() && text::is_space(s[n]) {
        Some((s.take(n), s.skip(n + 1)))
    } else {
        None
    }
}

/// Reads a player name and one white space character.
fn split_name(s: &[char]) -> (r: Option<(&[char], &[char])>)
    ensures
        match r {
            Some((name, rest)) => name_and_rest(s@) == Some((name@, rest@)),
            None => name_and_rest(s@) is None,
        },
{
    let n = run_of_name(s);
    if 3 <= n && n <= 16 && n < s.len() && space_char(s[n]) {
        let name = slice_subrange(s, 0, n);
        assert(name@ =~= s@.take(n as int));
        Some((name, tail(s, n + 1)))
    } else {
        None
    }
}

/// The chat message that a line reports: `<name> text`, where no word of the text is `@s` unless it
/// confirms a code.
pub open spec fn chat_of(line: Seq<char>) -> Option<EventView> {
    match info_body(line) {
        Some(body) => {
            let t = past_mark(body);
            let inner = t.skip(1);
            let n = name_run(inner, 0);
            let message = inner.skip(n + 2);
            if t.len() > 0 && t[0] == '<' && 3 <= n <= 16 && n + 1 < inner.len() && inner[n] == '>'
                && text::is_space(inner[n + 1]) && is_line(message) && (!(exists|i: int|
                silent_token_at(message, i)) || confirmed_code(message) is Some) {
                Some(EventView::Chat { username: inner.take(n), message })
            } else {
                None
            }
        },
        None => None,
    }
}

/// Reads a chat message.
fn try_chat(line: &str) -> (r: Option<MinecraftEvent>)
    ensures
        event_view(r) == chat_of(line@),
{
    let v = chars_of(line);
    let body = match past_head(v.as_slice()) {
        Some(body) => body,
        None => return None,
    };
    let t = after_mark(body);
    if t.len() == 0 || t[0] != '<' {
        return None;
    }
    let inner = tail(t, 1);
    let n = run_of_name(inner);
    if n < 3 || n > 16 || inner.len() - n <= 1 || inner[n] != '>' || !space_char(inner[n + 1]) {
        return None;
    }
    let message = tail(inner, n + 2);
    if !one_line(message) {
        return None;
    }
    let message = string_of(message);
    if contains_silent_token(message.as_str()) && confirmation(message.as_str()).is_none() {
        return None;
    }
    let name = slice_subrange(inner, 0, n);
    assert(name@ =~= inner@.take(n as int));
    Some(MinecraftEvent::Chat { username: string_of(name), message })
}

/// The server's own broadcast that a line reports.
pub open spec fn server_say_of(line: Seq<char>) -> Option<EventView> {
    match info_body(line) {
        Some(body) => match past_label(past_mark(body), "[Server]"@) {
            Some(message) => if is_line(message) {
                Some(EventView::ServerSay { message })
            } else {
                None
            },
            None => None,
        },
        None => None,
    }
}

/// Reads a broadcast of the server.
fn try_server_say(line: &str) -> (r: Option<MinecraftEvent>)
    ensures
        event_view(r) == server_say_of(line@),
{
    let v = chars_of(line);
    let body = match past_head(v.as_slice()) {
        Some(body) => body,
        None => return None,
    };
    match after_label(after_mark(body), "[Server]") {
        Some(message) => if one_line(message) {
            Some(MinecraftEvent::ServerSay { message: string_of(message) })
        } else {
            None
        },
        None => None,
    }
}

/// The message of a line, past its head.
pub open spec fn payload_of(line: Seq<char>) -> Option<Seq<char>> {
    match info_body(line) {
        Some(body) => if is_line(body) {
            Some(body)
        } else {
            None
        },
        None => None,
    }
}

/// Reads the message of a line.
fn extract_system_payload(line: &str) -> (r: Option<String>)
    ensures
        match r {
            Some(p) => payload_of(line@) == Some(p@),
            None => payload_of(line@) is None,
        },
{
    let v = chars_of(line);
    match past_head(v.as_slice()) {
        Some(body) => if one_line(body) {
            Some(string_of(body))
        } else {
            None
        },
        None => None,
    }
}

/// The death that a message reports.
pub open spec fn death_of(p: Seq<char>) -> Option<EventView> {
    match name_and_rest(p) {
        Some((username, message)) => if is_death(p) && is_line(message) {
            Some(EventView::Death { username, message })
        } else {
            None
        },
        None => None,
    }
}

/// Reads a death message.
fn try_death(payload: &str) -> (r: Option<MinecraftEvent>)
    ensures
        event_view(r) == death_of(payload@),
{
    if !is_death_message(payload) {
        return None;
    }
    let v = chars_of(payload);
    match split_name(v.as_slice()) {
        Some((name, message)) => if one_line(message) {
            Some(
                MinecraftEvent::Death { username: string_of(name), message: string_of(message) },
            )
        } else {
            None
        },
        None => None,
    }
}

/// The player of whom a message says `what`.
pub open spec fn player_who(p: Seq<char>, what: Seq<char>) -> Option<Seq<char>> {
    match name_and_rest(p) {
        Some((username, rest)) => if rest == what {
            Some(username)
        } else {
            None
        },
        None => None,
    }
}

/// Reads of whom a message says `what`.
fn who(payload: &str, what: &str) -> (r: Option<String>)
    ensures
        match r {
            Some(name) => player_who(payload@, what@) == Some(name@),
            None => player_who(payload@, what@) is None,
        },
{
    let v = chars_of(payload);
    match split_name(v.as_slice()) {
        Some((name, rest)) => {
            let rest = string_of(rest);
            if same_text(rest.as_str(), what) {
                Some(string_of(name))
            } else {
                None
            }
        },
        None => None,
    }
}

/// The arrival that a message reports.
pub open spec fn join_of(p: Seq<char>) -> Option<EventView> {
    match player_who(p, "joined the game"@) {
        Some(username) => Some(EventView::Join { username }),
        None => None,
    }
}

/// Reads an arrival.
fn try_join(payload: &str) -> (r: Option<MinecraftEvent>)
    ensures
        event_view(r) == join_of(payload@),
{
    match who(payload, "joined the game") {
        Some(username) => Some(MinecraftEvent::Join { username }),
        None => None,
    }
}

/// The player whose leaving a message reports.
pub open spec fn leaver(p: Seq<char>) -> Option<Seq<char>> {
    player_who(p, "left the game"@)
}

/// Reads a player's leaving. It is passed over where the player's lost connection was reported
/// before, which is then forgotten.
fn try_leave(payload: &str, recent: &mut RecentDisconnects) -> (r: Option<MinecraftEvent>)
    requires
        old(recent).wf(),
    ensures
        final(recent).wf(),
        match leaver(payload@) {
            Some(username) => {
                &&& final(recent)@ == old(recent)@.remove(username)
                &&& event_view(r) == if old(recent)@.contains(username) {
                    None
                } else {
                    Some(EventView::Leave { username })
                }
            },
            None => r is None && final(recent)@ == old(recent)@,
        },
{
    match who(payload, "left the game") {
        Some(username) => {
            let ghost before = recent@;
            let was = recent.reasons.remove(username.as_str());
            assert(recent@ =~= before.remove(username@));
            match was {
                Some(_) => None,
                None => Some(MinecraftEvent::Leave { username }),
            }
        },
        None => None,
    }
}

/// The lost connection that a message reports: the player and the reason.
pub open spec fn lost_connection(p: Seq<char>) -> Option<(Seq<char>, Seq<char>)> {
    match name_and_rest(p) {
        Some((username, rest)) => match past_label(rest, "lost connection:"@) {
            Some(reason) => if is_line(reason) {
                Some((username, reason))
            } else {
                None
            },
            None => None,
        },
        None => None,
    }
}

/// Reads a lost connection and remembers whose it was.
fn try_disconnect(payload: &str, recent: &mut RecentDisconnects) -> (r: Option<MinecraftEvent>)
    requires
        old(recent).wf(),
    ensures
        final(recent).wf(),
        match lost_connection(payload@) {
            Some((username, reason)) => {
                &&& final(recent)@ == old(recent)@.insert(username)
                &&& event_view(r) == Some(EventView::Disconnect { username, reason })
            },
            None => r is None && final(recent)@ == old(recent)@,
        },
{
    let v = chars_of(payload);
    let (name, rest) = match split_name(v.as_slice()) {
        Some(parts) => parts,
        None => return None,
    };
    let reason = match after_label(rest, "lost connection:") {
        Some(reason) => reason,
        None => return None,
    };
    if !one_line(reason) {
        return None;
    }
    let username = string_of(name);
    let reason = string_of(reason);
    let ghost before = recent@;
    recent.reasons.insert(username.clone(), reason.clone());
    assert(recent@ =~= before.insert(username@));
    Some(MinecraftEvent::Disconnect { username, reason })
}

/// The command that a message reports, unless the console issued it or it is private.
pub open spec fn command_of(p: Seq<char>) -> Option<EventView> {
    match name_and_rest(p) {
        Some((username, rest)) => match past_label(rest, "issued server command:"@) {
            Some(command) => if command.len() >= 2 && command[0] == '/' && is_line(command)
                && username != "SERVER"@ && !is_private(command) {
                Some(EventView::Command { username, command })
            } else {
                None
            },
            None => None,
        },
        None => None,
    }
}

/// Reads a command.
fn try_command(payload: &str) -> (r: Option<MinecraftEvent>)
    ensures
        event_view(r) == command_of(payload@),
{
    let v = chars_of(payload);
    let (name, rest) = match split_name(v.as_slice()) {
        Some(parts) => parts,
        None => return None,
    };
    let command = match after_label(rest, "issued server command:") {
        Some(command) => command,
        None => return None,
    };
    if command.len() < 2 || command[0] != '/' || !one_line(command) {
        return None;
    }
    let username = string_of(name);
    if same_text(username.as_str(), "SERVER") {
        return None;
    }
    let command = string_of(command);
    if is_private_command(command.as_str()) {
        return None;
    }
    Some(MinecraftEvent::Command { username, command })
}

/// A text of one line in brackets.
pub open spec fn in_brackets(s: Seq<char>) -> bool {
    s.len() >= 3 && s[0] == '[' && s.last() == ']' && is_line(s.subrange(1, s.len() - 1))
}

/// The advancement or challenge that a message reports.
pub open spec fn advancement_of(p: Seq<char>) -> Option<EventView> {
    match name_and_rest(p) {
        Some((username, rest)) => {
            let earned = match past_label(rest, "has made the advancement"@) {
                Some(e) => Some(e),
                None => past_label(rest, "has completed the challenge"@),
            };
            match earned {
                Some(e) => if in_brackets(e) {
                    Some(
                        EventView::Advancement {
                            username,
                            advancement: e.subrange(1, e.len() - 1),
                        },
                    )
                } else {
                    None
                },
                None => None,
            }
        },
        None => None,
    }
}

/// Reads an advancement.
fn try_advancement(payload: &str) -> (r: Option<MinecraftEvent>)
    ensures
        event_view(r) == advancement_of(payload@),
{
    let v = chars_of(payload);
    let (name, rest) = match split_name(v.as_slice()) {
        Some(parts) => parts,
        None => return None,
    };
    let made = after_label(rest, "has made the advancement");
    let earned = match made {
        Some(e) => Some(e),
        None => after_label(rest, "has completed the challenge"),
    };
    match earned {
        Some(e) => {
            if e.len() < 3 || e[0] != '[' || e[e.len() - 1] != ']' {
                return None;
            }
            let inner = slice_subrange(e, 1, e.len() - 1);
            if !one_line(inner) {
                return None;
            }
            Some(
                MinecraftEvent::Advancement {
                    username: string_of(name),
                    advancement: string_of(inner),
                },
            )
        },
        None => None,
    }
}

/// The beginning of a server start.
pub open spec fn is_server_start(p: Seq<char>) -> bool {
    text::text_at(p, 0, "Starting minecraft server version"@)
}

/// Reads the start of the server.
fn try_server_start(payload: &str) -> (r: Option<MinecraftEvent>)
    ensures
        event_view(r) == if is_server_start(payload@) {
            Some(EventView::ServerStart)
        } else {
            None
        },
{
    let v = chars_of(payload);
    if has_text_at(v.as_slice(), 0, "Starting minecraft server version") {
        Some(MinecraftEvent::ServerStart)
    } else {
        None
    }
}

/// The messages of a server that stops.
pub open spec fn is_server_stop(p: Seq<char>) -> bool {
    p == "Stopping the server"@ || p == "Stopping server"@
}

/// Reads the stop of the server.
fn try_server_stop(payload: &str) -> (r: Option<MinecraftEvent>)
    ensures
        event_view(r) == if is_server_stop(payload@) {
            Some(EventView::ServerStop)
        } else {
            None
        },
{
    if same_text(payload, "Stopping the server") || same_text(payload, "Stopping server") {
        Some(MinecraftEvent::ServerStop)
    } else {
        None
    }
}

/// Reads the end of a save.
fn try_save_complete(payload: &str) -> (r: Option<MinecraftEvent>)
    ensures
        event_view(r) == if payload@ == "Saved the game"@ {
            Some(EventView::SaveComplete)
        } else {
            None
        },
{
    if same_text(payload, "Saved the game") {
        Some(MinecraftEvent::SaveComplete)
    } else {
        None
    }
}

/// `s` past `p`.
pub open spec fn past(s: Seq<char>, p: Seq<char>) -> Option<Seq<char>> {
    if text::text_at(s, 0, p) {
        Some(s.skip(p.len() as int))
    } else {
        None
    }
}

/// Reads past `p`.
fn after<'a>(s: &'a [char], p: &str) -> (r: Option<&'a [char]>)
    ensures
        chars_view(r) == past(s@, p@),
{
    let n = p.unicode_len();
    if has_text_at(s, 0, p) {
        Some(tail(s, n))
    } else {
        None
    }
}

/// The number of digits at the beginning of `s`, counted from position `i` on.
pub open spec fn digit_run(s: Seq<char>, i: int) -> int
    decreases s.len() - i,
{
    if i >= s.len() || !is_digit(s[i]) {
        i
    } else {
        digit_run(s, i + 1)
    }
}

/// Splits a number off a text: its digits, of which there is at least one, and what follows.
pub open spec fn number_and_rest(s: Seq<char>) -> Option<(Seq<char>, Seq<char>)> {
    let n = digit_run(s, 0);
    if n > 0 {
        Some((s.take(n), s.skip(n)))
    } else {
        None
    }
}

/// Reads the digits of a number.
fn split_number(s: &[char]) -> (r: Option<(&[char], &[char])>)
    ensures
        match r {
            Some((digits, rest)) => number_and_rest(s@) == Some((digits@, rest@)),
            None => number_and_rest(s@) is None,
        },
{
    let mut k: usize = 0;
    while k < s.len() && digit_char(s[k])
        invariant
            k <= s@.len(),
            digit_run(s@, 0) == digit_run(s@, k as int),
        decreases s@.len() - k,
    {
        k = k + 1;
    }
    if k == 0 {
        return None;
    }
    let digits = slice_subrange(s, 0, k);
    assert(digits@ =~= s@.take(k as int));
    Some((digits, tail(s, k)))
}

/// The players that a message lists: `There are m of a max of n players online: a, b`, where the
/// colon and the names may be missing.
pub open spec fn player_list_of(p: Seq<char>) -> Option<EventView> {
    match past(p, "There are "@) {
        Some(a) => match number_and_rest(a) {
            Some((m, b)) => match past(b, " of a max of "@) {
                Some(c) => match number_and_rest(c) {
                    Some((n, d)) => match past(d, " players online"@) {
                        Some(e) => {
                            let f = if e.len() > 0 && e[0] == ':' {
                                e.skip(1)
                            } else {
                                e
                            };
                            let names = text::trim_start(f);
                            if !names.contains('\n') && text::number(m, u32::MAX as nat) is Some
                                && text::number(n, u32::MAX as nat) is Some {
                                Some(
                                    EventView::PlayerList {
                                        current: text::number(m, u32::MAX as nat)->0 as u32,
                                        max: text::number(n, u32::MAX as nat)->0 as u32,
                                        players: text::comma_list(names),
                                    },
                                )
                            } else {
                                None
                            }
                        },
                        None => None,
                    },
                    None => None,
                },
                None => None,
            },
            None => None,
        },
        None => None,
    }
}

/// Reads a list of players.
fn try_player_list(payload: &str) -> (r: Option<MinecraftEvent>)
    ensures
        event_view(r) == player_list_of(payload@),
{
    let v = chars_of(payload);
    let a = match after(v.as_slice(), "There are ") {
        Some(a) => a,
        None => return None,
    };
    let (m, b) = match split_number(a) {
        Some(parts) => parts,
        None => return None,
    };
    let c = match after(b, " of a max of ") {
        Some(c) => c,
        None => return None,
    };
    let (n, d) = match split_number(c) {
        Some(parts) => parts,
        None => return None,
    };
    let e = match after(d, " players online") {
        Some(e) => e,
        None => return None,
    };
    let f = if e.len() > 0 && e[0] == ':' {
        tail(e, 1)
    } else {
        e
    };
    let names = trimmed_start(f);
    if first_line_feed(names) < names.len() {
        return None;
    }
    match (parse_number(m, 0xffff_ffff), parse_number(n, 0xffff_ffff)) {
        (Some(current), Some(max)) => Some(
            MinecraftEvent::PlayerList {
                current: current as u32,
                max: max as u32,
                players: comma_items(names),
            },
        ),
        _ => None,
    }
}

/// The event that the message of a line reports, when the players in `recent` have lost their
/// connection before. The first reading that applies counts.
pub open spec fn system_event(p: Seq<char>, recent: Set<Seq<char>>) -> Option<EventView> {
    if is_ignorable(p) {
        None
    } else if death_of(p) is Some {
        death_of(p)
    } else if join_of(p) is Some {
        join_of(p)
    } else if leaver(p) is Some && !recent.contains(leaver(p)->0) {
        Some(EventView::Leave { username: leaver(p)->0 })
    } else if lost_connection(p) is Some {
        Some(
            EventView::Disconnect {
                username: (lost_connection(p)->0).0,
                reason: (lost_connection(p)->0).1,
            },
        )
    } else if command_of(p) is Some {
        command_of(p)
    } else if advancement_of(p) is Some {
        advancement_of(p)
    } else if player_list_of(p) is Some {
        player_list_of(p)
    } else if is_server_start(p) {
        Some(EventView::ServerStart)
    } else if is_server_stop(p) {
        Some(EventView::ServerStop)
    } else if p == "Saved the game"@ {
        Some(EventView::SaveComplete)
    } else {
        None
    }
}

/// The event that a line reports, when the players in `recent` have lost their connection before.
pub open spec fn event_of(line: Seq<char>, recent: Set<Seq<char>>) -> Option<EventView> {
    if chat_of(line) is Some {
        chat_of(line)
    } else if server_say_of(line) is Some {
        server_say_of(line)
    } else {
        match payload_of(line) {
            Some(p) => system_event(p, recent),
            None => None,
        }
    }
}

/// The line is a message of the server that is not a chat message, a broadcast, an ignored
/// message, a death or an arrival.
pub open spec fn may_tell_of_leaving(line: Seq<char>) -> bool {
    &&& chat_of(line) is None
    &&& server_say_of(line) is None
    &&& payload_of(line) is Some
    &&& !is_ignorable(payload_of(line)->0)
    &&& death_of(payload_of(line)->0) is None
    &&& join_of(payload_of(line)->0) is None
}

/// Who has lost the connection and not been reported as leaving, once the line has been read.
pub open spec fn recent_after(line: Seq<char>, recent: Set<Seq<char>>) -> Set<Seq<char>> {
    if !may_tell_of_leaving(line) {
        recent
    } else {
        let p = payload_of(line)->0;
        let left = match leaver(p) {
            Some(username) => recent.remove(username),
            None => recent,
        };
        if leaver(p) is Some && !recent.contains(leaver(p)->0) {
            left
        } else {
            match lost_connection(p) {
                Some((username, _)) => left.insert(username),
                None => left,
            }
        }
    }
}

/// Reads a line of the server's log. `recent` carries over from line to line whose connection was
/// lost, so that the message that the player left, which follows, is not reported a second time.
pub fn parse_log_line(line: &str, recent: &mut RecentDisconnects) -> (r: Option<MinecraftEvent>)
    requires
        old(recent).wf(),
    ensures
        final(recent).wf(),
        event_view(r) == event_of(line@, old(recent)@),
        final(recent)@ == recent_after(line@, old(recent)@),
{
    if let Some(event) = try_chat(line) {
        return Some(event);
    }
    if let Some(event) = try_server_say(line) {
        return Some(event);
    }
    let payload = match extract_system_payload(line) {
        Some(payload) => payload,
        None => return None,
    };
    let payload = payload.as_str();
    if is_ignorable_system_message(payload) {
        return None;
    }
    if let Some(event) = try_death(payload) {
        return Some(event);
    }
    if let Some(event) = try_join(payload) {
        return Some(event);
    }
    if let Some(event) = try_leave(payload, recent) {
        return Some(event);
    }
    if let Some(event) = try_disconnect(payload, recent) {
        return Some(event);
    }
    if let Some(event) = try_command(payload) {
        return Some(event);
    }
    if let Some(event) = try_advancement(payload) {
        return Some(event);
    }
    if let Some(event) = try_player_list(payload) {
        return Some(event);
    }
    if let Some(event) = try_server_start(payload) {
        return Some(event);
    }
    if let Some(event) = try_server_stop(payload) {
        return Some(event);
    }
    try_save_complete(payload)
}

/// A name that a player can have: 3 to 16 ASCII letters, digits and underscores.
pub open spec fn is_player_name(s: Seq<char>) -> bool {
    3 <= s.len() <= 16 && forall|i: int| 0 <= i < s.len() ==> text::is_name_char(#[trigger] s[i])
}

/// The message that tells the UUID of a player.
pub open spec fn uuid_report(username: Seq<char>, uuid: Seq<char>) -> Seq<char> {
    "UUID of player "@ + username + " is "@ + uuid
}

/// A report of a UUID begins with its fixed words, which the player's name follows.
proof fn lemma_uuid_report(username: Seq<char>, uuid: Seq<char>)
    requires
        is_player_name(username),
    ensures
        ({
            let rest = past(uuid_report(username, uuid), "UUID of player "@);
            let n = name_run(rest->0, 0);
            &&& rest is Some
            &&& n == username.len()
            &&& rest->0.take(n) == username
            &&& past(rest->0.skip(n), " is "@) == Some(uuid)
        }),
{
    reveal_strlit("UUID of player ");
    reveal_strlit(" is ");
    let words = "UUID of player "@;
    let report = uuid_report(username, uuid);
    let rest = username + " is "@ + uuid;
    let n = username.len() as int;
    assert(report.subrange(0, words.len() as int) =~= words);
    assert(report.skip(words.len() as int) =~= rest);
    assert forall|j: int| 0 <= j < n implies text::is_name_char(#[trigger] rest[j]) by {
        assert(rest[j] == username[j]);
    }
    assert(rest[n] == ' ');
    lemma_name_run_is(rest, n);
    assert(rest.take(n) =~= username);
    assert(rest.skip(n).subrange(0, 4) =~= " is "@);
    assert(rest.skip(n).skip(4) =~= uuid);
}

/// A report of a UUID tells one player and one UUID.
pub proof fn law_uuid_reports_are_unambiguous(
    username: Seq<char>,
    uuid: Seq<char>,
    other_name: Seq<char>,
    other_uuid: Seq<char>,
)
    requires
        is_player_name(username),
        is_player_name(other_name),
        uuid_report(username, uuid) == uuid_report(other_name, other_uuid),
    ensures
        username == other_name,
        uuid == other_uuid,
{
    lemma_uuid_report(username, uuid);
    lemma_uuid_report(other_name, other_uuid);
}

/// Reads the UUID of a player from a line of the server's log that reports it.
pub fn uuid_of_line(line: &str) -> (r: Option<StatsEvent>)
    ensures
        match r {
            Some(e) => e@ matches StatsEventView::UuidResolved { username, uuid } && is_player_name(
                username,
            ) && uuid.len() > 0 && info_body(line@) == Some(uuid_report(username, uuid)),
            None => forall|name: Seq<char>, id: Seq<char>|
                is_player_name(name) && id.len() > 0 ==> info_body(line@) != Some(
                    #[trigger] uuid_report(name, id),
                ),
        },
{
    proof {
        assert forall|username: Seq<char>, uuid: Seq<char>|
            is_player_name(username) && info_body(line@) == Some(
                #[trigger] uuid_report(username, uuid),
            ) implies ({
            let rest = past(info_body(line@)->0, "UUID of player "@);
            let n = name_run(rest->0, 0);
            rest is Some && n == username.len() && past(rest->0.skip(n), " is "@) == Some(uuid)
        }) by {
            lemma_uuid_report(username, uuid);
        }
    }
    let v = chars_of(line);
    let body = match past_head(v.as_slice()) {
        Some(body) => body,
        None => return None,
    };
    let rest = match after(body, "UUID of player ") {
        Some(rest) => rest,
        None => return None,
    };
    let n = run_of_name(rest);
    let uuid = match after(tail(rest, n), " is ") {
        Some(uuid) => uuid,
        None => return None,
    };
    if n < 3 || n > 16 || uuid.len() == 0 {
        return None;
    }
    let name = slice_subrange(rest, 0, n);
    proof {
        lemma_name_run(rest@, 0);
        let words = "UUID of player "@;
        let is = " is "@;
        assert(body@ =~= words + rest@) by {
            assert(body@.subrange(0, words.len() as int) =~= words);
        }
        assert(rest@.skip(n as int) =~= is + uuid@) by {
            assert(rest@.skip(n as int).subrange(0, is.len() as int) =~= is);
        }
        assert(rest@ =~= name@ + rest@.skip(n as int));
        assert(body@ =~= uuid_report(name@, uuid@));
        assert(is_player_name(name@));
    }
    Some(StatsEvent::UuidResolved { username: string_of(name), uuid: string_of(uuid) })
}

/// The player of whom an event tells.
pub open spec fn player_of(e: EventView) -> Option<Seq<char>> {
    match e {
        EventView::Chat { username, .. } => Some(username),
        EventView::Join { username } => Some(username),
        EventView::Leave { username } => Some(username),
        EventView::Disconnect { username, .. } => Some(username),
        EventView::Death { username, .. } => Some(username),
        EventView::Advancement { username, .. } => Some(username),
        EventView::Command { username, .. } => Some(username),
        EventView::UuidResolved { username, .. } => Some(username),
        _ => None,
    }
}

/// A run of name characters holds name characters only.
pub proof fn lemma_name_run(s: Seq<char>, i: int)
    requires
        0 <= i <= s.len(),
    ensures
        i <= name_run(s, i) <= s.len(),
        forall|j: int| i <= j < name_run(s, i) ==> text::is_name_char(#[trigger] s[j]),
    decreases s.len() - i,
{
    if i < s.len() && text::is_name_char(s[i]) {
        lemma_name_run(s, i + 1);
    }
}

/// Every player of whom the log is said to tell has a name that a player can have.
pub proof fn law_players_have_player_names(line: Seq<char>, recent: Set<Seq<char>>)
    ensures
        event_of(line, recent) is Some && player_of(event_of(line, recent)->0) is Some
            ==> is_player_name(player_of(event_of(line, recent)->0)->0),
{
    if let Some(body) = info_body(line) {
        let inner = past_mark(body).skip(1);
        lemma_name_run(inner, 0);
    }
    if let Some(p) = payload_of(line) {
        lemma_name_run(p, 0);
    }
}

/// No event carries a private command, a command of the console, or a chat message with the word
/// `@s`, but for one that confirms a code.
pub proof fn law_private_text_is_not_reported(line: Seq<char>, recent: Set<Seq<char>>)
    ensures
        event_of(line, recent) matches Some(EventView::Chat { message, .. }) ==> !(exists|i: int|
            silent_token_at(message, i)) || confirmed_code(message) is Some,
        event_of(line, recent) matches Some(EventView::Command { username, command })
            ==> username != "SERVER"@ && !is_private(command),
{
}

/// A player who left is not one who lost the connection: no message says both.
proof fn lemma_left_is_not_lost(p: Seq<char>)
    ensures
        leaver(p) is Some ==> lost_connection(p) is None,
{
    reveal_strlit("left the game");
    reveal_strlit("lost connection:");
    if leaver(p) is Some {
        let rest = (name_and_rest(p)->0).1;
        if text::text_at(rest, 0, "lost connection:"@) {
            assert(rest.subrange(0, 16)[1] == 'o');
        }
    }
}

/// What was read of the lines so far, as to who has lost the connection.
pub open spec fn recent_after_all(lines: Seq<Seq<char>>, recent: Set<Seq<char>>) -> Set<Seq<char>>
    decreases lines.len(),
{
    if lines.len() == 0 {
        recent
    } else {
        recent_after(lines.last(), recent_after_all(lines.drop_last(), recent))
    }
}

/// The line tells, by itself, that `username` left or lost the connection.
pub open spec fn tells_of_parting(line: Seq<char>, username: Seq<char>) -> bool {
    let e = event_of(line, Set::empty());
    ||| e == Some(EventView::Leave { username })
    ||| e matches Some(EventView::Disconnect { username: u, .. }) && u == username
}

/// A line that does not tell of a player's parting changes nothing for that player.
pub proof fn law_other_lines_keep_recent(
    line: Seq<char>,
    recent: Set<Seq<char>>,
    username: Seq<char>,
)
    requires
        !tells_of_parting(line, username),
    ensures
        recent_after(line, recent).contains(username) == recent.contains(username),
{
    if may_tell_of_leaving(line) {
        let p = payload_of(line)->0;
        lemma_left_is_not_lost(p);
        assert(!Set::<Seq<char>>::empty().contains(username));
    }
}

/// The message that a player left is reported unless the player's lost connection was, and then
/// once not: after the lost connection, and whatever lines about others come between, the first
/// leaving of that player is passed over and a further one is reported.
pub proof fn law_leave_after_disconnect_is_passed_over_once(
    lost: Seq<char>,
    between: Seq<Seq<char>>,
    left: Seq<char>,
    recent: Set<Seq<char>>,
    username: Seq<char>,
    reason: Seq<char>,
)
    requires
        event_of(lost, recent) == Some(EventView::Disconnect { username, reason }),
        forall|i: int|
            0 <= i < between.len() ==> !tells_of_parting(#[trigger] between[i], username),
        event_of(left, Set::empty()) == Some(EventView::Leave { username }),
    ensures
        ({
            let before = recent_after_all(between, recent_after(lost, recent));
            let after = recent_after(left, before);
            &&& event_of(left, before) is None
            &&& !after.contains(username)
            &&& event_of(left, after) == Some(EventView::Leave { username })
        }),
{
    let start = recent_after(lost, recent);
    assert(start.contains(username));
    lemma_between_keeps(between, start, username);
    let before = recent_after_all(between, start);
    let p = payload_of(left)->0;
    assert(!Set::<Seq<char>>::empty().contains(username));
    lemma_left_is_not_lost(p);
    lemma_leave_is_nothing_else(p);
}

/// Lines that do not tell of a player's parting change nothing for that player.
proof fn lemma_between_keeps(lines: Seq<Seq<char>>, recent: Set<Seq<char>>, username: Seq<char>)
    requires
        forall|i: int| 0 <= i < lines.len() ==> !tells_of_parting(#[trigger] lines[i], username),
    ensures
        recent_after_all(lines, recent).contains(username) == recent.contains(username),
    decreases lines.len(),
{
    if lines.len() > 0 {
        assert forall|i: int| 0 <= i < lines.drop_last().len() implies !tells_of_parting(
            #[trigger] lines.drop_last()[i],
            username,
        ) by {
            assert(lines.drop_last()[i] == lines[i]);
        }
        lemma_between_keeps(lines.drop_last(), recent, username);
        assert(lines.last() == lines[lines.len() - 1]);
        law_other_lines_keep_recent(
            lines.last(),
            recent_after_all(lines.drop_last(), recent),
            username,
        );
    }
}

/// The message that a player left reads as nothing else.
pub proof fn lemma_leave_is_nothing_else(p: Seq<char>)
    requires
        leaver(p) is Some,
    ensures
        command_of(p) is None,
        advancement_of(p) is None,
        player_list_of(p) is None,
        !is_server_start(p),
        !is_server_stop(p),
        p != "Saved the game"@,
{
    let n = name_run(p, 0);
    lemma_name_run(p, 0);
    let rest = p.skip(n + 1);
    reveal_strlit("left the game");
    reveal_strlit("issued server command:");
    reveal_strlit("has made the advancement");
    reveal_strlit("has completed the challenge");
    reveal_strlit("There are ");
    reveal_strlit("Starting minecraft server version");
    reveal_strlit("Stopping the server");
    reveal_strlit("Stopping server");
    reveal_strlit("Saved the game");
    if text::text_at(rest, 0, "issued server command:"@) {
        assert(rest.subrange(0, 22)[0] == 'i');
    }
    if text::text_at(rest, 0, "has made the advancement"@) {
        assert(rest.subrange(0, 24)[0] == 'h');
    }
    if text::text_at(rest, 0, "has completed the challenge"@) {
        assert(rest.subrange(0, 27)[0] == 'h');
    }
    assert(rest.len() == 13 && p.len() == n + 14);
    assert(rest == "left the game"@);
    assert("left the game"@[0] == 'l');
    assert(p.skip(n + 1)[0] == p[n + 1 + 0]);
    assert(p[n + 1] == 'l');
    assert(text::is_space(p[n]));
    if text::text_at(p, 0, "There are "@) {
        let q = p.subrange(0, 10);
        assert(q[0] == p[0] && q[1] == p[1] && q[2] == p[2] && q[3] == p[3] && q[4] == p[4] && q[5]
            == p[5] && q[6] == p[6]);
        lemma_name_run_is(p, 5);
    }
    if text::text_at(p, 0, "Starting minecraft server version"@) {
        let q = p.subrange(0, 33);
        assert(q[0] == p[0] && q[1] == p[1] && q[2] == p[2] && q[3] == p[3] && q[4] == p[4] && q[5]
            == p[5] && q[6] == p[6] && q[7] == p[7] && q[8] == p[8] && q[9] == p[9]);
        lemma_name_run_is(p, 8);
    }
    if is_server_stop(p) {
        lemma_name_run_is(p, 8);
    }
    if p == "Saved the game"@ {
        lemma_name_run_is(p, 5);
    }
}

/// A run of name characters ends at the first other character.
pub proof fn lemma_name_run_is(s: Seq<char>, n: int)
    requires
        0 <= n < s.len(),
        forall|j: int| 0 <= j < n ==> text::is_name_char(#[trigger] s[j]),
        !text::is_name_char(s[n]),
    ensures
        name_run(s, 0) == n,
{
    lemma_name_run(s, 0);
    let r = name_run(s, 0);
    if r < n {
        lemma_name_run_stops(s, 0);
    }
}

/// A run of name characters that ends before the end does so at another character.
proof fn lemma_name_run_stops(s: Seq<char>, i: int)
    requires
        0 <= i <= s.len(),
    ensures
        name_run(s, i) < s.len() ==> !text::is_name_char(s[name_run(s, i)]),
    decreases s.len() - i,
{
    if i < s.len() && text::is_name_char(s[i]) {
        lemma_name_run_stops(s, i + 1);
    }
}

/// A text of name characters is one run.
pub proof fn lemma_name_run_of_name(s: Seq<char>, i: int)
    requires
        0 <= i <= s.len(),
        forall|j: int| 0 <= j < s.len() ==> text::is_name_char(#[trigger] s[j]),
    ensures
        name_run(s, i) == s.len(),
    decreases s.len() - i,
{
    if i < s.len() {
        lemma_name_run_of_name(s, i + 1);
    }
}

} // verus!
