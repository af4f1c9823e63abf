//! What the lines of the log say, stated of every line.

use crate::log_parser;
use crate::log_parser::{EventView, MinecraftEvent, RecentDisconnects, StatsEvent};
use crate::text;
use vstd::prelude::*;
use vstd::string::*;

verus! {

/// The words by which the game tells of a death.
pub const DEATH_TEXTS: [&'static str; 44] = [
    "was slain by",
    "was shot by",
    "was blown up by",
    "was smashed by",
    "was impaled on",
    "was impaled by",
    "was pummeled by",
    "was skewered by",
    "was squashed by",
    "was fireballed by",
    "was speared by",
    "was stung to death",
    "was poked to death",
    "was pricked to death",
    "was burned to a crisp",
    "was struck by lightning",
    "was frozen to death",
    "was obliterated",
    "was roasted in dragon's breath",
    "was killed",
    "burned to death",
    "went up in flames",
    "went off with a bang",
    "drowned",
    "starved to death",
    "suffocated in a wall",
    "fell from a high place",
    "fell out of the world",
    "fell while climbing",
    "fell off",
    "hit the ground too hard",
    "experienced kinetic energy",
    "didn't want to live",
    "was doomed to fall",
    "tried to swim in lava",
    "discovered the floor was lava",
    "died because not just the floor is lava",
    "withered away",
    "killed by magic",
    "froze to death",
    "left the confines of this world",
    "was squished too much",
    "blew up",
    "walked into",
];

/// The words that mark the messages of the server that are passed over.
pub const IGNORED_MARKS: [&'static str; 15] = [
    "[Rcon:",
    "[AuthMe]",
    "UUID of player",
    "Logged in with entity id",
    "Saving chunks for level",
    "Rcon connection from",
    "[bootstrap]",
    "[PluginInitializerManager]",
    "Environment:",
    "Loaded ",
    "Starting json RPC",
    "Json-RPC Management",
    "Preparing level",
    "Done (",
    "was kicked due to",
];

/// The commands that others are not meant to read.
pub const PRIVATE_COMMANDS: [&'static str; 9] = [
    "/msg",
    "/tell",
    "/w",
    "/whisper",
    "/reply",
    "/r",
    "/teammsg",
    "/tm",
    "/me",
];

/// A message tells of a death exactly where it holds one of the words for it.
pub proof fn law_deaths_are_told_by_their_words(p: Seq<char>)
    ensures
        log_parser::is_death(p) <==> exists|k: int|
            0 <= k < 44 && text::contains_text(p, #[trigger] DEATH_TEXTS@[k]@),
{
    if log_parser::is_death(p) {
        assert(DEATH_TEXTS@[0]@ == "was slain by"@);
        assert(DEATH_TEXTS@[1]@ == "was shot by"@);
        assert(DEATH_TEXTS@[2]@ == "was blown up by"@);
        assert(DEATH_TEXTS@[3]@ == "was smashed by"@);
        assert(DEATH_TEXTS@[4]@ == "was impaled on"@);
        assert(DEATH_TEXTS@[5]@ == "was impaled by"@);
        assert(DEATH_TEXTS@[6]@ == "was pummeled by"@);
        assert(DEATH_TEXTS@[7]@ == "was skewered by"@);
        assert(DEATH_TEXTS@[8]@ == "was squashed by"@);
        assert(DEATH_TEXTS@[9]@ == "was fireballed by"@);
        assert(DEATH_TEXTS@[10]@ == "was speared by"@);
        assert(DEATH_TEXTS@[11]@ == "was stung to death"@);
        assert(DEATH_TEXTS@[12]@ == "was poked to death"@);
        assert(DEATH_TEXTS@[13]@ == "was pricked to death"@);
        assert(DEATH_TEXTS@[14]@ == "was burned to a crisp"@);
        assert(DEATH_TEXTS@[15]@ == "was struck by lightning"@);
        assert(DEATH_TEXTS@[16]@ == "was frozen to death"@);
        assert(DEATH_TEXTS@[17]@ == "was obliterated"@);
        assert(DEATH_TEXTS@[18]@ == "was roasted in dragon's breath"@);
        assert(DEATH_TEXTS@[19]@ == "was killed"@);
        assert(DEATH_TEXTS@[20]@ == "burned to death"@);
        assert(DEATH_TEXTS@[21]@ == "went up in flames"@);
        assert(DEATH_TEXTS@[22]@ == "went off with a bang"@);
        assert(DEATH_TEXTS@[23]@ == "drowned"@);
        assert(DEATH_TEXTS@[24]@ == "starved to death"@);
        assert(DEATH_TEXTS@[25]@ == "suffocated in a wall"@);
        assert(DEATH_TEXTS@[26]@ == "fell from a high place"@);
        assert(DEATH_TEXTS@[27]@ == "fell out of the world"@);
        assert(DEATH_TEXTS@[28]@ == "fell while climbing"@);
        assert(DEATH_TEXTS@[29]@ == "fell off"@);
        assert(DEATH_TEXTS@[30]@ == "hit the ground too hard"@);
        assert(DEATH_TEXTS@[31]@ == "experienced kinetic energy"@);
        assert(DEATH_TEXTS@[32]@ == "didn't want to live"@);
        assert(DEATH_TEXTS@[33]@ == "was doomed to fall"@);
        assert(DEATH_TEXTS@[34]@ == "tried to swim in lava"@);
        assert(DEATH_TEXTS@[35]@ == "discovered the floor was lava"@);
        assert(DEATH_TEXTS@[36]@ == "died because not just the floor is lava"@);
        assert(DEATH_TEXTS@[37]@ == "withered away"@);
        assert(DEATH_TEXTS@[38]@ == "killed by magic"@);
        assert(DEATH_TEXTS@[39]@ == "froze to death"@);
        assert(DEATH_TEXTS@[40]@ == "left the confines of this world"@);
        assert(DEATH_TEXTS@[41]@ == "was squished too much"@);
        assert(DEATH_TEXTS@[42]@ == "blew up"@);
        assert(DEATH_TEXTS@[43]@ == "walked into"@);
    }
}

/// A message is passed over exactly where it holds one of the marks for it.
pub proof fn law_ignored_messages_have_a_mark(p: Seq<char>)
    ensures
        log_parser::is_ignorable(p) <==> exists|k: int|
            0 <= k < 15 && text::contains_text(p, #[trigger] IGNORED_MARKS@[k]@),
{
    if log_parser::is_ignorable(p) {
        assert(IGNORED_MARKS@[0]@ == "[Rcon:"@);
        assert(IGNORED_MARKS@[1]@ == "[AuthMe]"@);
        assert(IGNORED_MARKS@[2]@ == "UUID of player"@);
        assert(IGNORED_MARKS@[3]@ == "Logged in with entity id"@);
        assert(IGNORED_MARKS@[4]@ == "Saving chunks for level"@);
        assert(IGNORED_MARKS@[5]@ == "Rcon connection from"@);
        assert(IGNORED_MARKS@[6]@ == "[bootstrap]"@);
        assert(IGNORED_MARKS@[7]@ == "[PluginInitializerManager]"@);
        assert(IGNORED_MARKS@[8]@ == "Environment:"@);
        assert(IGNORED_MARKS@[9]@ == "Loaded "@);
        assert(IGNORED_MARKS@[10]@ == "Starting json RPC"@);
        assert(IGNORED_MARKS@[11]@ == "Json-RPC Management"@);
        assert(IGNORED_MARKS@[12]@ == "Preparing level"@);
        assert(IGNORED_MARKS@[13]@ == "Done ("@);
        assert(IGNORED_MARKS@[14]@ == "was kicked due to"@);
    }
}

/// A command is private exactly where it is one of the private commands, alone or with a space and
/// more behind it.
pub proof fn law_private_commands_are_these(command: Seq<char>)
    ensures
        log_parser::is_private(command) <==> exists|k: int|
            #![trigger PRIVATE_COMMANDS@[k]]
            0 <= k < 9 && (command == PRIVATE_COMMANDS@[k]@ || (PRIVATE_COMMANDS@[k]@.push(
                ' ',
            )).is_prefix_of(command)),
{
    assert forall|name: Seq<char>|
        #[trigger] log_parser::is_command(command, name) <==> (command == name || name.push(
            ' ',
        ).is_prefix_of(command)) by {
        if text::text_at(command, 0, name) && command.len() > name.len() && command[name.len() as int]
            == ' ' {
            assert forall|j: int| 0 <= j < name.len() implies command[j] == name[j] by {
                assert(command.subrange(0, name.len() as int)[j] == name[j]);
            }
            assert(name.push(' ').is_prefix_of(command));
        }
        if name.push(' ').is_prefix_of(command) {
            assert(command[name.len() as int] == name.push(' ')[name.len() as int]);
            assert forall|j: int| 0 <= j < name.len() implies command[j] == name[j] by {
                assert(command[j] == name.push(' ')[j]);
            }
            assert(command.subrange(0, name.len() as int) =~= name);
        }
    }
    if log_parser::is_private(command) {
        assert(PRIVATE_COMMANDS@[0]@ == "/msg"@);
        assert(PRIVATE_COMMANDS@[1]@ == "/tell"@);
        assert(PRIVATE_COMMANDS@[2]@ == "/w"@);
        assert(PRIVATE_COMMANDS@[3]@ == "/whisper"@);
        assert(PRIVATE_COMMANDS@[4]@ == "/reply"@);
        assert(PRIVATE_COMMANDS@[5]@ == "/r"@);
        assert(PRIVATE_COMMANDS@[6]@ == "/teammsg"@);
        assert(PRIVATE_COMMANDS@[7]@ == "/tm"@);
        assert(PRIVATE_COMMANDS@[8]@ == "/me"@);
    }
}

/// The head of a line: the time of day, the thread and the level.
pub open spec fn head(clock: Seq<char>, thread: Seq<char>) -> Seq<char> {
    "["@ + clock + "] ["@ + thread + "/INFO]: "@
}

/// A time of day: two digits, a colon, two digits, a colon and two digits.
pub open spec fn is_clock(s: Seq<char>) -> bool {
    &&& s.len() == 8
    &&& s[2] == ':' && s[5] == ':'
    &&& forall|i: int| 0 <= i < 8 && i != 2 && i != 5 ==> '0' <= #[trigger] s[i] <= '9'
}

/// A line that begins with the time of day, a thread and the level `INFO` has the message that
/// follows, whatever it is.
pub proof fn law_messages_follow_the_head(
    clock: Seq<char>,
    thread: Seq<char>,
    message: Seq<char>,
)
    requires
        is_clock(clock),
        thread.len() > 0,
        !thread.contains(']'),
    ensures
        log_parser::info_body(head(clock, thread) + message) == Some(message),
{
    reveal_strlit("[");
    reveal_strlit("] [");
    reveal_strlit("/INFO]: ");
    reveal_strlit("/INFO");
    let line = head(clock, thread) + message;
    let n = thread.len() as int;
    let k = 12 + n + 5;
    assert(line[0] == '[');
    assert forall|i: int| 0 <= i < 8 implies line[i + 1] == #[trigger] clock[i] by {}
    assert(line[1] == clock[0] && line[2] == clock[1] && line[3] == clock[2] && line[4] == clock[3]
        && line[5] == clock[4] && line[6] == clock[5] && line[7] == clock[6] && line[8] == clock[7]);
    assert(line[9] == ']' && line[10] == ' ' && line[11] == '[');
    assert forall|i: int| 12 <= i < k implies line[i] != ']' by {
        if i < 12 + n {
            assert(line[i] == thread[i - 12]);
        } else {
            assert(line[i] == "/INFO]: "@[i - 12 - n]);
        }
    }
    assert(line[k] == "/INFO]: "@[5]);
    assert(line[k + 1] == "/INFO]: "@[6]);
    assert(line[k + 2] == "/INFO]: "@[7]);
    lemma_next_index(line, 12, k, ']');
    assert(line.subrange(k - 5, k) =~= "/INFO"@) by {
        assert forall|j: int| 0 <= j < 5 implies line.subrange(k - 5, k)[j] == "/INFO"@[j] by {
            assert(line[k - 5 + j] == "/INFO]: "@[j]);
        }
    }
    assert(line.skip(k + 3) =~= message);
}

/// A line has a message only behind such a head: an opening bracket and a time of day first, and the
/// level last.
pub proof fn law_every_message_has_a_head(line: Seq<char>)
    ensures
        log_parser::info_body(line) matches Some(message) ==> ({
            let n = line.len() - message.len();
            &&& n >= 21
            &&& line.skip(n) == message
            &&& line[0] == '[' && line[9] == ']' && line[11] == '['
            &&& line.subrange(n - 8, n - 1) == "/INFO]:"@
            &&& text::is_space(line[n - 1])
        }),
{
    if log_parser::info_body(line) is Some {
        reveal_strlit("/INFO");
        reveal_strlit("/INFO]:");
        let k = log_parser::next_index(line, 12, ']');
        lemma_next_index_stops(line, 12, ']');
        assert(line[k] == ']');
        assert(line.subrange(k - 5, k + 2) =~= "/INFO]:"@) by {
            assert forall|j: int| 0 <= j < 5 implies line[k - 5 + j] == "/INFO"@[j] by {
                assert(line.subrange(k - 5, k)[j] == "/INFO"@[j]);
            }
        }
    }
}

/// The first place of a character that does not stand earlier.
proof fn lemma_next_index(s: Seq<char>, i: int, k: int, c: char)
    requires
        0 <= i <= k < s.len(),
        s[k] == c,
        forall|j: int| i <= j < k ==> s[j] != c,
    ensures
        log_parser::next_index(s, i, c) == k,
    decreases k - i,
{
    if i < k {
        lemma_next_index(s, i + 1, k, c);
    }
}

/// The search for a character ends at it or at the end.
proof fn lemma_next_index_stops(s: Seq<char>, i: int, c: char)
    requires
        0 <= i <= s.len(),
    ensures
        i <= log_parser::next_index(s, i, c) <= s.len(),
        log_parser::next_index(s, i, c) < s.len() ==> s[log_parser::next_index(s, i, c)] == c,
    decreases s.len() - i,
{
    if i < s.len() && s[i] != c {
        lemma_next_index_stops(s, i + 1, c);
    }
}

/// A name, a space and more are read as the name and the rest.
proof fn lemma_name_first(name: Seq<char>, rest: Seq<char>)
    requires
        log_parser::is_player_name(name),
    ensures
        log_parser::name_and_rest(name + " "@ + rest) == Some((name, rest)),
{
    reveal_strlit(" ");
    let p = name + " "@ + rest;
    let n = name.len() as int;
    assert forall|j: int| 0 <= j < n implies text::is_name_char(#[trigger] p[j]) by {
        assert(p[j] == name[j]);
    }
    assert(p[n] == ' ');
    log_parser::lemma_name_run_is(p, n);
    assert(p.take(n) =~= name);
    assert(p.skip(n + 1) =~= rest);
}

/// A message of one line that begins like a word is no chat and no broadcast.
proof fn lemma_plain_message(line: Seq<char>, p: Seq<char>, recent: Set<Seq<char>>)
    requires
        log_parser::info_body(line) == Some(p),
        p.len() > 0,
        text::is_name_char(p[0]),
        !p.contains('\n'),
    ensures
        log_parser::chat_of(line) is None,
        log_parser::server_say_of(line) is None,
        log_parser::payload_of(line) == Some(p),
        log_parser::event_of(line, recent) == log_parser::system_event(p, recent),
{
    reveal_strlit("[Not Secure]");
    reveal_strlit("[Server]");
    if text::text_at(p, 0, "[Not Secure]"@) {
        assert(p.subrange(0, 12)[0] == '[');
    }
    if text::text_at(p, 0, "[Server]"@) {
        assert(p.subrange(0, 8)[0] == '[');
    }
}

/// The message is neither passed over nor a death.
pub open spec fn is_ordinary(p: Seq<char>) -> bool {
    &&& forall|k: int| 0 <= k < 15 ==> !text::contains_text(p, #[trigger] IGNORED_MARKS@[k]@)
    &&& forall|k: int| 0 <= k < 44 ==> !text::contains_text(p, #[trigger] DEATH_TEXTS@[k]@)
}

/// What an ordinary message is not.
proof fn lemma_ordinary(p: Seq<char>)
    requires
        is_ordinary(p),
    ensures
        !log_parser::is_ignorable(p),
        !log_parser::is_death(p),
{
    law_ignored_messages_have_a_mark(p);
    law_deaths_are_told_by_their_words(p);
}

/// Whatever word for a death the message of a player holds, it is read as the death of that player
/// with that message, unless it holds a mark of the messages that are passed over.
proof fn lemma_deaths_are_reported(
    line: Seq<char>,
    recent: Set<Seq<char>>,
    k: int,
    name: Seq<char>,
    message: Seq<char>,
)
    requires
        0 <= k < 44,
        log_parser::is_player_name(name),
        text::contains_text(message, DEATH_TEXTS@[k]@),
        message.len() > 0,
        !message.contains('\n'),
        log_parser::info_body(line) == Some(name + " "@ + message),
        forall|j: int|
            0 <= j < 15 ==> !text::contains_text(
                name + " "@ + message,
                #[trigger] IGNORED_MARKS@[j]@,
            ),
    ensures
        log_parser::event_of(line, recent) == Some(EventView::Death { username: name, message }),
{
    let p = name + " "@ + message;
    let word = DEATH_TEXTS@[k]@;
    lemma_name_first(name, message);
    law_ignored_messages_have_a_mark(p);
    reveal_strlit(" ");
    let i = choose|i: int| #[trigger] text::text_at(message, i, word);
    let at = name.len() + 1 + i;
    assert(p.subrange(at, at + word.len()) =~= message.subrange(i, i + word.len()));
    assert(text::text_at(p, at, word));
    law_deaths_are_told_by_their_words(p);
    lemma_no_line_feed(name, message);
    assert(p[0] == name[0]);
    lemma_plain_message(line, p, recent);
}

/// A name, a space and a text of one line make a text of one line.
proof fn lemma_no_line_feed(name: Seq<char>, rest: Seq<char>)
    requires
        log_parser::is_player_name(name),
        !rest.contains('\n'),
    ensures
        !(name + " "@ + rest).contains('\n'),
{
    reveal_strlit(" ");
    let p = name + " "@ + rest;
    if p.contains('\n') {
        let j = p.index_of('\n');
        if j < name.len() {
            assert(p[j] == name[j]);
        } else if j == name.len() {
            assert(p[j] == ' ');
        } else {
            assert(p[j] == rest[j - name.len() - 1]);
            assert(rest.contains(p[j]));
        }
    }
}

/// Messages that are passed over report nothing, whatever else they hold.
proof fn lemma_marked_messages_report_nothing(
    line: Seq<char>,
    recent: Set<Seq<char>>,
    k: int,
    p: Seq<char>,
)
    requires
        0 <= k < 15,
        log_parser::info_body(line) == Some(p),
        p.len() > 0,
        text::is_name_char(p[0]),
        !p.contains('\n'),
        text::contains_text(p, IGNORED_MARKS@[k]@),
    ensures
        log_parser::event_of(line, recent) is None,
        log_parser::recent_after(line, recent) == recent,
{
    law_ignored_messages_have_a_mark(p);
    lemma_plain_message(line, p, recent);
}

/// The message that a player came, left or lost the connection is read as just that, of that player.
proof fn lemma_coming_and_going_is_reported(
    line: Seq<char>,
    recent: Set<Seq<char>>,
    name: Seq<char>,
    reason: Seq<char>,
)
    requires
        log_parser::is_player_name(name),
        log_parser::info_body(line) is Some,
        is_ordinary(log_parser::info_body(line)->0),
        reason.len() > 0,
        !reason.contains('\n'),
    ensures
        ({
            let p = log_parser::info_body(line)->0;
            let e = log_parser::event_of(line, recent);
            &&& p == name + " "@ + "joined the game"@ ==> e == Some(
                EventView::Join { username: name },
            ) && log_parser::recent_after(line, recent) == recent
            &&& p == name + " "@ + "left the game"@ && !recent.contains(name) ==> e == Some(
                EventView::Leave { username: name },
            )
            &&& p == name + " "@ + "left the game"@ ==> !log_parser::recent_after(
                line,
                recent,
            ).contains(name)
            &&& p == name + " "@ + ("lost connection: "@ + reason) ==> e == Some(
                EventView::Disconnect { username: name, reason },
            ) && log_parser::recent_after(line, recent).contains(name)
        }),
{
    let p = log_parser::info_body(line)->0;
    lemma_ordinary(p);
    reveal_strlit("joined the game");
    reveal_strlit("left the game");
    reveal_strlit("lost connection: ");
    reveal_strlit("lost connection:");
    reveal_strlit("issued server command:");
    reveal_strlit(" ");
    assert("joined the game"@[0] == 'j' && "left the game"@[0] == 'l' && "left the game"@[1] == 'e');
    if p == name + " "@ + "joined the game"@ {
        lemma_name_first(name, "joined the game"@);
        assert(!("joined the game"@).contains('\n'));
        lemma_no_line_feed(name, "joined the game"@);
        assert(p[0] == name[0]);
        lemma_plain_message(line, p, recent);
    }
    if p == name + " "@ + "left the game"@ {
        lemma_name_first(name, "left the game"@);
        assert(!("left the game"@).contains('\n'));
        lemma_no_line_feed(name, "left the game"@);
        assert(p[0] == name[0]);
        lemma_plain_message(line, p, recent);
        let rest = "left the game"@;
        if text::text_at(rest, 0, "lost connection:"@) {
            assert(rest.subrange(0, 16)[1] == 'o');
        }
    }
    let lost = "lost connection: "@ + reason;
    if p == name + " "@ + lost {
        lemma_name_first(name, lost);
        assert(!lost.contains('\n')) by {
            if lost.contains('\n') {
                let j = lost.index_of('\n');
                if j >= 17 {
                    assert(lost[j] == reason[j - 17]);
                    assert(reason.contains(lost[j]));
                } else {
                    assert(lost[j] == "lost connection: "@[j]);
                }
            }
        }
        lemma_no_line_feed(name, lost);
        assert(p[0] == name[0]);
        lemma_plain_message(line, p, recent);
        assert(lost[0] == 'l' && lost[1] == 'o');
        assert(lost.subrange(0, 16) =~= "lost connection:"@);
        assert(lost[16] == ' ');
        assert(lost.skip(17) =~= reason);
    }
}

/// The message that a player gave a command is read as that command of that player, unless the
/// console gave it or the command is private.
#[verifier::rlimit(50)]
proof fn lemma_commands_are_reported(
    line: Seq<char>,
    recent: Set<Seq<char>>,
    name: Seq<char>,
    command: Seq<char>,
)
    requires
        log_parser::is_player_name(name),
        command.len() >= 2,
        command[0] == '/',
        !command.contains('\n'),
        log_parser::info_body(line) == Some(
            name + " "@ + ("issued server command: "@ + command),
        ),
        is_ordinary(name + " "@ + ("issued server command: "@ + command)),
    ensures
        log_parser::event_of(line, recent) == if name == "SERVER"@ || (exists|k: int|
            #![trigger PRIVATE_COMMANDS@[k]]
            0 <= k < 9 && (command == PRIVATE_COMMANDS@[k]@ || (PRIVATE_COMMANDS@[k]@.push(
                ' ',
            )).is_prefix_of(command))) {
            None
        } else {
            Some(EventView::Command { username: name, command })
        },
{
    reveal_strlit("issued server command: ");
    reveal_strlit("issued server command:");
    reveal_strlit("joined the game");
    reveal_strlit("left the game");
    reveal_strlit("lost connection:");
    reveal_strlit("has made the advancement");
    reveal_strlit("has completed the challenge");
    reveal_strlit(" ");
    let rest = "issued server command: "@ + command;
    let p = name + " "@ + rest;
    lemma_ordinary(p);
    law_private_commands_are_these(command);
    lemma_name_first(name, rest);
    assert(!rest.contains('\n')) by {
        if rest.contains('\n') {
            let j = rest.index_of('\n');
            if j >= 23 {
                assert(rest[j] == command[j - 23]);
                assert(command.contains(rest[j]));
            } else {
                assert(rest[j] == "issued server command: "@[j]);
            }
        }
    }
    lemma_no_line_feed(name, rest);
    assert(p[0] == name[0]);
    lemma_plain_message(line, p, recent);
    assert(rest[0] == 'i');
    assert("joined the game"@[0] == 'j' && "left the game"@[0] == 'l');
    if text::text_at(rest, 0, "lost connection:"@) {
        assert(rest.subrange(0, 16)[0] == 'l');
    }
    if text::text_at(rest, 0, "has made the advancement"@) {
        assert(rest.subrange(0, 24)[0] == 'h');
    }
    if text::text_at(rest, 0, "has completed the challenge"@) {
        assert(rest.subrange(0, 27)[0] == 'h');
    }
    assert(rest.subrange(0, 22) =~= "issued server command:"@);
    assert(rest[22] == ' ');
    assert(rest.skip(23) =~= command);
    lemma_names_are_not_fixed_messages(name, rest);
}

/// A message of which the second word begins with a small letter other than those of the fixed
/// messages is none of these.
proof fn lemma_names_are_not_fixed_messages(name: Seq<char>, rest: Seq<char>)
    requires
        log_parser::is_player_name(name),
        rest.len() > 0,
        rest[0] == 'i' || rest[0] == 'h',
    ensures
        log_parser::player_list_of(name + " "@ + rest) is None,
        !log_parser::is_server_start(name + " "@ + rest),
        !log_parser::is_server_stop(name + " "@ + rest),
        name + " "@ + rest != "Saved the game"@,
{
    let p = name + " "@ + rest;
    lemma_name_first(name, rest);
    let n = name.len() as int;
    reveal_strlit(" ");
    reveal_strlit("There are ");
    reveal_strlit("Starting minecraft server version");
    reveal_strlit("Stopping the server");
    reveal_strlit("Stopping server");
    reveal_strlit("Saved the game");
    assert(log_parser::name_run(p, 0) == n);
    assert(p[n] == ' ');
    assert(p[n + 1] == rest[0]);
    assert forall|j: int| 0 <= j < n implies text::is_name_char(#[trigger] p[j]) by {
        assert(p[j] == name[j]);
    }
    if text::text_at(p, 0, "There are "@) {
        let q = p.subrange(0, 10);
        assert(q[0] == p[0] && q[1] == p[1] && q[2] == p[2] && q[3] == p[3] && q[4] == p[4] && q[5]
            == p[5] && q[6] == p[6]);
        log_parser::lemma_name_run_is(p, 5);
    }
    if text::text_at(p, 0, "Starting minecraft server version"@) {
        let q = p.subrange(0, 33);
        assert(q[0] == p[0] && q[1] == p[1] && q[2] == p[2] && q[3] == p[3] && q[4] == p[4] && q[5]
            == p[5] && q[6] == p[6] && q[7] == p[7] && q[8] == p[8] && q[9] == p[9]);
        log_parser::lemma_name_run_is(p, 8);
    }
    if log_parser::is_server_stop(p) {
        log_parser::lemma_name_run_is(p, 8);
    }
    if p == "Saved the game"@ {
        log_parser::lemma_name_run_is(p, 5);
    }
}

/// The message that a player made an advancement or completed a challenge is read as that
/// advancement of that player.
#[verifier::rlimit(50)]
proof fn lemma_advancements_are_reported(
    line: Seq<char>,
    recent: Set<Seq<char>>,
    name: Seq<char>,
    advancement: Seq<char>,
)
    requires
        log_parser::is_player_name(name),
        advancement.len() > 0,
        !advancement.contains('\n'),
        log_parser::info_body(line) is Some,
        is_ordinary(log_parser::info_body(line)->0),
        ({
            let p = log_parser::info_body(line)->0;
            ||| p == name + " "@ + ("has made the advancement ["@ + advancement + "]"@)
            ||| p == name + " "@ + ("has completed the challenge ["@ + advancement + "]"@)
        }),
    ensures
        log_parser::event_of(line, recent) == Some(
            EventView::Advancement { username: name, advancement },
        ),
{
    reveal_strlit("has made the advancement [");
    reveal_strlit("has completed the challenge [");
    reveal_strlit("has made the advancement");
    reveal_strlit("has completed the challenge");
    reveal_strlit("]");
    reveal_strlit("joined the game");
    reveal_strlit("left the game");
    reveal_strlit("lost connection:");
    reveal_strlit("issued server command:");
    reveal_strlit(" ");
    let p = log_parser::info_body(line)->0;
    lemma_ordinary(p);
    let made = "has made the advancement ["@ + advancement + "]"@;
    let completed = "has completed the challenge ["@ + advancement + "]"@;
    let rest = if p == name + " "@ + made {
        made
    } else {
        completed
    };
    let n: int = if p == name + " "@ + made {
        26
    } else {
        29
    };
    assert(p == name + " "@ + rest);
    lemma_name_first(name, rest);
    assert(!rest.contains('\n')) by {
        if rest.contains('\n') {
            let j = rest.index_of('\n');
            if n <= j < n + advancement.len() {
                assert(rest[j] == advancement[j - n]);
                assert(advancement.contains(rest[j]));
            } else if j < n {
                if n == 26 {
                    assert(rest[j] == "has made the advancement ["@[j]);
                } else {
                    assert(rest[j] == "has completed the challenge ["@[j]);
                }
            } else {
                assert(rest[j] == "]"@[j - n - advancement.len()]);
            }
        }
    }
    lemma_no_line_feed(name, rest);
    assert(p[0] == name[0]);
    lemma_plain_message(line, p, recent);
    assert(rest[0] == 'h');
    assert("joined the game"@[0] == 'j' && "left the game"@[0] == 'l');
    if text::text_at(rest, 0, "lost connection:"@) {
        assert(rest.subrange(0, 16)[0] == 'l');
    }
    if text::text_at(rest, 0, "issued server command:"@) {
        assert(rest.subrange(0, 22)[0] == 'i');
    }
    if n == 26 {
        assert(rest.subrange(0, 24) =~= "has made the advancement"@);
    } else {
        assert(rest.subrange(0, 27) =~= "has completed the challenge"@);
        if text::text_at(rest, 0, "has made the advancement"@) {
            assert(rest.subrange(0, 24)[4] == 'm');
            assert(rest[4] == 'c');
        }
    }
    let e = rest.skip(n - 1);
    assert(e =~= "["@ + advancement + "]"@) by {
        reveal_strlit("[");
    }
    reveal_strlit("[");
    assert(e[0] == '[');
    assert(e.last() == ']');
    assert(e.subrange(1, e.len() - 1) =~= advancement);
}

/// The messages that the server starts, stops and has saved are read as these.
proof fn lemma_server_messages_are_reported(
    line: Seq<char>,
    recent: Set<Seq<char>>,
    version: Seq<char>,
)
    requires
        log_parser::info_body(line) is Some,
        is_ordinary(log_parser::info_body(line)->0),
        !version.contains('\n'),
    ensures
        ({
            let p = log_parser::info_body(line)->0;
            let e = log_parser::event_of(line, recent);
            &&& p == "Starting minecraft server version "@ + version ==> e == Some(
                EventView::ServerStart,
            )
            &&& p == "Stopping the server"@ || p == "Stopping server"@ ==> e == Some(
                EventView::ServerStop,
            )
            &&& p == "Saved the game"@ ==> e == Some(EventView::SaveComplete)
        }),
{
    let p = log_parser::info_body(line)->0;
    lemma_ordinary(p);
    reveal_strlit("Starting minecraft server version ");
    reveal_strlit("Starting minecraft server version");
    reveal_strlit("Stopping the server");
    reveal_strlit("Stopping server");
    reveal_strlit("Saved the game");
    reveal_strlit("There are ");
    reveal_strlit("joined the game");
    reveal_strlit("left the game");
    reveal_strlit("lost connection:");
    reveal_strlit("issued server command:");
    reveal_strlit("has made the advancement");
    reveal_strlit("has completed the challenge");
    let starts = "Starting minecraft server version "@ + version;
    if p == starts {
        assert(!p.contains('\n')) by {
            if p.contains('\n') {
                let j = p.index_of('\n');
                if j >= 34 {
                    assert(p[j] == version[j - 34]);
                    assert(version.contains(p[j]));
                } else {
                    assert(p[j] == "Starting minecraft server version "@[j]);
                }
            }
        }
        assert(p[0] == 'S' && p[8] == ' ' && p[9] == 'm');
        lemma_second_word(p, 8);
        assert(p.subrange(0, 33) =~= "Starting minecraft server version"@);
        lemma_plain_message(line, p, recent);
    }
    if p == "Stopping the server"@ || p == "Stopping server"@ {
        assert(!p.contains('\n'));
        assert(p[0] == 'S' && p[8] == ' ' && (p[9] == 't' || p[9] == 's'));
        lemma_second_word(p, 8);
        lemma_plain_message(line, p, recent);
        if text::text_at(p, 0, "Starting minecraft server version"@) {
            assert(p.subrange(0, 33)[2] == 'a');
        }
    }
    if p == "Saved the game"@ {
        assert(!p.contains('\n'));
        assert(p[0] == 'S' && p[5] == ' ' && p[6] == 't');
        lemma_second_word(p, 5);
        lemma_plain_message(line, p, recent);
        if text::text_at(p, 0, "Starting minecraft server version"@) {
            assert(p.subrange(0, 33)[1] == 't');
        }
    }
}

/// A message of which the second word does not begin like those of the messages on players is none
/// of these.
proof fn lemma_second_word(p: Seq<char>, n: int)
    requires
        0 < n,
        n + 1 < p.len(),
        p[0] == 'S',
        p[n] == ' ',
        p[n + 1] == 'm' || p[n + 1] == 't' || p[n + 1] == 's',
        forall|j: int| 0 <= j < n ==> text::is_name_char(#[trigger] p[j]),
    ensures
        log_parser::join_of(p) is None,
        log_parser::leaver(p) is None,
        log_parser::lost_connection(p) is None,
        log_parser::command_of(p) is None,
        log_parser::advancement_of(p) is None,
        log_parser::player_list_of(p) is None,
{
    reveal_strlit("There are ");
    reveal_strlit("joined the game");
    reveal_strlit("left the game");
    reveal_strlit("lost connection:");
    reveal_strlit("issued server command:");
    reveal_strlit("has made the advancement");
    reveal_strlit("has completed the challenge");
    log_parser::lemma_name_run_is(p, n);
    let rest = p.skip(n + 1);
    assert(rest[0] == p[n + 1]);
    assert("joined the game"@[0] == 'j' && "left the game"@[0] == 'l');
    if text::text_at(rest, 0, "lost connection:"@) {
        assert(rest.subrange(0, 16)[0] == 'l');
    }
    if text::text_at(rest, 0, "issued server command:"@) {
        assert(rest.subrange(0, 22)[0] == 'i');
    }
    if text::text_at(rest, 0, "has made the advancement"@) {
        assert(rest.subrange(0, 24)[0] == 'h');
    }
    if text::text_at(rest, 0, "has completed the challenge"@) {
        assert(rest.subrange(0, 27)[0] == 'h');
    }
    if text::text_at(p, 0, "There are "@) {
        assert(p.subrange(0, 10)[0] == 'T');
    }
}

/// What a player writes is read as that player's chat, with or without the mark of unsigned chat,
/// unless a word of it is `@s`.
proof fn lemma_chat_is_reported(
    line: Seq<char>,
    recent: Set<Seq<char>>,
    name: Seq<char>,
    message: Seq<char>,
)
    requires
        log_parser::is_player_name(name),
        message.len() > 0,
        !message.contains('\n'),
        log_parser::info_body(line) == Some("<"@ + name + "> "@ + message)
            || log_parser::info_body(line) == Some("[Not Secure] "@ + ("<"@ + name + "> "@ + message)),
        forall|i: int|
            0 <= i < message.len() - 1 ==> !(message[i] == '@' && (#[trigger] message[i + 1] == 's'
                || message[i + 1] == 'S')),
    ensures
        log_parser::event_of(line, recent) == Some(EventView::Chat { username: name, message }),
        log_parser::recent_after(line, recent) == recent,
{
    reveal_strlit("<");
    reveal_strlit("> ");
    reveal_strlit("[Not Secure] ");
    reveal_strlit("[Not Secure]");
    let chat = "<"@ + name + "> "@ + message;
    let body = log_parser::info_body(line)->0;
    if body == chat {
        if text::text_at(chat, 0, "[Not Secure]"@) {
            assert(chat.subrange(0, 12)[0] == '[');
            assert(chat[0] == '<');
        }
    } else {
        assert(body.subrange(0, 12) =~= "[Not Secure]"@);
        assert(body[12] == ' ');
        assert(body.skip(13) =~= chat);
    }
    assert(log_parser::past_mark(body) == chat);
    let inner = chat.skip(1);
    let n = name.len() as int;
    assert(inner =~= name + "> "@ + message);
    assert(inner[n] == '>');
    assert(inner[n + 1] == ' ');
    assert forall|j: int| 0 <= j < n implies text::is_name_char(#[trigger] inner[j]) by {
        assert(inner[j] == name[j]);
    }
    log_parser::lemma_name_run_is(inner, n);
    assert(inner.take(n) =~= name);
    assert(inner.skip(n + 2) =~= message);
    assert forall|i: int| !log_parser::silent_token_at(message, i) by {
        if log_parser::silent_token_at(message, i) {
            assert(message[i + 1] == 's' || message[i + 1] == 'S');
        }
    }
}

/// What the server says is read as a broadcast, with or without the mark of unsigned chat.
proof fn lemma_broadcasts_are_reported(
    line: Seq<char>,
    recent: Set<Seq<char>>,
    message: Seq<char>,
)
    requires
        message.len() > 0,
        !message.contains('\n'),
        log_parser::info_body(line) == Some("[Server] "@ + message) || log_parser::info_body(line)
            == Some("[Not Secure] "@ + ("[Server] "@ + message)),
    ensures
        log_parser::event_of(line, recent) == Some(EventView::ServerSay { message }),
{
    reveal_strlit("[Server] ");
    reveal_strlit("[Server]");
    reveal_strlit("[Not Secure] ");
    reveal_strlit("[Not Secure]");
    let say = "[Server] "@ + message;
    let body = log_parser::info_body(line)->0;
    if body == say {
        if text::text_at(say, 0, "[Not Secure]"@) {
            assert(say.subrange(0, 12)[1] == 'N');
            assert(say[1] == 'S');
        }
    } else {
        assert(body.subrange(0, 12) =~= "[Not Secure]"@);
        assert(body[12] == ' ');
        assert(body.skip(13) =~= say);
    }
    assert(log_parser::past_mark(body) == say);
    assert(say[0] == '[');
    assert(say.subrange(0, 8) =~= "[Server]"@);
    assert(say[8] == ' ');
    assert(say.skip(9) =~= message);
}

/// Nothing is reported that the line does not say: an event is read only from the words for it, and
/// the names and texts of the event stand in the line.
#[verifier::rlimit(50)]
pub proof fn law_events_stand_in_the_line(line: Seq<char>, recent: Set<Seq<char>>)
    ensures
        match log_parser::event_of(line, recent) {
            None => true,
            Some(e) => log_parser::info_body(line) matches Some(p) && match e {
                EventView::Join { username } => said_of(p, username, "joined the game"@),
                EventView::Leave { username } => said_of(p, username, "left the game"@)
                    && !recent.contains(username),
                EventView::Disconnect { username, reason } => exists|gap: char|
                    text::is_space(gap) && said_of(
                        p,
                        username,
                        "lost connection:"@ + #[trigger] seq![gap] + reason,
                    ),
                EventView::Death { username, message } => said_of(p, username, message)
                    && log_parser::is_death(p),
                EventView::Command { username, command } => command[0] == '/' && exists|gap: char|
                    text::is_space(gap) && said_of(
                        p,
                        username,
                        "issued server command:"@ + #[trigger] seq![gap] + command,
                    ),
                EventView::Advancement { username, advancement } => exists|gap: char|
                    #![trigger seq![gap]]
                    text::is_space(gap) && (said_of(
                        p,
                        username,
                        "has made the advancement"@ + seq![gap] + ("["@ + advancement + "]"@),
                    ) || said_of(
                        p,
                        username,
                        "has completed the challenge"@ + seq![gap] + ("["@ + advancement + "]"@),
                    )),
                EventView::Chat { username, message } => exists|gap: char|
                    #![trigger seq![gap]]
                    text::is_space(gap) && log_parser::past_mark(p) == "<"@ + username + ">"@ + seq![
                        gap,
                    ] + message,
                EventView::ServerSay { message } => exists|gap: char|
                    text::is_space(gap) && log_parser::past_mark(p) == "[Server]"@
                        + #[trigger] seq![gap] + message,
                EventView::PlayerList { .. } => text::text_at(p, 0, "There are "@),
                EventView::UuidResolved { .. } => false,
                EventView::ServerStart => text::text_at(p, 0, "Starting minecraft server version"@),
                EventView::ServerStop => p == "Stopping the server"@ || p == "Stopping server"@,
                EventView::SaveComplete => p == "Saved the game"@,
            },
        },
{
    reveal_strlit("<");
    reveal_strlit(">");
    reveal_strlit("[");
    reveal_strlit("]");
    if let Some(body) = log_parser::info_body(line) {
        let t = log_parser::past_mark(body);
        match log_parser::event_of(line, recent) {
            Some(EventView::Chat { username, message }) => {
                let inner = t.skip(1);
                let n = username.len() as int;
                let k = log_parser::name_run(inner, 0);
                log_parser::lemma_name_run(inner, 0);
                assert(n == k);
                assert(t =~= "<"@ + username + ">"@ + seq![inner[k + 1]] + message);
            },
            Some(EventView::ServerSay { message }) => {
                lemma_past_label(t, "[Server]"@);
            },
            Some(e) => {
                log_parser::lemma_name_run(body, 0);
                if let Some((username, rest)) = log_parser::name_and_rest(body) {
                    let n = log_parser::name_run(body, 0);
                    assert(body =~= username + seq![body[n]] + rest);
                    lemma_past_label(rest, "lost connection:"@);
                    lemma_past_label(rest, "issued server command:"@);
                    lemma_past_label(rest, "has made the advancement"@);
                    lemma_past_label(rest, "has completed the challenge"@);
                    if let EventView::Advancement { advancement, .. } = e {
                        let made = log_parser::past_label(rest, "has made the advancement"@);
                        let earned = match made {
                            Some(x) => x,
                            None => log_parser::past_label(rest, "has completed the challenge"@)->0,
                        };
                        assert(earned =~= "["@ + advancement + "]"@);
                    }
                }
            },
            None => {},
        }
    }
}

/// The message is a player name, one white space character and the words.
pub open spec fn said_of(p: Seq<char>, username: Seq<char>, words: Seq<char>) -> bool {
    log_parser::is_player_name(username) && exists|gap: char|
        text::is_space(gap) && p == username + #[trigger] seq![gap] + words
}

/// A text past a label is the label, a white space character and what follows.
proof fn lemma_past_label(s: Seq<char>, label: Seq<char>)
    ensures
        log_parser::past_label(s, label) matches Some(rest) ==> text::is_space(
            s[label.len() as int],
        ) && s == label + seq![s[label.len() as int]] + rest,
{
    if let Some(rest) = log_parser::past_label(s, label) {
        assert(s =~= s.subrange(0, label.len() as int) + seq![s[label.len() as int]] + rest);
    }
}

/// A name that a player can have: three to sixteen letters, digits and underscores.
pub open spec fn is_name(s: Seq<char>) -> bool {
    3 <= s.len() <= 16 && forall|i: int|
        0 <= i < s.len() ==> 'a' <= #[trigger] s[i] <= 'z' || 'A' <= s[i] <= 'Z' || '0' <= s[i]
            <= '9' || s[i] == '_'
}

/// The names that players can have are these, and no others.
pub proof fn law_player_names_are_these(s: Seq<char>)
    ensures
        log_parser::is_player_name(s) <==> is_name(s),
{
    if is_name(s) {
        assert forall|i: int| 0 <= i < s.len() implies text::is_name_char(#[trigger] s[i]) by {}
    }
    if log_parser::is_player_name(s) {
        assert forall|i: int| 0 <= i < s.len() implies 'a' <= #[trigger] s[i] <= 'z' || 'A' <= s[i]
            <= 'Z' || '0' <= s[i] <= '9' || s[i] == '_' by {
            assert(text::is_name_char(s[i]));
        }
    }
}

/// A line of the log: a time of day, a thread, the level `INFO`, and a message.
pub open spec fn is_log_line(line: Seq<char>, clock: Seq<char>, thread: Seq<char>, p: Seq<char>) -> bool {
    is_clock(clock) && thread.len() > 0 && !thread.contains(']') && line == head(clock, thread) + p
}

/// Whatever word for a death the message of a player holds, the line is read as the death of that
/// player with that message, unless it holds a mark of the messages that are passed over.
pub proof fn law_deaths_are_reported(
    line: &str,
    recent: &mut RecentDisconnects,
    r: Option<MinecraftEvent>,
    clock: Seq<char>,
    thread: Seq<char>,
    k: int,
    name: Seq<char>,
    message: Seq<char>,
)
    requires
        call_ensures(log_parser::parse_log_line, (line, recent), r),
        is_log_line(line@, clock, thread, name + " "@ + message),
        is_name(name),
        0 <= k < 44,
        text::contains_text(message, DEATH_TEXTS@[k]@),
        message.len() > 0,
        !message.contains('\n'),
        forall|j: int|
            0 <= j < 15 ==> !text::contains_text(
                name + " "@ + message,
                #[trigger] IGNORED_MARKS@[j]@,
            ),
    ensures
        log_parser::event_view(r) == Some(EventView::Death { username: name, message }),
{
    law_messages_follow_the_head(clock, thread, name + " "@ + message);
    law_player_names_are_these(name);
    lemma_deaths_are_reported(line@, old(recent)@, k, name, message);
}

/// A message that holds a mark of those that are passed over reports nothing, whatever else it holds.
pub proof fn law_marked_messages_report_nothing(
    line: &str,
    recent: &mut RecentDisconnects,
    r: Option<MinecraftEvent>,
    clock: Seq<char>,
    thread: Seq<char>,
    k: int,
    name: Seq<char>,
    message: Seq<char>,
)
    requires
        call_ensures(log_parser::parse_log_line, (line, recent), r),
        is_log_line(line@, clock, thread, name + " "@ + message),
        is_name(name),
        !message.contains('\n'),
        0 <= k < 15,
        text::contains_text(name + " "@ + message, IGNORED_MARKS@[k]@),
    ensures
        r is None,
        final(recent)@ == old(recent)@,
{
    let p = name + " "@ + message;
    law_messages_follow_the_head(clock, thread, p);
    law_player_names_are_these(name);
    reveal_strlit(" ");
    lemma_no_line_feed(name, message);
    assert(p[0] == name[0]);
    lemma_marked_messages_report_nothing(line@, old(recent)@, k, p);
}

/// The line that a player came, left or lost the connection is read as just that, of that player;
/// of one who lost the connection the leaving that follows is not reported again, once.
pub proof fn law_coming_and_going_is_reported(
    line: &str,
    recent: &mut RecentDisconnects,
    r: Option<MinecraftEvent>,
    clock: Seq<char>,
    thread: Seq<char>,
    name: Seq<char>,
    reason: Seq<char>,
    p: Seq<char>,
)
    requires
        call_ensures(log_parser::parse_log_line, (line, recent), r),
        is_log_line(line@, clock, thread, p),
        is_ordinary(p),
        is_name(name),
        reason.len() > 0,
        !reason.contains('\n'),
    ensures
        p == name + " "@ + "joined the game"@ ==> log_parser::event_view(r) == Some(
            EventView::Join { username: name },
        ) && final(recent)@ == old(recent)@,
        p == name + " "@ + "left the game"@ && !old(recent)@.contains(name)
            ==> log_parser::event_view(r) == Some(EventView::Leave { username: name }),
        p == name + " "@ + "left the game"@ && old(recent)@.contains(name) ==> r is None,
        p == name + " "@ + "left the game"@ ==> !final(recent)@.contains(name),
        p == name + " "@ + ("lost connection: "@ + reason) ==> log_parser::event_view(r) == Some(
            EventView::Disconnect { username: name, reason },
        ) && final(recent)@.contains(name),
{
    law_messages_follow_the_head(clock, thread, p);
    law_player_names_are_these(name);
    lemma_coming_and_going_is_reported(line@, old(recent)@, name, reason);
    if p == name + " "@ + "left the game"@ && old(recent)@.contains(name) {
        lemma_ordinary(p);
        reveal_strlit(" ");
        reveal_strlit("left the game");
        assert(!("left the game"@).contains('\n'));
        lemma_no_line_feed(name, "left the game"@);
        assert(p[0] == name[0]);
        lemma_name_first(name, "left the game"@);
        log_parser::lemma_leave_is_nothing_else(p);
        lemma_plain_message(line@, p, old(recent)@);
    }
}

/// The line that a player gave a command is read as that command of that player, unless the console
/// gave it or the command is private.
pub proof fn law_commands_are_reported(
    line: &str,
    recent: &mut RecentDisconnects,
    r: Option<MinecraftEvent>,
    clock: Seq<char>,
    thread: Seq<char>,
    name: Seq<char>,
    command: Seq<char>,
)
    requires
        call_ensures(log_parser::parse_log_line, (line, recent), r),
        is_log_line(
            line@,
            clock,
            thread,
            name + " "@ + ("issued server command: "@ + command),
        ),
        is_ordinary(name + " "@ + ("issued server command: "@ + command)),
        is_name(name),
        command.len() >= 2,
        command[0] == '/',
        !command.contains('\n'),
    ensures
        log_parser::event_view(r) == if name == "SERVER"@ || (exists|k: int|
            #![trigger PRIVATE_COMMANDS@[k]]
            0 <= k < 9 && (command == PRIVATE_COMMANDS@[k]@ || (PRIVATE_COMMANDS@[k]@.push(
                ' ',
            )).is_prefix_of(command))) {
            None
        } else {
            Some(EventView::Command { username: name, command })
        },
{
    law_messages_follow_the_head(
        clock,
        thread,
        name + " "@ + ("issued server command: "@ + command),
    );
    law_player_names_are_these(name);
    lemma_commands_are_reported(line@, old(recent)@, name, command);
}

/// The line that a player made an advancement or completed a challenge is read as that advancement of
/// that player.
pub proof fn law_advancements_are_reported(
    line: &str,
    recent: &mut RecentDisconnects,
    r: Option<MinecraftEvent>,
    clock: Seq<char>,
    thread: Seq<char>,
    name: Seq<char>,
    advancement: Seq<char>,
    p: Seq<char>,
)
    requires
        call_ensures(log_parser::parse_log_line, (line, recent), r),
        is_log_line(line@, clock, thread, p),
        is_ordinary(p),
        is_name(name),
        advancement.len() > 0,
        !advancement.contains('\n'),
        p == name + " "@ + ("has made the advancement ["@ + advancement + "]"@) || p == name + " "@
            + ("has completed the challenge ["@ + advancement + "]"@),
    ensures
        log_parser::event_view(r) == Some(EventView::Advancement { username: name, advancement }),
{
    law_messages_follow_the_head(clock, thread, p);
    law_player_names_are_these(name);
    lemma_advancements_are_reported(line@, old(recent)@, name, advancement);
}

/// The lines that the server starts, stops and has saved are read as these.
pub proof fn law_server_messages_are_reported(
    line: &str,
    recent: &mut RecentDisconnects,
    r: Option<MinecraftEvent>,
    clock: Seq<char>,
    thread: Seq<char>,
    version: Seq<char>,
    p: Seq<char>,
)
    requires
        call_ensures(log_parser::parse_log_line, (line, recent), r),
        is_log_line(line@, clock, thread, p),
        is_ordinary(p),
        !version.contains('\n'),
    ensures
        p == "Starting minecraft server version "@ + version ==> log_parser::event_view(r) == Some(
            EventView::ServerStart,
        ),
        p == "Stopping the server"@ || p == "Stopping server"@ ==> log_parser::event_view(r)
            == Some(EventView::ServerStop),
        p == "Saved the game"@ ==> log_parser::event_view(r) == Some(EventView::SaveComplete),
{
    law_messages_follow_the_head(clock, thread, p);
    lemma_server_messages_are_reported(line@, old(recent)@, version);
}

/// What a player writes is read as that player's chat, with or without the mark of unsigned chat,
/// unless `@s` stands in it; and nobody's parting is forgotten or noted for it.
pub proof fn law_chat_is_reported(
    line: &str,
    recent: &mut RecentDisconnects,
    r: Option<MinecraftEvent>,
    clock: Seq<char>,
    thread: Seq<char>,
    name: Seq<char>,
    message: Seq<char>,
    marked: bool,
)
    requires
        call_ensures(log_parser::parse_log_line, (line, recent), r),
        is_log_line(
            line@,
            clock,
            thread,
            if marked {
                "[Not Secure] "@ + ("<"@ + name + "> "@ + message)
            } else {
                "<"@ + name + "> "@ + message
            },
        ),
        is_name(name),
        message.len() > 0,
        !message.contains('\n'),
        forall|i: int|
            0 <= i < message.len() - 1 ==> !(message[i] == '@' && (#[trigger] message[i + 1] == 's'
                || message[i + 1] == 'S')),
    ensures
        log_parser::event_view(r) == Some(EventView::Chat { username: name, message }),
        final(recent)@ == old(recent)@,
{
    let p = if marked {
        "[Not Secure] "@ + ("<"@ + name + "> "@ + message)
    } else {
        "<"@ + name + "> "@ + message
    };
    law_messages_follow_the_head(clock, thread, p);
    law_player_names_are_these(name);
    lemma_chat_is_reported(line@, old(recent)@, name, message);
}

/// What the server says is read as a broadcast, with or without the mark of unsigned chat.
pub proof fn law_broadcasts_are_reported(
    line: &str,
    recent: &mut RecentDisconnects,
    r: Option<MinecraftEvent>,
    clock: Seq<char>,
    thread: Seq<char>,
    message: Seq<char>,
    marked: bool,
)
    requires
        call_ensures(log_parser::parse_log_line, (line, recent), r),
        is_log_line(
            line@,
            clock,
            thread,
            if marked {
                "[Not Secure] "@ + ("[Server] "@ + message)
            } else {
                "[Server] "@ + message
            },
        ),
        message.len() > 0,
        !message.contains('\n'),
    ensures
        log_parser::event_view(r) == Some(EventView::ServerSay { message }),
{
    let p = if marked {
        "[Not Secure] "@ + ("[Server] "@ + message)
    } else {
        "[Server] "@ + message
    };
    law_messages_follow_the_head(clock, thread, p);
    lemma_broadcasts_are_reported(line@, old(recent)@, message);
}

/// A chat message tells a code exactly where it begins with `@s confirm-`, in small or capital
/// letters; the code is what follows, in capital letters and without the white space around it.
pub proof fn law_confirmations_tell_their_code(message: &str, r: Option<String>)
    requires
        call_ensures(log_parser::confirmation, (message,), r),
    ensures
        r is Some <==> message@.len() >= 11 && text::upper_text(message@.take(11))
            == "@S CONFIRM-"@,
        r matches Some(code) ==> code@ == text::upper_text(text::trim(message@.skip(11))),
{
    let s = message@;
    let p = "@s confirm-"@;
    let up = "@S CONFIRM-"@;
    reveal_strlit("@s confirm-");
    reveal_strlit("@S CONFIRM-");
    assert(p.len() == 11 && up.len() == 11);
    assert forall|i: int| 0 <= i < 11 implies text::upper(#[trigger] p[i]) == up[i] && (p[i] < 'A'
        || p[i] > 'Z') by {}
    if log_parser::begins_with(s, p) {
        let t = text::upper_text(s.take(11));
        assert forall|i: int| 0 <= i < 11 implies t[i] == up[i] by {
            let c = s[i];
            let d = p[i];
            assert(text::upper(d) == up[i]);
            assert(text::lower(c) == text::lower(d));
            assert(t[i] == text::upper(c));
        }
        assert(t =~= up);
    }
    if s.len() >= 11 && text::upper_text(s.take(11)) == up {
        let t = text::upper_text(s.take(11));
        assert forall|i: int| 0 <= i < 11 implies text::lower(#[trigger] s[i]) == text::lower(p[i]) by {
            let c = s[i];
            let d = p[i];
            assert(text::upper(d) == up[i]);
            assert(t[i] == text::upper(s.take(11)[i]));
        }
    }
}

/// A message of Discord is not relayed exactly where it begins with `@s` or `@silent`, in small or
/// capital letters, and ends there or goes on with a space.
pub proof fn law_silent_messages_are_these(message: &str, r: bool)
    requires
        call_ensures(log_parser::is_silent_message_prefix, (message,), r),
    ensures
        r <==> {
            let s = text::upper_text(message@);
            ||| s == "@S"@
            ||| "@S "@.is_prefix_of(s)
            ||| s == "@SILENT"@
            ||| "@SILENT "@.is_prefix_of(s)
        },
{
    lemma_silence(message@);
}

/// The words with which a message asks for silence.
pub proof fn lemma_silence(message: Seq<char>)
    ensures
        log_parser::opens_with(message, "@silent"@) || log_parser::opens_with(message, "@s"@) <==> {
            let s = text::upper_text(message);
            ||| s == "@S"@
            ||| "@S "@.is_prefix_of(s)
            ||| s == "@SILENT"@
            ||| "@SILENT "@.is_prefix_of(s)
        },
{
    reveal_strlit("@s");
    reveal_strlit("@silent");
    reveal_strlit("@S");
    reveal_strlit("@S ");
    reveal_strlit("@SILENT");
    reveal_strlit("@SILENT ");
    assert("@S "@ =~= "@S"@.push(' '));
    assert("@SILENT "@ =~= "@SILENT"@.push(' '));
    lemma_opens_with(message, "@s"@, "@S"@, "@S "@);
    lemma_opens_with(message, "@silent"@, "@SILENT"@, "@SILENT "@);
}

/// A text opens with a word in small or capital letters where its capitals are, or begin with, those
/// of the word.
proof fn lemma_opens_with(s: Seq<char>, word: Seq<char>, capitals: Seq<char>, spaced: Seq<char>)
    requires
        word.len() == capitals.len(),
        spaced == capitals.push(' '),
        forall|i: int|
            0 <= i < word.len() ==> (#[trigger] word[i] == '@' && capitals[i] == '@') || ('a'
                <= word[i] <= 'z' && capitals[i] as int == word[i] as int - 32),
    ensures
        log_parser::opens_with(s, word) <==> text::upper_text(s) == capitals
            || spaced.is_prefix_of(text::upper_text(s)),
{
    let up = text::upper_text(s);
    let n = word.len() as int;
    if log_parser::opens_with(s, word) {
        assert forall|i: int| 0 <= i < n implies up[i] == capitals[i] by {
            let c = s[i];
            let w = word[i];
            assert((w == '@' && capitals[i] == '@') || ('a' <= w <= 'z' && capitals[i] as int
                == w as int - 32));
            assert(text::lower(c) == text::lower(w));
            assert(text::lower(w) == w);
            assert(up[i] == text::upper(c));
        }
        if s.len() == n {
            assert(up =~= capitals);
        } else {
            assert(up[n] == text::upper(s[n]));
            assert(spaced.is_prefix_of(up));
        }
    }
    if up == capitals || spaced.is_prefix_of(up) {
        assert forall|i: int| 0 <= i < n implies text::lower(#[trigger] s[i]) == text::lower(word[i]) by {
            let w = word[i];
            assert((w == '@' && capitals[i] == '@') || ('a' <= w <= 'z' && capitals[i] as int
                == w as int - 32));
            assert(up[i] == text::upper(s[i]));
            if spaced.is_prefix_of(up) {
                assert(up[i] == spaced[i]);
            }
        }
        if spaced.is_prefix_of(up) {
            assert(up[n] == spaced[n]);
            assert(up[n] == text::upper(s[n]));
        }
    }
}

/// A death, a message that is passed over and a private command are told by their words.
pub proof fn law_words_decide(
    payload: &str,
    dies: bool,
    ignored: bool,
    private: bool,
)
    requires
        call_ensures(log_parser::is_death_message, (payload,), dies),
        call_ensures(log_parser::is_ignorable_system_message, (payload,), ignored),
        call_ensures(log_parser::is_private_command, (payload,), private),
    ensures
        dies <==> exists|k: int|
            0 <= k < 44 && text::contains_text(payload@, #[trigger] DEATH_TEXTS@[k]@),
        ignored <==> exists|k: int|
            0 <= k < 15 && text::contains_text(payload@, #[trigger] IGNORED_MARKS@[k]@),
        private <==> exists|k: int|
            #![trigger PRIVATE_COMMANDS@[k]]
            0 <= k < 9 && (payload@ == PRIVATE_COMMANDS@[k]@ || (PRIVATE_COMMANDS@[k]@.push(
                ' ',
            )).is_prefix_of(payload@)),
{
    law_deaths_are_told_by_their_words(payload@);
    law_ignored_messages_have_a_mark(payload@);
    law_private_commands_are_these(payload@);
}

/// The line that tells the UUID of a player is read as the UUID of that player, whatever the UUID.
pub proof fn law_uuids_are_read(
    line: &str,
    r: Option<StatsEvent>,
    clock: Seq<char>,
    thread: Seq<char>,
    name: Seq<char>,
    uuid: Seq<char>,
)
    requires
        call_ensures(log_parser::uuid_of_line, (line,), r),
        is_log_line(line@, clock, thread, "UUID of player "@ + name + " is "@ + uuid),
        is_name(name),
        uuid.len() > 0,
    ensures
        r matches Some(e) && e@ == (log_parser::StatsEventView::UuidResolved {
            username: name,
            uuid,
        }),
{
    law_messages_follow_the_head(clock, thread, "UUID of player "@ + name + " is "@ + uuid);
    law_player_names_are_these(name);
    assert(log_parser::info_body(line@) == Some(log_parser::uuid_report(name, uuid)));
    match r {
        Some(e) => {
            if let log_parser::StatsEventView::UuidResolved { username: n, uuid: u } = e@ {
                log_parser::law_uuid_reports_are_unambiguous(name, uuid, n, u);
            }
        },
        None => {},
    }
}

/// What the statistics are told of an event is what it was and whose.
pub proof fn law_statistics_are_told_of_events(event: &MinecraftEvent, r: Option<StatsEvent>)
    requires
        call_ensures(MinecraftEvent::to_stats_event, (event,), r),
    ensures
        r is None <==> event@ is ServerSay || event@ is PlayerList || event@ is SaveComplete,
        r matches Some(s) ==> match s@ {
            log_parser::StatsEventView::UuidResolved { username, uuid } => event@
                == (EventView::UuidResolved { username, uuid }),
            log_parser::StatsEventView::Join { username } => event@ == (EventView::Join { username }),
            log_parser::StatsEventView::Leave { username } => event@ == (EventView::Leave { username }),
            log_parser::StatsEventView::Disconnect { username, reason } => event@
                == (EventView::Disconnect { username, reason }),
            log_parser::StatsEventView::Death { username } => event@ matches EventView::Death {
                username: who,
                ..
            } && who == username,
            log_parser::StatsEventView::Advancement { username, advancement } => event@
                == (EventView::Advancement { username, advancement }),
            log_parser::StatsEventView::Chat { username } => event@ matches EventView::Chat {
                username: who,
                ..
            } && who == username,
            log_parser::StatsEventView::Command { username } => event@ matches EventView::Command {
                username: who,
                ..
            } && who == username,
            log_parser::StatsEventView::ServerStart => event@ is ServerStart,
            log_parser::StatsEventView::ServerStop => event@ is ServerStop,
        },
{
}

/// An ordinary message of one line that begins like a word is read as what the server reports.
pub proof fn lemma_plain(line: Seq<char>, p: Seq<char>, recent: Set<Seq<char>>)
    requires
        log_parser::info_body(line) == Some(p),
        is_ordinary(p),
        p.len() > 0,
        text::is_name_char(p[0]),
        !p.contains('\n'),
    ensures
        log_parser::event_of(line, recent) == log_parser::system_event(p, recent),
        !log_parser::is_ignorable(p),
        !log_parser::is_death(p),
{
    lemma_plain_message(line, p, recent);
    lemma_ordinary(p);
}

/// A message that begins as a list of players does tells nothing of a single player.
pub proof fn lemma_list_is_nothing_else(p: Seq<char>)
    requires
        p.len() > 6,
        p[0] == 'T' && p[1] == 'h' && p[2] == 'e' && p[3] == 'r' && p[4] == 'e' && p[5] == ' ' && p[6]
            == 'a',
    ensures
        log_parser::join_of(p) is None,
        log_parser::leaver(p) is None,
        log_parser::lost_connection(p) is None,
        log_parser::command_of(p) is None,
        log_parser::advancement_of(p) is None,
{
    reveal_strlit("joined the game");
    reveal_strlit("left the game");
    reveal_strlit("lost connection:");
    reveal_strlit("issued server command:");
    reveal_strlit("has made the advancement");
    reveal_strlit("has completed the challenge");
    log_parser::lemma_name_run_is(p, 5);
    let rest = p.skip(6);
    assert(rest[0] == p[6]);
    assert("joined the game"@[0] == 'j' && "left the game"@[0] == 'l');
    if text::text_at(rest, 0, "lost connection:"@) {
        assert(rest.subrange(0, 16)[0] == 'l');
    }
    if text::text_at(rest, 0, "issued server command:"@) {
        assert(rest.subrange(0, 22)[0] == 'i');
    }
    if text::text_at(rest, 0, "has made the advancement"@) {
        assert(rest.subrange(0, 24)[0] == 'h');
    }
    if text::text_at(rest, 0, "has completed the challenge"@) {
        assert(rest.subrange(0, 27)[0] == 'h');
    }
}

/// A word of a message keeps it from being relayed exactly where it is `@s`, in small or capital
/// letters: between white space, or the beginning and the end.
pub proof fn law_silent_words_are_found(
    message: Seq<char>,
    before: Seq<char>,
    word: Seq<char>,
    after: Seq<char>,
)
    ensures
        message == before + word + after && text::upper_text(word) == "@S"@ && (before.len() == 0
            || text::is_space(before.last())) && (after.len() == 0 || text::is_space(after[0]))
            ==> exists|i: int| log_parser::silent_token_at(message, i),
        !message.contains('@') ==> !exists|i: int| log_parser::silent_token_at(message, i),
{
    reveal_strlit("@S");
    if message == before + word + after && text::upper_text(word) == "@S"@ && (before.len() == 0
        || text::is_space(before.last())) && (after.len() == 0 || text::is_space(after[0])) {
        let n = before.len() as int;
        let up = text::upper_text(word);
        assert("@S"@.len() == 2);
        assert(up.len() == word.len());
        assert(up[0] == '@' && up[1] == 'S');
        assert(up[0] == text::upper(word[0]) && up[1] == text::upper(word[1]));
        assert(message[n] == word[0] && message[n + 1] == word[1]);
        if n > 0 {
            assert(message[n - 1] == before.last());
        }
        if after.len() > 0 {
            assert(message[n + 2] == after[0]);
        }
        assert(log_parser::silent_token_at(message, n));
    }
    if (exists|i: int| log_parser::silent_token_at(message, i)) && !message.contains('@') {
        let i = choose|i: int| log_parser::silent_token_at(message, i);
        assert(message.contains(message[i]));
    }
}

} // verus!
