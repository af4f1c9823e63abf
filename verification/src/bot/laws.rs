//! What holds of the messages and the replies as a whole.

use crate::bot::commands;
use crate::bot::commands::{
    CommandInfo, PrivacyAction, Reply, ReplyView, ServerAddress, ServerStatus,
};
use crate::bot::embed::{Embed, EmbedView};
use crate::bot::types;
use crate::bot::types::FromMinecraftEvent;
use crate::bot::verification::PendingVerifications;
use crate::log_parser;
use crate::log_parser::{EventView, MinecraftEvent};
use crate::stats;
use crate::storage::accounts;
use crate::storage::records::PlayerStats;
use crate::storage::tables;
use crate::storage::tables::{RowWrite, Tables};
use crate::storage::{Memory, Outcome, Storage, StorageError};
use crate::text;
use vstd::prelude::*;
use vstd::string::*;

verus! {

/// The text begins and ends with two texts, and holds nothing between them.
pub open spec fn is_made_of(s: Seq<char>, first: Seq<char>, last: Seq<char>) -> bool {
    first.is_prefix_of(s) && last.is_suffix_of(s) && s.len() == first.len() + last.len()
}

/// The message for an event tells what has happened in the words for it, and to whom.
pub proof fn law_messages_tell_what_happened(event: MinecraftEvent, r: Option<FromMinecraftEvent>)
    requires
        call_ensures(MinecraftEvent::into_discord, (event,), r),
    ensures
        r is None <==> event@ is PlayerList || event@ is UuidResolved,
        r matches Some(sent) ==> ({
            let m = sent@;
            match event@ {
                EventView::Join { username } => m.username == "🟢"@ && is_made_of(
                    m.content,
                    "**"@ + username,
                    "** joined the game"@,
                ),
                EventView::Leave { username } => m.username == "🔴"@ && is_made_of(
                    m.content,
                    "**"@ + username,
                    "** left the game"@,
                ),
                EventView::Disconnect { username, reason } => m.username == "🔴"@ && is_made_of(
                    m.content,
                    "**"@ + username + "** left the game"@,
                    " ("@ + reason + ")"@,
                ),
                EventView::Death { username, message } => m.username == "⚰️"@ && is_made_of(
                    m.content,
                    "**"@ + username + "** "@,
                    message,
                ),
                EventView::Advancement { username, advancement } => m.username == "🏆"@ && is_made_of(
                    m.content,
                    "**"@ + username + "** has made the advancement"@,
                    " ["@ + advancement + "]"@,
                ),
                EventView::Command { username, command } => m.username == "⌨️"@ && is_made_of(
                    m.content,
                    "**"@ + username + "** used command: "@,
                    "`"@ + command + "`"@,
                ),
                EventView::Chat { username, message } => m.username == username && m.content == message,
                EventView::ServerSay { message } => m.username == "📢"@ && is_made_of(
                    m.content,
                    "[Server] "@,
                    message,
                ),
                EventView::ServerStart => m.username == "🚀"@ && m.content == "Server started!"@,
                EventView::ServerStop => m.username == "🛑"@ && m.content == "Server stopped!"@,
                EventView::SaveComplete => m.username == "💾"@ && m.content == "World saved!"@,
                _ => false,
            }
        }),
{
    lemma_messages(event@);
}

/// What the message for an event is made of.
proof fn lemma_messages(e: EventView)
    ensures
        types::message_for(e) is None <==> e is PlayerList || e is UuidResolved,
        types::message_for(e) matches Some(m) ==> match e {
            EventView::Join { username } => m.username == "🟢"@ && is_made_of(
                m.content,
                "**"@ + username,
                "** joined the game"@,
            ),
            EventView::Leave { username } => m.username == "🔴"@ && is_made_of(
                m.content,
                "**"@ + username,
                "** left the game"@,
            ),
            EventView::Disconnect { username, reason } => m.username == "🔴"@ && is_made_of(
                m.content,
                "**"@ + username + "** left the game"@,
                " ("@ + reason + ")"@,
            ),
            EventView::Death { username, message } => m.username == "⚰️"@ && is_made_of(
                m.content,
                "**"@ + username + "** "@,
                message,
            ),
            EventView::Advancement { username, advancement } => m.username == "🏆"@ && is_made_of(
                m.content,
                "**"@ + username + "** has made the advancement"@,
                " ["@ + advancement + "]"@,
            ),
            EventView::Command { username, command } => m.username == "⌨️"@ && is_made_of(
                m.content,
                "**"@ + username + "** used command: "@,
                "`"@ + command + "`"@,
            ),
            EventView::Chat { username, message } => m.username == username && m.content == message,
            EventView::ServerSay { message } => m.username == "📢"@ && is_made_of(
                m.content,
                "[Server] "@,
                message,
            ),
            EventView::ServerStart => m.username == "🚀"@ && m.content == "Server started!"@,
            EventView::ServerStop => m.username == "🛑"@ && m.content == "Server stopped!"@,
            EventView::SaveComplete => m.username == "💾"@ && m.content == "World saved!"@,
            _ => false,
        },
{
    reveal_strlit("** left the game (");
    reveal_strlit("** left the game");
    reveal_strlit(" (");
    reveal_strlit("** has made the advancement [");
    reveal_strlit("** has made the advancement");
    reveal_strlit(" [");
    reveal_strlit("** used command: `");
    reveal_strlit("** used command: ");
    reveal_strlit("`");
    assert("** left the game ("@ =~= "** left the game"@ + " ("@);
    assert("** has made the advancement ["@ =~= "** has made the advancement"@ + " ["@);
    assert("** used command: `"@ =~= "** used command: "@ + "`"@);
}

/// Where the space of a report stands, and what follows it: past the name between its marks.
proof fn lemma_report(name: Seq<char>, head: Seq<char>, rest: Seq<char>)
    requires
        head.len() > 3,
        head[0] == '*',
        head[1] == '*',
        head[2] == ' ',
    ensures
        ({
            let s = "**"@ + name + head + rest;
            &&& s.len() == name.len() + 2 + head.len() + rest.len()
            &&& s[name.len() as int + 4] == ' '
            &&& s[name.len() as int + 5] == head[3]
        }),
{
    reveal_strlit("**");
    let s = "**"@ + name + head + rest;
    assert(s[name.len() as int + 4] == head[2]);
    assert(s[name.len() as int + 5] == head[3]);
}

/// What happens to different sorts of events of a player is told apart, whoever sends it: no two
/// messages are the same, and where neither is chat or a death, whose words are free, no two
/// contents are.
pub proof fn law_different_events_make_different_messages(
    a: MinecraftEvent,
    b: MinecraftEvent,
    username: Seq<char>,
    ra: Option<FromMinecraftEvent>,
    rb: Option<FromMinecraftEvent>,
)
    requires
        call_ensures(MinecraftEvent::into_discord, (a,), ra),
        call_ensures(MinecraftEvent::into_discord, (b,), rb),
        log_parser::is_player_name(username),
        log_parser::player_of(a@) == Some(username),
        log_parser::player_of(b@) == Some(username),
        sort_of(a@) != sort_of(b@),
        sort_of(a@) > 0,
        sort_of(b@) > 0,
    ensures
        ra is Some,
        rb is Some,
        (ra->0)@ != (rb->0)@,
        sort_of(a@) < 6 && sort_of(b@) < 6 ==> (ra->0).content@ != (rb->0).content@,
{
    law_events_are_told_apart(a@, b@, username);
}

/// Only the message for a player who came says that the player joined: the message for one who left
/// does not hold these words, nor does that for one who came say that the player left.
pub proof fn law_coming_is_not_leaving(username: Seq<char>)
    requires
        log_parser::is_player_name(username),
    ensures
        ({
            let came = types::message_for(EventView::Join { username })->0.content;
            let went = types::message_for(EventView::Leave { username })->0.content;
            &&& text::contains_text(came, "joined the game"@)
            &&& !text::contains_text(came, "left the game"@)
            &&& text::contains_text(went, "left the game"@)
            &&& !text::contains_text(went, "joined the game"@)
        }),
{
    reveal_strlit("**");
    reveal_strlit("** joined the game");
    reveal_strlit("** left the game");
    reveal_strlit("joined the game");
    reveal_strlit("left the game");
    let came = types::message_for(EventView::Join { username })->0.content;
    let went = types::message_for(EventView::Leave { username })->0.content;
    let n = username.len() as int;
    assert(came.subrange(n + 5, n + 20) =~= "joined the game"@);
    assert(text::text_at(came, n + 5, "joined the game"@));
    assert(went.subrange(n + 5, n + 18) =~= "left the game"@);
    assert(text::text_at(went, n + 5, "left the game"@));
    assert forall|i: int| !text::text_at(came, i, "left the game"@) by {
        if text::text_at(came, i, "left the game"@) {
            let w = came.subrange(i, i + 13);
            assert(w[4] == came[i + 4] && w[8] == came[i + 8] && w[0] == came[i]);
            assert(came[i + 4] == ' ' && came[i + 8] == ' ');
            assert forall|k: int| 2 <= k < n + 2 implies came[k] != ' ' by {
                assert(came[k] == username[k - 2]);
            }
            assert(i + 4 == n + 4 || i + 4 == n + 11 || i + 4 == n + 15);
        }
    }
    assert forall|i: int| !text::text_at(went, i, "joined the game"@) by {
        if text::text_at(went, i, "joined the game"@) {
            let w = went.subrange(i, i + 15);
            assert(w[6] == went[i + 6] && w[10] == went[i + 10] && w[0] == went[i]);
            assert forall|k: int| 2 <= k < n + 2 implies went[k] != ' ' by {
                assert(went[k] == username[k - 2]);
            }
            assert(i + 6 == n + 4 || i + 6 == n + 9 || i + 6 == n + 13);
        }
    }
}

/// What happens to a player other than chat: as a number that is another for each sort of event.
pub open spec fn sort_of(e: EventView) -> int {
    match e {
        EventView::Join { .. } => 1,
        EventView::Leave { .. } => 2,
        EventView::Disconnect { .. } => 3,
        EventView::Advancement { .. } => 4,
        EventView::Command { .. } => 5,
        EventView::Death { .. } => 6,
        EventView::Chat { .. } => 7,
        _ => 0,
    }
}

/// No two sorts of events of a player make the same message. Where neither is chat or a death, whose
/// words are free, the contents alone tell them apart.
pub proof fn law_events_are_told_apart(a: EventView, b: EventView, username: Seq<char>)
    requires
        log_parser::is_player_name(username),
        log_parser::player_of(a) == Some(username),
        log_parser::player_of(b) == Some(username),
        sort_of(a) != sort_of(b),
        sort_of(a) > 0,
        sort_of(b) > 0,
    ensures
        types::message_for(a) != types::message_for(b),
        sort_of(a) < 6 && sort_of(b) < 6 ==> types::message_for(a)->0.content
            != types::message_for(b)->0.content,
{
    if sort_of(a) < sort_of(b) {
        lemma_sorts(a, b, username);
    } else {
        lemma_sorts(b, a, username);
    }
}

/// The earlier sort of event makes another message than the later one.
proof fn lemma_sorts(a: EventView, b: EventView, username: Seq<char>)
    requires
        log_parser::is_player_name(username),
        log_parser::player_of(a) == Some(username),
        log_parser::player_of(b) == Some(username),
        0 < sort_of(a) < sort_of(b),
    ensures
        types::message_for(a) != types::message_for(b),
        sort_of(b) < 6 ==> types::message_for(a)->0.content != types::message_for(b)->0.content,
{
    lemma_marks(username);
    reveal_strlit("** joined the game");
    reveal_strlit("** left the game");
    reveal_strlit("** left the game (");
    reveal_strlit("** has made the advancement [");
    reveal_strlit("** used command: `");
    reveal_strlit(")");
    let none = Seq::<char>::empty();
    lemma_report(username, "** joined the game"@, none);
    lemma_report(username, "** left the game"@, none);
    assert("**"@ + username + "** joined the game"@ + none =~= "**"@ + username
        + "** joined the game"@);
    assert("**"@ + username + "** left the game"@ + none =~= "**"@ + username + "** left the game"@);
    if let EventView::Disconnect { reason, .. } = b {
        lemma_report(username, "** left the game ("@, reason + ")"@);
        assert("**"@ + username + "** left the game ("@ + (reason + ")"@) =~= "**"@ + username
            + "** left the game ("@ + reason + ")"@);
    }
    if let EventView::Disconnect { reason, .. } = a {
        lemma_report(username, "** left the game ("@, reason + ")"@);
        assert("**"@ + username + "** left the game ("@ + (reason + ")"@) =~= "**"@ + username
            + "** left the game ("@ + reason + ")"@);
    }
    if let EventView::Advancement { advancement, .. } = a {
        lemma_report(username, "** has made the advancement ["@, advancement + "]"@);
        assert("**"@ + username + "** has made the advancement ["@ + (advancement + "]"@) =~= "**"@
            + username + "** has made the advancement ["@ + advancement + "]"@);
    }
    if let EventView::Advancement { advancement, .. } = b {
        lemma_report(username, "** has made the advancement ["@, advancement + "]"@);
        assert("**"@ + username + "** has made the advancement ["@ + (advancement + "]"@) =~= "**"@
            + username + "** has made the advancement ["@ + advancement + "]"@);
    }
    if let EventView::Command { command, .. } = b {
        lemma_report(username, "** used command: `"@, command + "`"@);
        assert("**"@ + username + "** used command: `"@ + (command + "`"@) =~= "**"@ + username
            + "** used command: `"@ + command + "`"@);
    }
}

/// The symbols are no two the same, and none is a name.
proof fn lemma_marks(username: Seq<char>)
    requires
        log_parser::is_player_name(username),
    ensures
        "🟢"@ != "🔴"@,
        "🟢"@ != "⚰️"@,
        "🟢"@ != "🏆"@,
        "🟢"@ != "⌨️"@,
        "🔴"@ != "⚰️"@,
        "🔴"@ != "🏆"@,
        "🔴"@ != "⌨️"@,
        "⚰️"@ != "🏆"@,
        "⚰️"@ != "⌨️"@,
        "🏆"@ != "⌨️"@,
        username != "🟢"@,
        username != "🔴"@,
        username != "⚰️"@,
        username != "🏆"@,
        username != "⌨️"@,
{
    reveal_strlit("🟢");
    reveal_strlit("🔴");
    reveal_strlit("⚰️");
    reveal_strlit("🏆");
    reveal_strlit("⌨️");
    assert("🟢"@[0] == '🟢');
    assert("🔴"@[0] == '🔴');
    assert("🏆"@[0] == '🏆');
    assert("⚰️"@[0] == '⚰');
    assert("⌨️"@[0] == '⌨');
    assert(text::is_name_char(username[0]));
}

/// The line of the leaderboard for a rank: the rank, the name and how long the player has played.
pub open spec fn rank_line(rank: int, name: Seq<char>, secs: u64) -> Seq<char> {
    text::dec(rank as nat) + ". **"@ + name + "** — `"@ + stats::duration_text(secs as nat) + "`\n"@
}

/// The leaderboard has one line for each row, in order, and the line of a row tells its own rank,
/// its own name and its own play time, whatever the other rows are.
pub proof fn law_ranks_show_their_own_rows(rows: &[(String, PlayerStats)], r: Reply)
    requires
        call_ensures(commands::leaderboard, (rows,), r),
    ensures
        rows@.len() == 0 ==> r@ == (ReplyView::Say { text: "❌ No player stats recorded yet."@ }),
        rows@.len() > 0 ==> (r@ matches ReplyView::Show { embed } && {
            &&& embed.title == "🏆 Play Time Leaderboard"@
            &&& embed.description == Some(
                Seq::new(
                    rows@.len(),
                    |i: int| rank_line(i + 1, rows@[i].0@, rows@[i].1.total_play_time_secs),
                ).flatten(),
            )
        }),
{
    lemma_ranks(rows@);
}

/// The lines of the leaderboard, by rank.
proof fn lemma_ranks(rows: Seq<(String, PlayerStats)>)
    ensures
        commands::board_lines(rows) == Seq::new(
            rows.len(),
            |i: int| rank_line(i + 1, rows[i].0@, rows[i].1.total_play_time_secs),
        ).flatten(),
    decreases rows.len(),
{
    let lines = Seq::new(
        rows.len(),
        |i: int| rank_line(i + 1, rows[i].0@, rows[i].1.total_play_time_secs),
    );
    if rows.len() > 0 {
        let rest = rows.drop_last();
        let n = rest.len() as int;
        lemma_ranks(rest);
        let earlier = Seq::new(
            rest.len(),
            |i: int| rank_line(i + 1, rest[i].0@, rest[i].1.total_play_time_secs),
        );
        assert(lines =~= earlier.push(
            rank_line(n + 1, rows[n].0@, rows[n].1.total_play_time_secs),
        ));
        earlier.lemma_flatten_push(rank_line(n + 1, rows[n].0@, rows[n].1.total_play_time_secs));
        assert(commands::board_lines(rows) =~= commands::board_lines(rest) + rank_line(
            n + 1,
            rows[n].0@,
            rows[n].1.total_play_time_secs,
        ));
    }
}

/// The line for a player who is online: the number and the name.
pub open spec fn player_line(number: int, name: Seq<char>) -> Seq<char> {
    text::dec(number as nat) + ". `"@ + name + "`\n"@
}

/// Everybody who is listed as online has a line, in order, with the number and the player's own name.
pub proof fn law_online_players_are_listed(names: Seq<Seq<char>>, online: int)
    ensures
        names.len() > 0 ==> commands::online_text(names, online)
            == "👥 **Current Online Players:**\n\n"@ + Seq::new(
            names.len(),
            |i: int| player_line(i + 1, names[i]),
        ).flatten(),
        names.len() == 0 && online <= 0 ==> commands::online_text(names, online)
            == "*No players are currently online.*"@,
        names.len() == 0 && online > 0 ==> text::contains_text(
            commands::online_text(names, online),
            "but players are active"@,
        ),
{
    lemma_players(names);
    if names.len() == 0 && online > 0 {
        reveal_strlit("⚠️ *Failed to safely map names via RCON, but players are active.*");
        reveal_strlit("but players are active");
        let s = "⚠️ *Failed to safely map names via RCON, but players are active.*"@;
        assert(s.subrange(s.len() - 24, s.len() - 2) =~= "but players are active"@);
        assert(text::text_at(s, s.len() - 24, "but players are active"@));
    }
}

/// The lines of the players who are online, by number.
proof fn lemma_players(names: Seq<Seq<char>>)
    ensures
        commands::player_lines(names) == Seq::new(
            names.len(),
            |i: int| player_line(i + 1, names[i]),
        ).flatten(),
    decreases names.len(),
{
    let lines = Seq::new(names.len(), |i: int| player_line(i + 1, names[i]));
    if names.len() > 0 {
        let rest = names.drop_last();
        let n = rest.len() as int;
        lemma_players(rest);
        let earlier = Seq::new(rest.len(), |i: int| player_line(i + 1, rest[i]));
        assert(lines =~= earlier.push(player_line(n + 1, names[n])));
        earlier.lemma_flatten_push(player_line(n + 1, names[n]));
        assert(commands::player_lines(names) =~= commands::player_lines(rest) + player_line(
            n + 1,
            names[n],
        ));
    }
}

/// The line for a day: the day, and how long it was played, or a dash where it was not.
pub open spec fn day_line(day: (String, u64)) -> Seq<char> {
    "`"@ + day.0@ + "`: "@ + (if day.1 == 0 {
        "—"@
    } else {
        stats::duration_text(day.1 as nat)
    }) + "\n"@
}

/// The lines of days, by number.
proof fn lemma_days(days: Seq<(String, u64)>)
    ensures
        commands::day_lines(days) == Seq::new(days.len(), |i: int| day_line(days[i])).flatten(),
    decreases days.len(),
{
    let lines = Seq::new(days.len(), |i: int| day_line(days[i]));
    if days.len() > 0 {
        let rest = days.drop_last();
        let n = rest.len() as int;
        lemma_days(rest);
        let earlier = Seq::new(rest.len(), |i: int| day_line(rest[i]));
        assert(lines =~= earlier.push(day_line(days[n])));
        earlier.lemma_flatten_push(day_line(days[n]));
        assert(commands::day_lines(days) =~= commands::day_lines(rest) + day_line(days[n]));
    }
}

/// The play time page shows the whole play time, that of the days together, and each day with its
/// own time, in order.
pub proof fn law_play_time_page_shows_the_days(
    username: Seq<char>,
    s: PlayerStats,
    days: Seq<(String, u64)>,
)
    ensures
        ({
            let e = commands::playtime_embed(username, s, days);
            &&& e.title == "⏱️ Play Time: "@ + username
            &&& e.fields.len() == 3
            &&& e.fields[0] == (
                "Total"@,
                "`"@ + stats::duration_text(s.total_play_time_secs as nat) + "`"@,
                false,
            )
            &&& e.fields[1] == (
                "This Week"@,
                "`"@ + stats::duration_text(commands::total_of(days)) + "`"@,
                false,
            )
            &&& e.fields[2].0 == "Last 7 Days"@
            &&& e.fields[2].1 == Seq::new(days.len(), |i: int| day_line(days[i])).flatten()
        }),
{
    lemma_days(days);
}

/// What days come to is the sum: nothing for no days, a day's own seconds for a day, and what the
/// parts come to for a list that is made of two.
pub proof fn law_days_add_up(day: (String, u64), first: Seq<(String, u64)>, then: Seq<(String, u64)>)
    ensures
        commands::total_of(Seq::empty()) == 0,
        commands::total_of(seq![day]) == day.1,
        commands::total_of(first + then) == commands::total_of(first) + commands::total_of(then),
    decreases then.len(),
{
    assert(seq![day].drop_last() =~= Seq::<(String, u64)>::empty());
    assert(commands::total_of(seq![day].drop_last()) == 0);
    if then.len() == 0 {
        assert(first + then =~= first);
    } else {
        law_days_add_up(day, first, then.drop_last());
        assert((first + then).drop_last() =~= first + then.drop_last());
        assert((first + then).last() == then.last());
    }
}

/// The page has the field, set in line or not.
pub open spec fn has_field(e: EmbedView, name: Seq<char>, value: Seq<char>) -> bool {
    exists|i: int|
        0 <= i < e.fields.len() && (#[trigger] e.fields[i]).0 == name && e.fields[i].1 == value
}

/// The page has no field of the name.
pub open spec fn lacks_field(e: EmbedView, name: Seq<char>) -> bool {
    forall|i: int| 0 <= i < e.fields.len() ==> (#[trigger] e.fields[i]).0 != name
}

/// The page of a player's record shows each number of the record under its own name, each time that
/// is known under its own name, and no time that is not known.
pub proof fn law_record_page_shows_the_record(username: Seq<char>, s: PlayerStats)
    ensures
        ({
            let e = commands::stats_embed(username, s);
            &&& e.title == "📊 Stats: "@ + username
            &&& has_field(
                e,
                "Total Play Time"@,
                "`"@ + stats::duration_text(s.total_play_time_secs as nat) + "`"@,
            )
            &&& has_field(e, "Total Logins"@, "`"@ + text::dec(s.total_logins as nat) + "`"@)
            &&& has_field(e, "Total Deaths"@, "`"@ + text::dec(s.total_deaths as nat) + "`"@)
            &&& has_field(e, "Advancements"@, "`"@ + text::dec(s.total_advancements as nat) + "`"@)
            &&& has_field(e, "Messages Sent"@, "`"@ + text::dec(s.total_messages as nat) + "`"@)
            &&& has_field(e, "Commands Used"@, "`"@ + text::dec(s.total_commands as nat) + "`"@)
            &&& if s.first_login_ts > 0 {
                has_field(e, "First Login"@, "<t:"@ + text::dec(s.first_login_ts as nat) + ":R>"@)
            } else {
                lacks_field(e, "First Login"@)
            }
            &&& if s.last_login_ts > 0 {
                has_field(e, "Last Login"@, "<t:"@ + text::dec(s.last_login_ts as nat) + ":R>"@)
            } else {
                lacks_field(e, "Last Login"@)
            }
            &&& if s.last_logout_ts > 0 {
                has_field(e, "Last Logout"@, "<t:"@ + text::dec(s.last_logout_ts as nat) + ":R>"@)
            } else {
                lacks_field(e, "Last Logout"@)
            }
            &&& e.fields.len() == 6 + (if s.first_login_ts > 0 { 1int } else { 0 }) + (if s.last_login_ts
                > 0 { 1int } else { 0 }) + (if s.last_logout_ts > 0 { 1int } else { 0 })
        }),
{
    lemma_field_names();
    let e = commands::stats_embed(username, s);
    let f = e.fields;
    assert(f[0].0 == "Total Play Time"@ && f[1].0 == "Total Logins"@ && f[2].0 == "Total Deaths"@
        && f[3].0 == "Advancements"@ && f[4].0 == "Messages Sent"@ && f[5].0 == "Commands Used"@);
    let a: int = if s.first_login_ts > 0 {
        1
    } else {
        0
    };
    let b: int = if s.last_login_ts > 0 {
        1
    } else {
        0
    };
    if s.first_login_ts > 0 {
        assert(f[6] == ("First Login"@, commands::since(s.first_login_ts), true));
    }
    if s.last_login_ts > 0 {
        assert(f[6 + a] == ("Last Login"@, commands::since(s.last_login_ts), true));
    }
    if s.last_logout_ts > 0 {
        assert(f[6 + a + b] == ("Last Logout"@, commands::since(s.last_logout_ts), true));
    }
}

/// The names of the fields of a record are no two the same.
proof fn lemma_field_names()
    ensures
        "First Login"@ != "Last Login"@,
        "First Login"@ != "Last Logout"@,
        "Last Login"@ != "Last Logout"@,
        "Total Play Time"@ != "First Login"@,
        "Total Play Time"@ != "Last Login"@,
        "Total Play Time"@ != "Last Logout"@,
        "Total Logins"@ != "First Login"@,
        "Total Logins"@ != "Last Login"@,
        "Total Logins"@ != "Last Logout"@,
        "Total Deaths"@ != "First Login"@,
        "Total Deaths"@ != "Last Login"@,
        "Total Deaths"@ != "Last Logout"@,
        "Advancements"@ != "First Login"@,
        "Advancements"@ != "Last Login"@,
        "Advancements"@ != "Last Logout"@,
        "Messages Sent"@ != "First Login"@,
        "Messages Sent"@ != "Last Login"@,
        "Messages Sent"@ != "Last Logout"@,
        "Commands Used"@ != "First Login"@,
        "Commands Used"@ != "Last Login"@,
        "Commands Used"@ != "Last Logout"@,
{
    reveal_strlit("Total Play Time");
    reveal_strlit("Total Logins");
    reveal_strlit("Total Deaths");
    reveal_strlit("Advancements");
    reveal_strlit("Messages Sent");
    reveal_strlit("Commands Used");
    reveal_strlit("First Login");
    reveal_strlit("Last Login");
    reveal_strlit("Last Logout");
    assert("Last Login"@.len() == 10 && "Last Logout"@.len() == 11);
    assert("First Login"@[0] == 'F' && "Last Login"@[0] == 'L' && "Last Logout"@[0] == 'L');
    assert("Total Play Time"@[0] == 'T' && "Total Logins"@[0] == 'T' && "Total Deaths"@[0] == 'T'
        && "Advancements"@[0] == 'A' && "Messages Sent"@[0] == 'M' && "Commands Used"@[0] == 'C');
}

/// Of a player of whom nothing is known, that is said, with the name; a player whose record is known
/// is shown the page of the record.
pub proof fn law_stats_are_those_of_the_player(
    username: &str,
    uuid: Result<Option<String>, StorageError>,
    record: Result<Option<PlayerStats>, StorageError>,
    r: Reply,
)
    requires
        call_ensures(commands::stats, (username, uuid, record), r),
    ensures
        match (uuid, record) {
            (Ok(Some(_)), Ok(Some(s))) => r@ == (ReplyView::Show {
                embed: commands::stats_embed(username@, s),
            }),
            (Ok(Some(_)), _) => r@ == (ReplyView::Say {
                text: "❌ No stats recorded for player `"@ + username@ + "`."@,
            }),
            _ => r@ == (ReplyView::Say {
                text: "❌ No data found for player `"@ + username@ + "`."@,
            }),
        },
{
}

/// The same holds of the play time; where the days cannot be read there are none.
pub proof fn law_play_time_is_that_of_the_player(
    username: &str,
    uuid: Result<Option<String>, StorageError>,
    record: Result<Option<PlayerStats>, StorageError>,
    recent: Result<Vec<(String, u64)>, StorageError>,
    r: Reply,
)
    requires
        call_ensures(commands::playtime, (username, uuid, record, recent), r),
    ensures
        match (uuid, record, recent) {
            (Ok(Some(_)), Ok(Some(s)), Ok(days)) => r@ == (ReplyView::Show {
                embed: commands::playtime_embed(username@, s, days@),
            }),
            (Ok(Some(_)), Ok(Some(s)), Err(_)) => r@ == (ReplyView::Show {
                embed: commands::playtime_embed(username@, s, Seq::empty()),
            }),
            (Ok(Some(_)), _, _) => r@ == (ReplyView::Say {
                text: "❌ No play time recorded for player `"@ + username@ + "`."@,
            }),
            _ => r@ == (ReplyView::Say {
                text: "❌ No data found for player `"@ + username@ + "`."@,
            }),
        },
{
}

/// A command is about the player who is named, or else about the one of the author's name.
pub proof fn law_commands_are_about_the_named_player(
    player: Option<String>,
    author_name: &str,
    r: String,
)
    requires
        call_ensures(commands::target_player, (player, author_name), r),
    ensures
        player matches Some(name) ==> r@ == name@,
        player is None ==> r@ == author_name@,
{
}

/// The page of the server shows how many play of how many who may, and how long the server took to
/// answer, as the server said; without an answer it says so of nobody and twenty.
pub proof fn law_server_page_shows_the_status(
    reply: Result<String, String>,
    status: Option<ServerStatus>,
    r: (Embed, Option<Vec<u8>>),
)
    requires
        call_ensures(commands::info, (reply, status), r),
    ensures
        ({
            let e = r.0@;
            &&& e.fields.len() == 2
            &&& match status {
                Some(ServerStatus { java: Some(j), .. }) => {
                    &&& e.title == "🎮 "@ + j.description@
                    &&& has_field(
                        e,
                        "Players Online"@,
                        "`"@ + text::dec_int(j.online as int) + "/"@ + text::dec_int(j.max as int)
                            + "`"@,
                    )
                },
                _ => {
                    &&& e.title == "🎮 "@ + "Minecraft Server Status"@
                    &&& has_field(
                        e,
                        "Players Online"@,
                        "`"@ + text::dec_int(0) + "/"@ + text::dec_int(20) + "`"@,
                    )
                },
            }
            &&& match status {
                Some(s) => has_field(e, "Latency"@, "`"@ + s.latency@ + "ms`"@),
                None => has_field(e, "Latency"@, "`"@ + "0.0"@ + "ms`"@),
            }
            &&& e.thumbnail is Some <==> r.1 is Some
            &&& reply matches Ok(list) ==> e.description == Some(
                commands::online_text(
                    commands::listed_names(list@),
                    match status {
                        Some(ServerStatus { java: Some(j), .. }) => j.online as int,
                        _ => 0,
                    },
                ),
            )
        }),
{
    let e = r.0@;
    assert(e.fields[0].0 == "Players Online"@);
    assert(e.fields[1].0 == "Latency"@);
}

/// The list of commands has a field for each, in order, with its own name and its own description.
pub proof fn law_every_command_is_listed(
    all: &[CommandInfo],
    storage: &Storage,
    author_id: u64,
    r: Reply,
    i: int,
)
    requires
        call_ensures(commands::help, (all, &None::<String>, storage, author_id), r),
        0 <= i < all@.len(),
    ensures
        r@ matches ReplyView::Show { embed } && {
            &&& embed.fields.len() == all@.len()
            &&& embed.fields[i].0 == "`~"@ + all@[i].name@ + "`"@
            &&& embed.fields[i].1 == match all@[i].description {
                Some(d) => d@,
                None => "No description provided."@,
            }
        },
{
}

/// The footer of the list tells whether the privacy features are off, or else whether the user is
/// still to be linked: no two of these read the same.
pub proof fn law_footer_tells_how_to_go_on(all: Seq<CommandInfo>, privacy: bool, connected: bool)
    ensures
        commands::help_reply(all, None, privacy, connected) matches ReplyView::Show { embed }
            && embed.footer matches Some(footer) && {
            &&& !privacy <==> footer
                == "🔓 Privacy features are disabled by the bot owner. Connect/sub/mute commands have no effect."@
            &&& privacy && !connected <==> footer
                == "💡 Use /connect <mc-username> to link your account — required for your messages to reach Minecraft."@
        },
{
    reveal_strlit(
        "🔓 Privacy features are disabled by the bot owner. Connect/sub/mute commands have no effect.",
    );
    reveal_strlit(
        "💡 Use /connect <mc-username> to link your account — required for your messages to reach Minecraft.",
    );
    reveal_strlit("Use ~command or \"hey reze, command\" to use any of these commands");
    assert(
        "🔓 Privacy features are disabled by the bot owner. Connect/sub/mute commands have no effect."@[0]
            == '🔓');
    assert(
        "💡 Use /connect <mc-username> to link your account — required for your messages to reach Minecraft."@[0]
            == '💡');
    assert("Use ~command or \"hey reze, command\" to use any of these commands"@[0] == 'U');
}

/// Who asks for help on a command is shown the first command of that name, with its help or else its
/// description; who asks for one that there is not is told so.
pub proof fn law_help_is_on_the_command(
    all: Seq<CommandInfo>,
    name: Seq<char>,
    privacy: bool,
    connected: bool,
    i: int,
)
    ensures
        0 <= i < all.len() && all[i].name@ == name && (forall|j: int|
            0 <= j < i ==> (#[trigger] all[j]).name@ != name) ==> (commands::help_reply(
            all,
            Some(name),
            privacy,
            connected,
        ) matches ReplyView::Show { embed } && embed.title == "ℹ️ Detailed Help: /"@ + name
            && embed.description == Some(
            match (all[i].help_text, all[i].description) {
                (Some(help), _) => help@,
                (None, Some(d)) => d@,
                (None, None) => "No detailed documentation available for this command."@,
            },
        )),
        (forall|j: int| 0 <= j < all.len() ==> (#[trigger] all[j]).name@ != name)
            ==> commands::help_reply(all, Some(name), privacy, connected) == (ReplyView::Say {
            text: "❌ Command `"@ + name + "` not found."@,
        }),
    decreases all.len(),
{
    if all.len() > 0 && all[0].name@ != name {
        let rest = all.skip(1);
        assert forall|j: int| 0 <= j < rest.len() implies #[trigger] rest[j] == all[j + 1] by {}
        law_help_is_on_the_command(rest, name, privacy, connected, i - 1);
        if 0 <= i < all.len() && all[i].name@ == name && (forall|j: int|
            0 <= j < i ==> (#[trigger] all[j]).name@ != name) {
            assert(i > 0);
            assert(rest[i - 1] == all[i]);
            assert forall|j: int| 0 <= j < i - 1 implies (#[trigger] rest[j]).name@ != name by {
                assert(rest[j] == all[j + 1]);
            }
        }
        if forall|j: int| 0 <= j < all.len() ==> (#[trigger] all[j]).name@ != name {
            assert forall|j: int| 0 <= j < rest.len() implies (#[trigger] rest[j]).name@ != name by {
                assert(rest[j] == all[j + 1]);
            }
        }
    }
}

/// The database has done what it was asked to do.
pub open spec fn is_done(saved: Outcome<()>) -> bool {
    saved is Done
}

/// A request to link accounts is taken exactly where the privacy features are on, the name is one
/// that a player can have, neither the user nor the name is linked, and no request of the user waits.
/// One that is not taken changes nothing; one that is taken asks for a code of sixteen digits, under
/// which it waits, for this user and this name, for thirty seconds.
pub proof fn law_requests_are_taken_or_refused(
    storage: &Storage,
    pending: &mut PendingVerifications,
    discord_id: u64,
    mc_username: &str,
    now: u64,
    r: Reply,
)
    requires
        call_ensures(commands::connect, (storage, pending, discord_id, mc_username, now), r),
    ensures
        ({
            let m = storage@;
            let mc = mc_username@;
            let taken = m.privacy_enabled && 3 <= mc.len() <= 16 && (forall|i: int|
                0 <= i < mc.len() ==> text::is_name_char(#[trigger] mc[i])) && accounts::mc_of(
                m.accounts,
                discord_id,
            ) is None && accounts::dc_of(m.accounts, mc) is None && (forall|k: Seq<char>| #[trigger]
                old(pending)@.contains_key(k) ==> old(pending)@[k].discord_user_id != discord_id);
            &&& !taken ==> final(pending)@ == old(pending)@ && r@ is Say
            &&& taken ==> exists|code: Seq<char>|
                #![trigger final(pending)@.contains_key(code)]
                {
                    &&& code.len() == 16
                    &&& forall|i: int|
                        0 <= i < 16 ==> '0' <= #[trigger] code[i] <= '9' || 'A' <= code[i] <= 'F'
                    &&& final(pending)@.contains_key(code)
                    &&& final(pending)@[code].discord_user_id == discord_id
                    &&& final(pending)@[code].mc_username@ == mc
                    &&& final(pending)@[code].expires_at == now + 30_000
                    &&& final(pending)@[code].attempts == 0
                    &&& forall|k: Seq<char>|
                        k != code ==> #[trigger] final(pending)@.contains_key(k)
                            == old(pending)@.contains_key(k) && final(pending)@[k]
                            == old(pending)@[k]
                    &&& r@ == (ReplyView::Say {
                        text: "🔐 To verify you own `"@ + mc
                            + "`, type this in Minecraft chat within **30 seconds**:\n\n```@s CONFIRM-"@
                            + code + "```"@,
                    })
                }
        }),
{
    let m = storage@;
    let mc = mc_username@;
    if commands::connect_refusal(m, old(pending)@, discord_id, mc) is None {
        let code = choose|code: Seq<char>|
            #![trigger commands::is_code(code)]
            commands::is_code(code) && commands::requested(
                old(pending)@,
                final(pending)@,
                discord_id,
                mc,
                code,
                now,
                r@,
            );
        assert(final(pending)@.contains_key(code));
    }
}

/// Each reason for which a request is refused is told, the first that holds: that the features are
/// off, that the name is none, that the user is linked, that the name is, and that a request waits.
pub proof fn law_refusals_tell_why(
    storage: &Storage,
    pending: &PendingVerifications,
    discord_id: u64,
    mc_username: &str,
    r: Option<String>,
)
    requires
        call_ensures(commands::refuse_connect, (storage, pending, discord_id, mc_username), r),
    ensures
        ({
            let m = storage@;
            let mc = mc_username@;
            let waits = exists|k: Seq<char>| #[trigger]
                pending@.contains_key(k) && pending@[k].discord_user_id == discord_id;
            text::text_view(r) == if !m.privacy_enabled {
                Some("❌ Privacy features are currently disabled by the bot owner."@)
            } else if !(3 <= mc.len() <= 16 && (forall|i: int|
                0 <= i < mc.len() ==> text::is_name_char(#[trigger] mc[i]))) {
                Some(
                    "❌ Invalid Minecraft username. Must be 3–16 characters, using only letters, numbers, and underscores."@,
                )
            } else if accounts::mc_of(m.accounts, discord_id) is Some {
                Some(
                    "❌ You are already connected to a Minecraft account. Use `/disconnect` first if you want to switch."@,
                )
            } else if accounts::dc_of(m.accounts, mc) is Some {
                if accounts::dc_of(m.accounts, mc) == Some(discord_id) {
                    Some("✅ You are already connected to this Minecraft account."@)
                } else {
                    Some(
                        "❌ The Minecraft account `"@ + mc
                            + "` is already linked to another Discord user."@,
                    )
                }
            } else if waits {
                Some(
                    "❌ You already have a pending verification. Wait for it to expire (30s) or complete it first."@,
                )
            } else {
                None
            }
        }),
{
    let m = storage@;
    let mc = mc_username@;
    assert((3 <= mc.len() <= 16 && (forall|i: int|
        0 <= i < mc.len() ==> text::is_name_char(#[trigger] mc[i])))
        <==> log_parser::is_player_name(mc));
    assert((exists|k: Seq<char>| #[trigger]
        pending@.contains_key(k) && pending@[k].discord_user_id == discord_id)
        <==> commands::has_request(pending@, discord_id));
}

/// Undoing a link: whoever is linked, and whose link the database has undone, is linked no more and
/// is told with which name; all other things in memory stay. Whoever is not linked is told so, and
/// where the database failed nothing changes.
pub proof fn law_disconnecting_unlinks(
    storage: &mut Storage,
    discord_id: u64,
    saved: Outcome<()>,
    r: Result<Reply, StorageError>,
)
    requires
        call_ensures(commands::disconnect, (storage, discord_id, saved), r),
        old(storage).wf(),
        accounts::one_to_one(old(storage)@.accounts),
    ensures
        match accounts::mc_of(old(storage)@.accounts, discord_id) {
            None => final(storage)@ == old(storage)@ && (r matches Ok(reply) && reply@
                == (ReplyView::Say {
                text: "❌ You haven't connected a Minecraft account yet. Use `/connect <username>` first."@,
            })),
            Some(mc) => if is_done(saved) {
                &&& accounts::mc_of(final(storage)@.accounts, discord_id) is None
                &&& accounts::dc_of(final(storage)@.accounts, mc) is None
                &&& forall|id: u64|
                    id != discord_id ==> #[trigger] accounts::mc_of(final(storage)@.accounts, id)
                        == accounts::mc_of(old(storage)@.accounts, id)
                &&& final(storage)@ == (Memory {
                    accounts: final(storage)@.accounts,
                    ..old(storage)@
                })
                &&& r matches Ok(reply) && reply@ == (ReplyView::Say {
                    text: "🔓 Disconnected. Your Minecraft account **"@ + mc
                        + "** is no longer linked."@,
                })
            } else {
                final(storage)@ == old(storage)@ && r is Err
            },
        },
{
    if let Some(mc) = accounts::mc_of(old(storage)@.accounts, discord_id) {
        let a = old(storage)@.accounts;
        old(storage).law_accounts_are_sorted();
        accounts::lemma_same_entry(a, mc, discord_id);
        assert forall|id: u64| id != discord_id implies #[trigger] accounts::mc_of(
            accounts::without_id(a, discord_id),
            id,
        ) == accounts::mc_of(a, id) by {
            accounts::lemma_without_id(a, discord_id, mc, id);
        }
        accounts::lemma_without_id(a, discord_id, mc, discord_id);
    }
}

/// May a user change how the user takes part: the privacy features are on and the user is linked.
pub open spec fn may_change(m: Memory, discord_id: u64) -> bool {
    m.privacy_enabled && accounts::mc_of(m.accounts, discord_id) is Some
}

/// What a user who may not change how the user takes part is told: the first reason that holds.
pub proof fn law_preferences_are_refused_for_a_reason(
    storage: &Storage,
    discord_id: u64,
    r: Option<String>,
)
    requires
        call_ensures(commands::refuse_preference, (storage, discord_id), r),
    ensures
        r is None <==> may_change(storage@, discord_id),
        !storage@.privacy_enabled ==> text::text_view(r) == Some(
            "❌ Privacy features are currently disabled by the bot owner."@,
        ),
        storage@.privacy_enabled && accounts::mc_of(storage@.accounts, discord_id) is None
            ==> text::text_view(r) == Some("❌ You must `/connect` your Minecraft account first."@),
{
}

/// Only the two lists of users differ, and in these only what holds of a user.
pub open spec fn only_user_changed(before: Memory, after: Memory, id: u64) -> bool {
    &&& after == (Memory {
        join_leave_optout: after.join_leave_optout,
        mute_mention: after.mute_mention,
        ..before
    })
    &&& forall|other: u64|
        other != id ==> after.join_leave_optout.contains(other)
            == #[trigger] before.join_leave_optout.contains(other)
    &&& forall|other: u64|
        other != id ==> after.mute_mention.contains(other)
            == #[trigger] before.mute_mention.contains(other)
}

/// Leaving the bridge and coming back: after `unsub` the user takes no part, after `sub` the user
/// does again; whether the user is mentioned, and what holds of others, stays. Whoever may not
/// change this, and whose change the database has not noted, changes nothing.
pub proof fn law_leaving_the_bridge_and_coming_back(
    storage: &mut Storage,
    discord_id: u64,
    saved: Outcome<()>,
    r: Result<Reply, StorageError>,
    leaves: bool,
)
    requires
        leaves ==> call_ensures(commands::unsub, (storage, discord_id, saved), r),
        !leaves ==> call_ensures(commands::sub, (storage, discord_id, saved), r),
    ensures
        may_change(old(storage)@, discord_id) && is_done(saved) ==> {
            &&& final(storage)@.join_leave_optout.contains(discord_id) == leaves
            &&& final(storage)@.mute_mention.contains(discord_id)
                == old(storage)@.mute_mention.contains(discord_id)
            &&& only_user_changed(old(storage)@, final(storage)@, discord_id)
            &&& r matches Ok(reply) && reply@ == (ReplyView::Say {
                text: if leaves {
                    "🔇 Your Minecraft activity will no longer be broadcast in the bridge, and your Discord messages will not be relayed to Minecraft."@
                } else {
                    "🔊 Your Minecraft activity will now be broadcast in the bridge, and your Discord messages will be relayed to Minecraft."@
                },
            })
        },
        !may_change(old(storage)@, discord_id) || !is_done(saved) ==> final(storage)@
            == old(storage)@,
        !may_change(old(storage)@, discord_id) ==> r is Ok,
        may_change(old(storage)@, discord_id) && !is_done(saved) ==> r is Err,
{
}

/// Being mentioned: after `mutemention` the user is not, after `unmutemention` the user is again;
/// whether the user takes part, and what holds of others, stays. Whoever may not change this, and
/// whose change the database has not noted, changes nothing.
pub proof fn law_mentions_are_muted_and_unmuted(
    storage: &mut Storage,
    discord_id: u64,
    saved: Outcome<()>,
    r: Result<Reply, StorageError>,
    mutes: bool,
)
    requires
        mutes ==> call_ensures(commands::mutemention, (storage, discord_id, saved), r),
        !mutes ==> call_ensures(commands::unmutemention, (storage, discord_id, saved), r),
    ensures
        may_change(old(storage)@, discord_id) && is_done(saved) ==> {
            &&& final(storage)@.mute_mention.contains(discord_id) == mutes
            &&& final(storage)@.join_leave_optout.contains(discord_id)
                == old(storage)@.join_leave_optout.contains(discord_id)
            &&& only_user_changed(old(storage)@, final(storage)@, discord_id)
            &&& r matches Ok(reply) && reply@ == (ReplyView::Say {
                text: if mutes {
                    "🔕 You will not be pinged when your Minecraft name is mentioned in chat."@
                } else {
                    "🔔 You will be pinged when your Minecraft name is mentioned in chat."@
                },
            })
        },
        !may_change(old(storage)@, discord_id) || !is_done(saved) ==> final(storage)@
            == old(storage)@,
        !may_change(old(storage)@, discord_id) ==> r is Ok,
        may_change(old(storage)@, discord_id) && !is_done(saved) ==> r is Err,
{
}

/// Turning the privacy features on leaves them on, turning them off leaves them off, and asking
/// leaves them as they are; nothing else in memory changes, and nothing at all where the database
/// failed. Asking tells how they are.
pub proof fn law_privacy_is_turned_on_and_off(
    storage: &mut Storage,
    action: PrivacyAction,
    saved: Outcome<()>,
    r: Result<Reply, StorageError>,
)
    requires
        call_ensures(commands::privacy, (storage, action, saved), r),
    ensures
        final(storage)@ == (Memory {
            privacy_enabled: final(storage)@.privacy_enabled,
            ..old(storage)@
        }),
        action is Enable && is_done(saved) ==> final(storage)@.privacy_enabled,
        action is Disable && is_done(saved) ==> !final(storage)@.privacy_enabled,
        action is Status || !is_done(saved) ==> final(storage)@ == old(storage)@,
        r is Ok <==> action is Status || is_done(saved),
        action is Status ==> (r matches Ok(reply) && reply@ == (ReplyView::Say {
            text: "**Privacy features** are currently **"@ + (if old(storage)@.privacy_enabled {
                "🔒 enabled"@
            } else {
                "🔓 disabled"@
            }) + "**.\n\nUse `/privacy enable` or `/privacy disable` to toggle."@,
        })),
        action is Enable && is_done(saved) ==> (r matches Ok(reply) && reply@ == (ReplyView::Say {
            text: "🔒 **Privacy features enabled.**\n\nDC→MC requires /connect, MC→DC respects /unsub, and cross-chat mentions are active."@,
        })),
        action is Disable && is_done(saved) ==> (r matches Ok(reply) && reply@ == (ReplyView::Say {
            text: "🔓 **Privacy features disabled.**\n\nThe bridge is an open pipe in both directions."@,
        })),
{
}

/// The words that turn the privacy features on and off, in small or capital letters; every other
/// word, and none, asks how they are.
pub proof fn law_words_turn_privacy_on_and_off(action: &Option<String>, r: PrivacyAction)
    requires
        call_ensures(commands::read_privacy_action, (action,), r),
    ensures
        ({
            let word = match *action {
                Some(s) => text::upper_text(s@),
                None => Seq::empty(),
            };
            &&& r is Enable <==> word == "ENABLE"@ || word == "ON"@
            &&& r is Disable <==> word == "DISABLE"@ || word == "OFF"@
        }),
{
    reveal_strlit("ENABLE");
    reveal_strlit("ON");
    reveal_strlit("DISABLE");
    reveal_strlit("OFF");
    reveal_strlit("enable");
    reveal_strlit("on");
    reveal_strlit("disable");
    reveal_strlit("off");
    if let Some(s) = *action {
        lemma_word_in_capitals(s@, "enable"@, "ENABLE"@);
        lemma_word_in_capitals(s@, "on"@, "ON"@);
        lemma_word_in_capitals(s@, "disable"@, "DISABLE"@);
        lemma_word_in_capitals(s@, "off"@, "OFF"@);
    }
    assert("ENABLE"@.len() == 6 && "ON"@.len() == 2 && "DISABLE"@.len() == 7 && "OFF"@.len() == 3);
}

/// A text is a word in small or capital letters where its capitals are those of the word.
proof fn lemma_word_in_capitals(s: Seq<char>, word: Seq<char>, capitals: Seq<char>)
    requires
        word.len() == capitals.len(),
        forall|i: int|
            0 <= i < word.len() ==> 'a' <= #[trigger] word[i] <= 'z' && capitals[i] as int
                == word[i] as int - 32,
    ensures
        commands::is_word(s, word) <==> text::upper_text(s) == capitals,
{
    let up = text::upper_text(s);
    if commands::is_word(s, word) {
        assert forall|i: int| 0 <= i < up.len() implies up[i] == capitals[i] by {
            let c = s[i];
            let w = word[i];
            assert('a' <= w <= 'z' && capitals[i] as int == w as int - 32);
            assert(text::lower(c) == text::lower(w));
            assert(text::lower(w) == w);
            assert(up[i] == text::upper(c));
        }
        assert(up =~= capitals);
    }
    if up == capitals {
        assert(up.len() == s.len());
        assert forall|i: int| 0 <= i < word.len() implies text::lower(#[trigger] s[i])
            == text::lower(word[i]) by {
            assert(up[i] == text::upper(s[i]));
            assert(capitals[i] as int == word[i] as int - 32);
        }
    }
}

/// The owners, and no others, may give the commands of the owner; with them the administrators may
/// give those of the administrators.
pub proof fn law_only_owners_may(
    owners: &[u64],
    author_id: u64,
    admin: Option<bool>,
    owner: Option<String>,
    either: Option<String>,
)
    requires
        call_ensures(commands::is_owner, (owners, author_id), owner),
        call_ensures(commands::is_owner_or_admin, (owners, author_id, admin), either),
    ensures
        owner is None <==> exists|i: int| 0 <= i < owners@.len() && #[trigger] owners@[i] == author_id,
        either is None <==> owner is None || admin == Some(true),
        owner is Some ==> text::text_view(owner) == Some(
            "❌ **Access Denied:** This command is restricted to the Bot Owner."@,
        ),
        either is Some ==> text::text_view(either) == Some(
            "❌ **Access Denied:** This command is restricted to the Bot Owner and Server Administrators."@,
        ),
{
}

/// Whatever the bridge was bound to, it is bound to the channel in which that is asked for, in memory
/// and in the database, which otherwise stays as it is.
pub proof fn law_the_bridge_is_bound_where_asked(
    bridge: &mut Option<u64>,
    storage: &Storage,
    channel_id: u64,
    guild_id: Option<u64>,
    r: (Reply, Vec<RowWrite>),
    t: Tables,
)
    requires
        call_ensures(commands::start_bridge, (bridge, storage, channel_id, guild_id), r),
    ensures
        *final(bridge) == Some(channel_id),
        ({
            let after = tables::written_all(t, r.1@);
            &&& after.bridge matches Some(row) && row.0 == channel_id && (guild_id matches Some(id)
                ==> row.1 == id) && (guild_id is None ==> row.1 == 0) && row.2
                == storage@.mc_server_address
            &&& after == (Tables { bridge: after.bridge, ..t })
        }),
        r.0@ == (ReplyView::Say {
            text: "🟢 **Bridge Established!** Minecraft chat will now sync to <#"@ + text::dec(
                channel_id as nat,
            ) + ">."@,
        }),
{
}

/// The bridge is unbound where it is bound to the channel in which that is asked for, in memory and
/// in the database, which otherwise stays as it is. Elsewhere nothing changes, and that is said.
pub proof fn law_the_bridge_is_unbound_where_bound(
    bridge: &mut Option<u64>,
    storage: &Storage,
    channel_id: u64,
    r: (Reply, Option<Vec<RowWrite>>),
    t: Tables,
)
    requires
        call_ensures(commands::stop_bridge, (bridge, storage, channel_id), r),
    ensures
        *old(bridge) == Some(channel_id) ==> {
            &&& *final(bridge) is None
            &&& r.1 matches Some(ws) && tables::written_all(t, ws@) == (Tables { bridge: None, ..t })
            &&& r.0@ matches ReplyView::Show { embed } && embed.title == "🛑 Bridge Severed!"@
                && embed.description == Some(
                "The live-chat stream to <#"@ + text::dec(channel_id as nat)
                    + "> has been disconnected."@,
            )
        },
        *old(bridge) != Some(channel_id) ==> {
            &&& *final(bridge) == *old(bridge)
            &&& r.1 is None
            &&& r.0@ == (ReplyView::Say {
                text: "❌ This channel (<#"@ + text::dec(channel_id as nat)
                    + ">) isn't currently bound to an active bridge."@,
            })
        },
{
}

/// The value of a hexadecimal digit.
pub open spec fn hex_value(c: char) -> int {
    if '0' <= c <= '9' {
        c as int - '0' as int
    } else {
        c as int - 'A' as int + 10
    }
}

/// The value of hexadecimal digits.
pub open spec fn hex_number(s: Seq<char>) -> int
    decreases s.len(),
{
    if s.len() == 0 {
        0
    } else {
        hex_number(s.drop_last()) * 16 + hex_value(s.last())
    }
}

/// A code has sixteen hexadecimal digits with capital letters, and they are those of its value: read
/// back they give it, so that no two values have the same code.
pub proof fn law_codes_are_their_values(value: u64, r: String)
    requires
        call_ensures(commands::code_of, (value,), r),
    ensures
        r@.len() == 16,
        forall|i: int| 0 <= i < 16 ==> '0' <= #[trigger] r@[i] <= '9' || 'A' <= r@[i] <= 'F',
        hex_number(r@) == value,
{
    lemma_hex(value as nat, 16);
    assert(value as int % 0x1_0000_0000_0000_0000 == value as int);
    lemma_sixteen_places();
}

/// What sixteen hexadecimal digits can count.
proof fn lemma_sixteen_places()
    ensures
        places(16) == 0x1_0000_0000_0000_0000,
{
    reveal_with_fuel(places, 17);
}

/// How many numbers can be written with some hexadecimal digits.
pub open spec fn places(width: nat) -> nat
    decreases width,
{
    if width == 0 {
        1
    } else {
        16 * places((width - 1) as nat)
    }
}

/// The digits read back.
proof fn lemma_hex(n: nat, width: nat)
    ensures
        places(width) > 0,
        commands::hex_text(n, width).len() == width,
        forall|i: int|
            0 <= i < width ==> '0' <= #[trigger] commands::hex_text(n, width)[i] <= '9' || 'A'
                <= commands::hex_text(n, width)[i] <= 'F',
        hex_number(commands::hex_text(n, width)) == n % places(width),
    decreases width,
{
    if width > 0 {
        let w = (width - 1) as nat;
        lemma_hex(n / 16, w);
        let s = commands::hex_text(n, width);
        let rest = commands::hex_text(n / 16, w);
        assert(s == rest.push(commands::hex_digit(n % 16)));
        assert(s.drop_last() =~= rest);
        assert forall|i: int| 0 <= i < width implies '0' <= #[trigger] s[i] <= '9' || 'A' <= s[i]
            <= 'F' by {
            if i < w {
                assert(s[i] == rest[i]);
            }
        }
        let p = places(w);
        assert((n / 16) % p * 16 + n % 16 == n % (16 * p)) by (nonlinear_arith)
            requires
                p > 0,
        {
            let q = n / 16;
            let a = q / p;
            let b = q % p;
            assert(q == p * a + b && 0 <= b < p);
            assert(n == 16 * q + n % 16);
            assert(n == (16 * p) * a + (16 * b + n % 16));
            assert(0 <= 16 * b + n % 16 < 16 * p);
            assert(n % (16 * p) == 16 * b + n % 16);
        }
    }
}

/// Of the players the first are shown, in order, no more than ten: each that is shown is the one at
/// its place, and one is left out only once ten are shown.
pub proof fn law_the_first_ten_are_shown(
    rows: Vec<(String, Option<String>, PlayerStats)>,
    r: Vec<(String, Option<String>, PlayerStats)>,
)
    requires
        call_ensures(
            commands::top_players,
            (Ok::<Vec<(String, Option<String>, PlayerStats)>, StorageError>(rows),),
            r,
        ),
    ensures
        r@.len() <= 10,
        r@.len() <= rows@.len(),
        r@.len() < rows@.len() ==> r@.len() == 10,
        forall|i: int| 0 <= i < r@.len() ==> #[trigger] r@[i] == rows@[i],
{
}

/// A player whose name is known is listed by the name.
pub proof fn law_known_players_are_listed_by_name(name: String, uuid: &str, r: Option<String>)
    requires
        call_ensures(commands::listed_name, (Some(name), uuid), r),
    ensures
        text::text_view(r) == Some(name@),
{
}

/// A framed message holds what it is given, in each of its parts, and keeps what it had.
pub proof fn law_embeds_hold_what_they_are_given(
    title: String,
    color: u32,
    made: Embed,
    description: String,
    described: Embed,
    picture: String,
    pictured: Embed,
    footer: String,
    footed: Embed,
    name: String,
    value: String,
    inline: bool,
    more: Embed,
)
    requires
        call_ensures(Embed::new, (title, color), made),
        call_ensures(Embed::described, (made, description), described),
        call_ensures(Embed::pictured, (described, picture), pictured),
        call_ensures(Embed::footed, (pictured, footer), footed),
        call_ensures(Embed::with_field, (footed, name, value, inline), more),
    ensures
        more@.title == title@,
        more@.color == color,
        more@.description == Some(description@),
        more@.thumbnail == Some(picture@),
        more@.footer == Some(footer@),
        more@.fields == seq![(name@, value@, inline)],
        made@.description is None && made@.thumbnail is None && made@.footer is None,
{
    assert(more@.fields =~= seq![(name@, value@, inline)]);
}

/// The pages have their colours, and nothing but what they show.
pub proof fn law_pages_have_their_colours(
    username: Seq<char>,
    s: PlayerStats,
    days: Seq<(String, u64)>,
    rows: Seq<(String, PlayerStats)>,
)
    requires
        rows.len() > 0,
    ensures
        ({
            let record = commands::stats_embed(username, s);
            let time = commands::playtime_embed(username, s, days);
            let board = commands::leaderboard_reply(rows)->embed;
            &&& record.color == 0x3498db && time.color == 0x2ecc71 && board.color == 0xf1c40f
            &&& record.description is None && time.description is None && board.fields.len() == 0
            &&& record.footer is None && time.footer is None && board.footer is None
            &&& record.thumbnail is None && time.thumbnail is None && board.thumbnail is None
        }),
{
}

/// ASCII takes a byte for each character.
proof fn lemma_ascii_size(s: Seq<char>)
    requires
        forall|i: int| 0 <= i < s.len() ==> #[trigger] s[i] <= '\u{7f}',
    ensures
        commands::utf8_size(s) == s.len(),
    decreases s.len(),
{
    if s.len() > 0 {
        let rest = s.drop_last();
        assert forall|i: int| 0 <= i < rest.len() implies #[trigger] rest[i] <= '\u{7f}' by {
            assert(rest[i] == s[i]);
        }
        lemma_ascii_size(rest);
        assert(s[s.len() - 1] <= '\u{7f}');
    }
}

/// A player whose name is not known is listed by the first eight characters of the UUID, which is
/// plain ASCII.
pub proof fn law_unknown_players_are_listed_by_uuid(uuid: &str, short: String)
    requires
        call_ensures(commands::listed_name, (None::<String>, uuid), Some(short)),
        forall|i: int| 0 <= i < uuid@.len() ==> #[trigger] uuid@[i] <= '\u{7f}',
    ensures
        uuid@.len() >= 8,
        short@ == uuid@.take(8),
{
    assert forall|i: int| 0 <= i < short@.len() implies #[trigger] short@[i] <= '\u{7f}' by {
        assert(short@[i] == uuid@[i]);
    }
    lemma_ascii_size(short@);
    assert(short@ =~= uuid@.take(8));
}

/// An address is written as the host, a colon and the port; without a port as the host alone, and
/// without a host as this machine.
pub proof fn law_addresses_are_written(address: &ServerAddress, r: String)
    requires
        call_ensures(commands::url_to_hostport, (address,), r),
    ensures
        ({
            let host = match address@.host {
                Some(h) => h,
                None => "localhost"@,
            };
            &&& host.is_prefix_of(r@)
            &&& address@.port is None ==> r@ == host
            &&& address@.port matches Some(port) ==> r@.skip(host.len() as int) == ":"@
                + text::dec(port as nat)
        }),
{
    let host = match address@.host {
        Some(h) => h,
        None => "localhost"@,
    };
    if let Some(port) = address@.port {
        assert(r@.skip(host.len() as int) =~= ":"@ + text::dec(port as nat));
    }
}

/// An address without a scheme is read as the same address with the scheme of the game.
pub proof fn law_addresses_need_no_scheme(
    raw: &str,
    full: &str,
    a: ServerAddress,
    b: ServerAddress,
)
    requires
        call_ensures(commands::parse_mc_address, (raw,), a),
        call_ensures(commands::parse_mc_address, (full,), b),
        !text::contains_text(raw@, "://"@),
        full@ == "mc://"@ + raw@,
    ensures
        a@ == b@,
{
    reveal_strlit("mc://");
    reveal_strlit("://");
    assert(full@.subrange(2, 5) =~= "://"@);
    assert(text::text_at(full@, 2, "://"@));
}

/// An icon is read from behind the head of a data URL as it is alone.
pub proof fn law_icons_need_no_head(
    with_head: &Option<ServerStatus>,
    alone: &Option<ServerStatus>,
    a: Option<Vec<u8>>,
    b: Option<Vec<u8>>,
    head: String,
    icon: String,
)
    requires
        call_ensures(commands::server_icon, (with_head,), a),
        call_ensures(commands::server_icon, (alone,), b),
        with_head matches Some(s) && s.java matches Some(j) && j.favicon == Some(head),
        alone matches Some(s) && s.java matches Some(j) && j.favicon == Some(icon),
        head@ == "data:image/png;base64,"@ + icon@,
        !("data:image/png;base64,"@.is_prefix_of(icon@)),
    ensures
        a is Some == b is Some,
        a is Some ==> (a->0)@ == (b->0)@,
{
    let p = "data:image/png;base64,"@;
    assert(head@.subrange(0, p.len() as int) =~= p);
    assert(head@.skip(p.len() as int) =~= icon@);
    assert(!text::text_at(icon@, 0, p)) by {
        if text::text_at(icon@, 0, p) {
            assert forall|i: int| 0 <= i < p.len() implies p[i] == icon@[i] by {
                assert(icon@.subrange(0, p.len() as int)[i] == icon@[i]);
            }
            assert(p.is_prefix_of(icon@));
        }
    }
}

} // verus!
