//! What holds of the messages that cross the bridge.

use crate::bot::embed::Embed;
use crate::bot::handler;
use crate::bot::handler::{DiscordEvent, DiscordMessage, Forwarding, ForwardingView, Reaction};
use crate::bot::mentions;
use crate::bot::types::{FromDiscordEvent, FromMinecraftEvent, PendingVerification};
use crate::bot::verification;
use crate::bot::verification::{PendingVerifications, Verdict};
use crate::log_laws;
use crate::log_parser;
use crate::storage::accounts;
use crate::storage::tables;
use crate::storage::tables::{RowWrite, Tables};
use crate::storage::{Memory, Storage};
use crate::text;
use crate::text_laws;
use vstd::prelude::*;
use vstd::string::*;

verus! {

/// The player of a name is linked with a Discord user who has asked not to take part.
pub open spec fn stays_out(m: Memory, name: Seq<char>) -> bool {
    exists|id: u64|
        accounts::dc_of(m.accounts, name) == Some(id) && #[trigger] m.join_leave_optout.contains(id)
}

/// A message from Minecraft is withheld exactly where the privacy features are on and it tells of a
/// player who stays out; every other message is passed on under the name of who speaks. What the
/// server reports is passed on word by word, and so is chat while the privacy features are off.
pub proof fn law_messages_are_passed_on(
    event: &FromMinecraftEvent,
    storage: &Storage,
    r: Forwarding,
)
    requires
        call_ensures(handler::pass_on, (event, storage), r),
    ensures
        r@ is Nothing <==> storage@.privacy_enabled && event.mc_username@.len() > 0 && stays_out(
            storage@,
            event.mc_username@,
        ),
        !(r@ is Nothing) ==> (r@ matches ForwardingView::Forward { text } && ("**"@
            + event.username@ + "**: "@).is_prefix_of(text)),
        r@ is Forward && (!storage@.privacy_enabled || event.username@ != event.mc_username@
            || event.mc_username@.len() == 0) ==> r@ == (ForwardingView::Forward {
            text: "**"@ + event.username@ + "**: "@ + event.content@,
        }),
{
    if storage@.privacy_enabled && event.mc_username@.len() > 0 && stays_out(
        storage@,
        event.mc_username@,
    ) {
        let id = choose|id: u64|
            accounts::dc_of(storage@.accounts, event.mc_username@) == Some(id)
                && #[trigger] storage@.join_leave_optout.contains(id);
        assert(handler::is_withheld(event@, storage@));
    }
}

/// Chat that is passed on while the privacy features are on is passed on as the mentions in it make
/// it, spoken by its player.
pub proof fn law_chat_is_passed_on_with_mentions(
    event: &FromMinecraftEvent,
    storage: &Storage,
    r: Forwarding,
    said: &str,
    speaker: &str,
    content: String,
)
    requires
        call_ensures(handler::pass_on, (event, storage), r),
        call_ensures(mentions::process_mc_mentions, (said, speaker, storage), content),
        said@ == event.content@,
        speaker@ == event.mc_username@,
        event.username@ == event.mc_username@,
        event.mc_username@.len() > 0,
        storage@.privacy_enabled,
        r@ is Forward,
    ensures
        r@ == (ForwardingView::Forward {
            text: "**"@ + event.username@ + "**: "@ + content@,
        }),
{
}

/// Where no channel is bridged nothing is passed on and no code is taken; where one is, a message that
/// confirms no code is passed on as it is alone.
pub proof fn law_nothing_crosses_without_a_bridge(
    event: &FromMinecraftEvent,
    bridge: Option<u64>,
    pending: &mut PendingVerifications,
    storage: &Storage,
    now: u64,
    r: Forwarding,
    alone: Forwarding,
)
    requires
        call_ensures(handler::forward_event, (event, bridge, pending, storage, now), r),
        call_ensures(handler::pass_on, (event, storage), alone),
    ensures
        bridge is None ==> r@ is Nothing && final(pending)@ == old(pending)@,
        bridge is Some && log_parser::confirmed_code(event.content@) is None ==> r@ == alone@
            && final(pending)@ == old(pending)@,
        bridge is Some && log_parser::confirmed_code(event.content@) is Some ==> !(r@ is Forward),
{
}

/// A code that a player types: the right one, in time and by the right player, links that player with
/// the user who asked for it, and the request is gone; too late, the request is gone and the user is
/// told; by another player, nothing happens. No other request changes.
pub proof fn law_codes_are_judged(
    pending: &mut PendingVerifications,
    code: &str,
    username: &str,
    now: u64,
    v: Verdict,
)
    requires
        call_ensures(PendingVerifications::confirm, (pending, code, username, now), v),
        old(pending)@.contains_key(code@),
    ensures
        ({
            let p = old(pending)@[code@];
            &&& p.mc_username@ != username@ ==> v is Ignored && final(pending)@ == old(pending)@
            &&& p.mc_username@ == username@ && now < p.expires_at ==> (v matches Verdict::Confirmed {
                discord_id,
                mc_username,
            } && discord_id == p.discord_user_id && mc_username@ == username@)
            &&& p.mc_username@ == username@ && now >= p.expires_at ==> (v matches Verdict::Expired {
                discord_id,
                mc_username,
            } && discord_id == p.discord_user_id && mc_username@ == username@)
            &&& p.mc_username@ == username@ ==> !final(pending)@.contains_key(code@) && forall|
                k: Seq<char>,
            |
                k != code@ ==> #[trigger] final(pending)@.contains_key(k)
                    == old(pending)@.contains_key(k) && final(pending)@[k] == old(pending)@[k]
        }),
{
}

/// A code that is no request's is never confirmed: it counts against one request that waits for the
/// player, whose third wrong code ends it, and where none waits nothing happens.
pub proof fn law_wrong_codes_count(
    pending: &mut PendingVerifications,
    code: &str,
    username: &str,
    now: u64,
    v: Verdict,
)
    requires
        call_ensures(PendingVerifications::confirm, (pending, code, username, now), v),
        !old(pending)@.contains_key(code@),
    ensures
        !(v is Confirmed) && !(v is Expired),
        (forall|k: Seq<char>| #[trigger]
            old(pending)@.contains_key(k) ==> old(pending)@[k].mc_username@ != username@) ==> v
            is Ignored && final(pending)@ == old(pending)@,
        (exists|k: Seq<char>| #[trigger]
            old(pending)@.contains_key(k) && old(pending)@[k].mc_username@ == username@) ==> exists|
            k: Seq<char>,
        |
            #![trigger old(pending)@.contains_key(k)]
            {
                let p = old(pending)@[k];
                &&& old(pending)@.contains_key(k)
                &&& p.mc_username@ == username@
                &&& p.attempts >= 2 ==> final(pending)@ == old(pending)@.remove(k) && (v matches Verdict::LockedOut {
                    discord_id,
                    mc_username,
                } && discord_id == p.discord_user_id && mc_username@ == username@)
                &&& p.attempts < 2 ==> v is Ignored && final(pending)@ == old(pending)@.insert(
                    k,
                    PendingVerification { attempts: (p.attempts + 1) as u32, ..p },
                )
            },
{
    let before = old(pending)@;
    if exists|k: Seq<char>| #[trigger]
        before.contains_key(k) && before[k].mc_username@ == username@ {
        let k = choose|k: Seq<char>| #[trigger]
            before.contains_key(k) && before[k].mc_username@ == username@;
        assert(verification::waits_for(before, k, username@));
        let key = choose|key: Seq<char>|
            #![trigger verification::waits_for(before, key, username@)]
            verification::waits_for(before, key, username@)
                && verification::counted(before, final(pending)@, key, v);
        assert(before.contains_key(key));
    }
}

/// Chat that confirms the code of a request, in time and by the player whom the request names, has
/// that player linked with the user who made it, and the request is gone; it is not passed on.
pub proof fn law_typed_codes_link(
    event: &FromMinecraftEvent,
    channel: u64,
    pending: &mut PendingVerifications,
    storage: &Storage,
    now: u64,
    r: Forwarding,
    message: &str,
    code: String,
)
    requires
        call_ensures(handler::forward_event, (event, Some(channel), pending, storage, now), r),
        call_ensures(log_parser::confirmation, (message,), Some(code)),
        message@ == event.content@,
        old(pending)@.contains_key(code@),
        old(pending)@[code@].mc_username@ == event.username@,
        now < old(pending)@[code@].expires_at,
    ensures
        r@ == (ForwardingView::Link {
            discord_id: old(pending)@[code@].discord_user_id,
            mc_username: event.username@,
        }),
        final(pending)@ == old(pending)@.remove(code@),
{
}

/// The requests whose time is over are forgotten, and no others.
pub proof fn law_only_expired_requests_are_forgotten(
    pending: &mut PendingVerifications,
    now: u64,
    r: (),
    k: Seq<char>,
)
    requires
        call_ensures(PendingVerifications::forget_expired, (pending, now), r),
        old(pending)@.contains_key(k),
    ensures
        now >= old(pending)@[k].expires_at ==> !final(pending)@.contains_key(k),
        now < old(pending)@[k].expires_at ==> final(pending)@.contains_key(k) && final(pending)@[k]
            == old(pending)@[k],
{
}

/// What is said of a verdict, and to whom: nothing where the code is ignored, that it came too late or
/// was wrong too often, and nothing yet where the accounts are to be linked.
pub proof fn law_verdicts_are_told(v: Verdict, r: Forwarding)
    requires
        call_ensures(handler::tell, (v,), r),
    ensures
        match v {
            Verdict::Ignored => r@ is Nothing,
            Verdict::Expired { discord_id, mc_username } => r@ == (ForwardingView::Say {
                text: "⏰ <@"@ + text::dec(discord_id as nat) + "> Verification for `"@ + mc_username@
                    + "` expired (took more than 30 seconds). Use `/connect` again."@,
            }),
            Verdict::LockedOut { discord_id, mc_username } => r@ == (ForwardingView::Say {
                text: "🚫 <@"@ + text::dec(discord_id as nat) + "> Verification for `"@ + mc_username@
                    + "` locked out after 3 failed attempts. Use `/connect` again."@,
            }),
            Verdict::Confirmed { discord_id, mc_username } => r@ == (ForwardingView::Link {
                discord_id,
                mc_username: mc_username@,
            }),
        },
{
    reveal_strlit("⏰ <@");
    reveal_strlit("⏰ ");
    reveal_strlit("🚫 <@");
    reveal_strlit("🚫 ");
    reveal_strlit("<@");
    assert("⏰ <@"@ =~= "⏰ "@ + "<@"@);
    assert("🚫 <@"@ =~= "🚫 "@ + "<@"@);
}

/// Once the accounts were to be linked, the user is told whether they are, and with which player.
pub proof fn law_linking_is_told(discord_id: u64, mc_username: &str, saved: bool, r: String)
    requires
        call_ensures(handler::link_reply, (discord_id, mc_username, saved), r),
    ensures
        saved ==> r@ == "✅ <@"@ + text::dec(discord_id as nat)
            + "> Connected! Your Minecraft account **"@ + mc_username@ + "** is now linked."@,
        !saved ==> r@ == "❌ <@"@ + text::dec(discord_id as nat)
            + "> Failed to save connection. Please try again."@,
{
    reveal_strlit("✅ <@");
    reveal_strlit("✅ ");
    reveal_strlit("❌ <@");
    reveal_strlit("❌ ");
    reveal_strlit("<@");
    assert("✅ <@"@ =~= "✅ "@ + "<@"@);
    assert("❌ <@"@ =~= "❌ "@ + "<@"@);
}

/// A mute of the user is in force: it has no end, or its end has not come.
pub open spec fn is_muted(m: Memory, id: u64, now: u64) -> bool {
    m.muted_users.contains_key(id) && (m.muted_users[id] == 0 || now < m.muted_users[id])
}

/// The message begins with a word that keeps it from being relayed, or asks not to notify anybody.
pub open spec fn asks_for_silence(msg: DiscordMessage) -> bool {
    let s = text::upper_text(msg.content@);
    ||| msg.suppress_notifications
    ||| s == "@S"@
    ||| "@S "@.is_prefix_of(s)
    ||| s == "@SILENT"@
    ||| "@SILENT "@.is_prefix_of(s)
}

/// A message of Discord reaches Minecraft exactly where it stands in the bridged channel, is not the
/// bot's own, its author is not muted, takes part where the privacy features are on, and it does not
/// ask for silence. It is spoken by its author, and while the privacy features are off it is as it
/// was written.
pub proof fn law_messages_are_relayed(
    msg: &DiscordMessage,
    bridge: Option<u64>,
    bot_id: u64,
    storage: &mut Storage,
    now: u64,
    r: (Option<FromDiscordEvent>, Option<Vec<RowWrite>>),
)
    requires
        call_ensures(handler::relay, (msg, bridge, bot_id, storage, now), r),
    ensures
        r.0 is Some <==> {
            let m = old(storage)@;
            &&& bridge == Some(msg.channel_id)
            &&& msg.author_id != bot_id
            &&& !is_muted(m, msg.author_id, now)
            &&& m.privacy_enabled ==> accounts::mc_of(m.accounts, msg.author_id) is Some
                && !m.join_leave_optout.contains(msg.author_id)
            &&& !asks_for_silence(*msg)
        },
        r.0 matches Some(e) ==> e.username@ == msg.author_name@ && (!old(storage)@.privacy_enabled
            ==> e.content@ == msg.content@),
{
    log_laws::lemma_silence(msg.content@);
}

/// While the privacy features are on, what reaches Minecraft is what the mentions in it make of it.
pub proof fn law_messages_are_relayed_with_mentions(
    msg: &DiscordMessage,
    bridge: Option<u64>,
    bot_id: u64,
    storage: &mut Storage,
    other: &Storage,
    now: u64,
    r: (Option<FromDiscordEvent>, Option<Vec<RowWrite>>),
    written: &str,
    content: String,
)
    requires
        call_ensures(handler::relay, (msg, bridge, bot_id, storage, now), r),
        call_ensures(mentions::process_dc_mentions, (written, other), content),
        written@ == msg.content@,
        other@ == old(storage)@,
        old(storage)@.privacy_enabled,
        r.0 is Some,
    ensures
        (r.0->0).content@ == content@,
{
}

/// A mute that is found to be over is forgotten, in memory and in the database, and nothing else is;
/// otherwise nothing changes.
pub proof fn law_mutes_that_are_over_are_forgotten(
    msg: &DiscordMessage,
    bridge: Option<u64>,
    bot_id: u64,
    storage: &mut Storage,
    now: u64,
    r: (Option<FromDiscordEvent>, Option<Vec<RowWrite>>),
    t: Tables,
)
    requires
        call_ensures(handler::relay, (msg, bridge, bot_id, storage, now), r),
    ensures
        ({
            let m = old(storage)@;
            let id = msg.author_id;
            if bridge == Some(msg.channel_id) && id != bot_id && m.muted_users.contains_key(id)
                && !is_muted(m, id, now) {
                &&& final(storage)@ == (Memory { muted_users: m.muted_users.remove(id), ..m })
                &&& r.1 matches Some(ws) && tables::written_all(t, ws@) == (Tables {
                    muted_users: t.muted_users.remove(id),
                    ..t
                })
            } else {
                final(storage)@ == m && r.1 is None
            }
        }),
{
}

/// A new member is greeted in the system channel where there is one, by a mention and with the number
/// of members; where there is none nobody is greeted.
pub proof fn law_new_members_are_greeted(
    guild: Option<(Option<u64>, u64)>,
    user_id: u64,
    r: Option<(u64, Embed)>,
)
    requires
        call_ensures(handler::welcome, (guild, user_id), r),
    ensures
        match guild {
            Some((Some(channel), members)) => {
                &&& r matches Some((to, embed)) && to == channel && embed@.title
                    == "💥 A New Target Approaches! 💥"@ && embed@.description == Some(
                    "Welcome to the server, <@"@ + text::dec(user_id as nat)
                        + ">! Let's hope things don't get too... explosive. 🤫"@,
                ) && embed@.footer == Some("Member Count: #"@ + text::dec(members as nat))
            },
            _ => r is None,
        },
{
    reveal_strlit("Welcome to the server, <@");
    reveal_strlit("Welcome to the server, ");
    reveal_strlit("<@");
    assert("Welcome to the server, <@"@ =~= "Welcome to the server, "@ + "<@"@);
}

/// What is done upon an event of Discord is what is done upon the message or the new member that it
/// brings; upon any other event nothing is done.
pub proof fn law_events_of_discord_are_handled(
    event: &DiscordEvent,
    bridge: Option<u64>,
    bot_id: u64,
    storage: &mut Storage,
    now: u64,
    r: (Reaction, Option<Vec<RowWrite>>),
)
    requires
        call_ensures(handler::event_handler, (event, bridge, bot_id, storage, now), r),
    ensures
        match *event {
            DiscordEvent::MemberJoined { guild, user_id } => {
                &&& final(storage)@ == old(storage)@ && r.1 is None
                &&& r.0 is Greet == (guild is Some && (guild->0).0 is Some)
                &&& r.0 is Greet || r.0 is Nothing
            },
            DiscordEvent::Message { message } => {
                &&& forall|same: (Option<FromDiscordEvent>, Option<Vec<RowWrite>>)| #[trigger]
                    call_ensures(handler::relay, (&message, bridge, bot_id, storage, now), same)
                        ==> match same.0 {
                        Some(e) => r.0 matches Reaction::Relay { event } && event.content@
                            == e.content@ && event.username@ == e.username@,
                        None => r.0 is Nothing,
                    }
            },
            _ => r.0 is Nothing && r.1 is None && final(storage)@ == old(storage)@,
        },
{
}

/// The bridged channel counts as lost exactly where Discord does not know it or does not let the bot
/// in.
pub proof fn law_lost_channels_are_told_by_their_errors(error: &str, r: bool)
    requires
        call_ensures(handler::channel_is_lost, (error,), r),
    ensures
        r <==> text::contains_text(error@, "Unknown Channel"@) || text::contains_text(
            error@,
            "Missing Access"@,
        ),
{
}

/// Where a run of digits ends does not depend on what stands before it.
proof fn lemma_digits_end_shift(s: Seq<char>, k: int, i: int)
    requires
        0 <= k <= i,
        k <= s.len(),
    ensures
        mentions::digits_end(s.skip(k), i - k) == mentions::digits_end(s, i) - k,
        mentions::digits_end(s, i) >= i,
    decreases s.len() - i,
{
    if i < s.len() && '0' <= s[i] <= '9' {
        assert(s.skip(k)[i - k] == s[i]);
        lemma_digits_end_shift(s, k, i + 1);
    } else if i < s.len() {
        assert(s.skip(k)[i - k] == s[i]);
    }
}

/// What becomes of a text does not depend on what stands before it.
proof fn lemma_named_shift(s: Seq<char>, k: int, i: int, m: Memory)
    requires
        0 <= k <= i,
        k <= s.len(),
    ensures
        mentions::named_in_mc(s.skip(k), i - k, m) == mentions::named_in_mc(s, i, m),
    decreases s.len() - i,
{
    let t = s.skip(k);
    if i < s.len() {
        let n = mentions::digits_start(s, i);
        assert(t[i - k] == s[i]);
        if i + 2 < s.len() {
            assert(t[i - k + 2] == s[i + 2]);
        }
        assert(mentions::digits_start(t, i - k) == n - k);
        lemma_digits_end_shift(s, k, n);
        let e = mentions::digits_end(s, n);
        if i + 1 < s.len() {
            assert(t[i - k + 1] == s[i + 1]);
        }
        if e < s.len() {
            assert(t[e - k] == s[e]);
        }
        assert(mentions::dc_mention_at(t, i - k) == mentions::dc_mention_at(s, i));
        if mentions::dc_mention_at(s, i) {
            assert(t.subrange(n - k, e - k) =~= s.subrange(n, e));
            lemma_named_shift(s, k, e + 1, m);
        }
        lemma_named_shift(s, k, i + 1, m);
    }
}

/// Where a run of digits ends that is followed by something else.
proof fn lemma_digits_end(s: Seq<char>, i: int, e: int)
    requires
        0 <= i <= e < s.len(),
        forall|j: int| i <= j < e ==> '0' <= #[trigger] s[j] <= '9',
        !('0' <= s[e] <= '9'),
    ensures
        mentions::digits_end(s, i) == e,
    decreases e - i,
{
    if i < e {
        assert('0' <= s[i] <= '9');
        lemma_digits_end(s, i + 1, e);
    }
}

/// Text in which no mention begins is copied.
proof fn lemma_copied(s: Seq<char>, i: int, n: int, m: Memory)
    requires
        0 <= i <= n <= s.len(),
        forall|j: int| i <= j < n ==> #[trigger] s[j] != '<',
    ensures
        mentions::named_in_mc(s, i, m) == s.subrange(i, n) + mentions::named_in_mc(s, n, m),
    decreases n - i,
{
    if i < n {
        assert(s[i] != '<');
        lemma_copied(s, i + 1, n, m);
        assert(seq![s[i]] + s.subrange(i + 1, n) =~= s.subrange(i, n));
        assert(seq![s[i]] + (s.subrange(i + 1, n) + mentions::named_in_mc(s, n, m)) =~= s.subrange(
            i,
            n,
        ) + mentions::named_in_mc(s, n, m));
    } else {
        assert(s.subrange(i, n) =~= Seq::<char>::empty());
        assert(Seq::<char>::empty() + mentions::named_in_mc(s, n, m) =~= mentions::named_in_mc(
            s,
            n,
            m,
        ));
    }
}

/// Wherever a linked Discord user is mentioned, in either form of a mention, the player is named in
/// place of the mention: what stands before it stays, and what follows becomes what it becomes alone.
pub proof fn law_mentions_become_names(
    content: &str,
    rest: &str,
    storage: &Storage,
    r: String,
    follows: String,
    before: Seq<char>,
    id: u64,
    nick: bool,
    mc: Seq<char>,
)
    requires
        call_ensures(mentions::process_dc_mentions, (content, storage), r),
        call_ensures(mentions::process_dc_mentions, (rest, storage), follows),
        accounts::mc_of(storage@.accounts, id) == Some(mc),
        !before.contains('<'),
        content@ == before + (if nick {
            "<@!"@
        } else {
            "<@"@
        }) + text::dec(id as nat) + ">"@ + rest@,
    ensures
        r@ == before + "@"@ + mc + follows@,
{
    reveal_strlit("<@!");
    reveal_strlit("<@");
    reveal_strlit(">");
    reveal_strlit("@");
    let s = content@;
    let m = storage@;
    let d = text::dec(id as nat);
    let n = before.len() as int;
    let head = if nick {
        "<@!"@
    } else {
        "<@"@
    };
    let a = n + head.len();
    let e = a + d.len();
    text_laws::lemma_dec_digits(id as nat);
    assert forall|j: int| 0 <= j < n implies #[trigger] s[j] != '<' by {
        assert(s[j] == before[j]);
        assert(before.contains(before[j]));
    }
    lemma_copied(s, 0, n, m);
    assert(s.subrange(0, n) =~= before);
    assert(s[n] == head[0] && s[n + 1] == head[1]);
    if nick {
        assert(s[n + 2] == head[2]);
    } else {
        assert(s[n + 2] == d[0]);
    }
    assert(mentions::digits_start(s, n) == a);
    assert forall|j: int| a <= j < e implies '0' <= #[trigger] s[j] <= '9' by {
        assert(s[j] == d[j - a]);
    }
    assert(s[e] == '>');
    lemma_digits_end(s, a, e);
    assert(s.subrange(a, e) =~= d);
    text::lemma_dec_reads_back(id as nat, u64::MAX as nat);
    assert(mentions::mentioned_player(s, n, m) == Some(mc));
    assert(s.skip(e + 1) =~= rest@);
    lemma_named_shift(s, e + 1, e + 1, m);
    assert(mentions::named_in_mc(s, n, m) == seq!['@'] + mc + mentions::named_in_mc(s, e + 1, m));
    assert(r@ =~= before + "@"@ + mc + follows@);
}

/// A mention of a Discord user who is linked with no player stays as it is, and what follows becomes
/// what it becomes alone.
pub proof fn law_mentions_of_strangers_stay(
    content: &str,
    rest: &str,
    storage: &Storage,
    r: String,
    follows: String,
    before: Seq<char>,
    id: u64,
)
    requires
        call_ensures(mentions::process_dc_mentions, (content, storage), r),
        call_ensures(mentions::process_dc_mentions, (rest, storage), follows),
        accounts::mc_of(storage@.accounts, id) is None,
        !before.contains('<'),
        content@ == before + "<@"@ + text::dec(id as nat) + ">"@ + rest@,
    ensures
        r@ == before + "<@"@ + text::dec(id as nat) + ">"@ + follows@,
{
    reveal_strlit("<@");
    reveal_strlit(">");
    let s = content@;
    let m = storage@;
    let d = text::dec(id as nat);
    let n = before.len() as int;
    let a = n + 2;
    let e = a + d.len();
    text_laws::lemma_dec_digits(id as nat);
    assert forall|j: int| 0 <= j < n implies #[trigger] s[j] != '<' by {
        assert(s[j] == before[j]);
        assert(before.contains(before[j]));
    }
    lemma_copied(s, 0, n, m);
    assert(s.subrange(0, n) =~= before);
    assert(s[n] == '<' && s[n + 1] == '@' && s[n + 2] == d[0]);
    assert(mentions::digits_start(s, n) == a);
    assert forall|j: int| a <= j < e implies '0' <= #[trigger] s[j] <= '9' by {
        assert(s[j] == d[j - a]);
    }
    assert(s[e] == '>');
    lemma_digits_end(s, a, e);
    assert(s.subrange(a, e) =~= d);
    text::lemma_dec_reads_back(id as nat, u64::MAX as nat);
    assert(mentions::mentioned_player(s, n, m) is None);
    assert forall|j: int| n + 1 <= j < e + 1 implies #[trigger] s[j] != '<' by {
        if a <= j < e {
            assert('0' <= s[j] <= '9');
        }
    }
    lemma_copied(s, n + 1, e + 1, m);
    assert(s.skip(e + 1) =~= rest@);
    lemma_named_shift(s, e + 1, e + 1, m);
    assert(s.subrange(n, e + 1) =~= "<@"@ + d + ">"@);
    assert(seq![s[n]] + s.subrange(n + 1, e + 1) =~= s.subrange(n, e + 1));
    assert(r@ =~= before + s.subrange(n, e + 1) + follows@);
    assert(r@ =~= before + "<@"@ + d + ">"@ + follows@);
}

/// Where a word ends does not depend on what stands before it.
proof fn lemma_name_run_shift(s: Seq<char>, k: int, i: int)
    requires
        0 <= k <= i <= s.len(),
    ensures
        log_parser::name_run(s.skip(k), i - k) == log_parser::name_run(s, i) - k,
        i <= log_parser::name_run(s, i) <= s.len(),
    decreases s.len() - i,
{
    if i < s.len() {
        assert(s.skip(k)[i - k] == s[i]);
        if text::is_name_char(s[i]) {
            lemma_name_run_shift(s, k, i + 1);
        }
    }
}

/// What becomes of chat does not depend on what stands before it.
proof fn lemma_pinged_shift(s: Seq<char>, k: int, i: int, sender: Seq<char>, m: Memory)
    requires
        0 <= k <= i <= s.len(),
    ensures
        mentions::named_in_dc(s.skip(k), i - k, sender, m) == mentions::named_in_dc(s, i, sender, m),
    decreases s.len() - i,
{
    let t = s.skip(k);
    if i < s.len() {
        lemma_name_run_shift(s, k, i);
        let e = log_parser::name_run(s, i);
        assert(t[i - k] == s[i]);
        if i < e {
            assert(t.subrange(i - k, e - k) =~= s.subrange(i, e));
            lemma_pinged_shift(s, k, e, sender, m);
        } else {
            lemma_pinged_shift(s, k, i + 1, sender, m);
        }
    }
}

/// Chat that goes on after a word or with a new one becomes what its two parts become.
proof fn lemma_pinged_apart(a: Seq<char>, b: Seq<char>, i: int, sender: Seq<char>, m: Memory)
    requires
        0 <= i <= a.len(),
        a.len() == 0 || b.len() == 0 || !text::is_name_char(a.last()) || !text::is_name_char(b[0]),
    ensures
        mentions::named_in_dc(a + b, i, sender, m) == mentions::named_in_dc(a, i, sender, m)
            + mentions::named_in_dc(b, 0, sender, m),
    decreases a.len() - i,
{
    let s = a + b;
    let n = a.len() as int;
    if i == n {
        assert(s.skip(n) =~= b);
        lemma_pinged_shift(s, n, n, sender, m);
        assert(mentions::named_in_dc(a, n, sender, m) =~= Seq::<char>::empty());
        assert(Seq::<char>::empty() + mentions::named_in_dc(b, 0, sender, m)
            =~= mentions::named_in_dc(b, 0, sender, m));
    } else {
        lemma_run_apart(a, b, i);
        lemma_name_run_shift(a, 0, i);
        let e = log_parser::name_run(a, i);
        assert(s[i] == a[i]);
        if i < e {
            assert(s.subrange(i, e) =~= a.subrange(i, e));
            lemma_pinged_apart(a, b, e, sender, m);
            let w = mentions::word_in_dc(a.subrange(i, e), sender, m);
            assert(w + (mentions::named_in_dc(a, e, sender, m) + mentions::named_in_dc(
                b,
                0,
                sender,
                m,
            )) =~= (w + mentions::named_in_dc(a, e, sender, m)) + mentions::named_in_dc(
                b,
                0,
                sender,
                m,
            ));
        } else {
            lemma_pinged_apart(a, b, i + 1, sender, m);
            assert(seq![a[i]] + (mentions::named_in_dc(a, i + 1, sender, m)
                + mentions::named_in_dc(b, 0, sender, m)) =~= (seq![a[i]] + mentions::named_in_dc(
                a,
                i + 1,
                sender,
                m,
            )) + mentions::named_in_dc(b, 0, sender, m));
        }
    }
}

/// A word of the first part ends within it.
proof fn lemma_run_apart(a: Seq<char>, b: Seq<char>, i: int)
    requires
        0 <= i < a.len(),
        a.len() == 0 || b.len() == 0 || !text::is_name_char(a.last()) || !text::is_name_char(b[0]),
    ensures
        log_parser::name_run(a + b, i) == log_parser::name_run(a, i),
    decreases a.len() - i,
{
    let s = a + b;
    assert(s[i] == a[i]);
    if text::is_name_char(a[i]) {
        if i + 1 < a.len() {
            lemma_run_apart(a, b, i + 1);
        } else {
            assert(log_parser::name_run(a, i + 1) == i + 1);
            if b.len() > 0 {
                assert(s[i + 1] == b[0]);
            }
            assert(log_parser::name_run(s, i + 1) == i + 1);
        }
    }
}

/// A word of chat pings the Discord user who is linked with the player of that name, unless the
/// player says it or the user does not want to be mentioned, and the mention stands in its place;
/// every other word stays. What stands around the word becomes what it becomes alone.
pub proof fn law_names_become_mentions(
    content: &str,
    first: &str,
    last: &str,
    sender: &str,
    storage: &Storage,
    r: String,
    before: String,
    after: String,
    word: Seq<char>,
)
    requires
        call_ensures(mentions::process_mc_mentions, (content, sender, storage), r),
        call_ensures(mentions::process_mc_mentions, (first, sender, storage), before),
        call_ensures(mentions::process_mc_mentions, (last, sender, storage), after),
        content@ == first@ + word + last@,
        log_laws::is_name(word),
        first@.len() == 0 || !text::is_name_char(first@.last()),
        last@.len() == 0 || !text::is_name_char(last@[0]),
    ensures
        r@ == before@ + (match accounts::dc_of(storage@.accounts, word) {
            Some(id) => if word != sender@ && !storage@.mute_mention.contains(id) {
                "<@"@ + text::dec(id as nat) + ">"@
            } else {
                word
            },
            None => word,
        }) + after@,
{
    let m = storage@;
    log_laws::law_player_names_are_these(word);
    lemma_pinged_apart(first@, word + last@, 0, sender@, m);
    assert(first@ + (word + last@) =~= content@);
    assert(text::is_name_char(word[0]));
    lemma_pinged_apart(word, last@, 0, sender@, m);
    let n = word.len() as int;
    log_parser::lemma_name_run_of_name(word, 0);
    assert(word.subrange(0, n) =~= word);
    assert(mentions::named_in_dc(word, n, sender@, m) =~= Seq::<char>::empty());
    let w = mentions::word_in_dc(word, sender@, m);
    assert(w + Seq::<char>::empty() =~= w);
    assert(r@ =~= before@ + w + after@);
}

} // verus!
