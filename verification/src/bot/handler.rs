//! What the bot does with messages from either side.

use crate::bot::embed;
use crate::bot::embed::{Embed, EmbedView};
use crate::bot::mentions;
use crate::bot::mentions::{process_dc_mentions, process_mc_mentions};
use crate::bot::types::{FromDiscordEvent, FromMinecraftEvent, MessageView};
use crate::bot::verification;
use crate::bot::verification::{PendingVerifications, Verdict};
use crate::log_parser;
use crate::log_parser::{confirmation, is_silent_message_prefix, EventView};
use crate::storage;
use crate::storage::accounts;
use crate::storage::tables;
use crate::storage::tables::{RowWrite, Tables};
use crate::storage::{Memory, Storage};
use crate::text;
use crate::text::{has_text, push_dec, same_text};
use vstd::prelude::*;
use vstd::string::*;

verus! {

/// What is done with a message from Minecraft.
#[derive(Debug, PartialEq)]
pub enum Forwarding {
    /// Nothing.
    Nothing,
    /// The bot says something itself.
    Say { text: String },
    /// The accounts are linked, and the bot says how that went.
    Link { discord_id: u64, mc_username: String },
    /// The message is passed on.
    Forward { text: String },
}

/// What is done with a message from Minecraft, with its texts as sequences of characters.
pub enum ForwardingView {
    Nothing,
    Say { text: Seq<char> },
    Link { discord_id: u64, mc_username: Seq<char> },
    Forward { text: Seq<char> },
}

impl View for Forwarding {
    type V = ForwardingView;

    open spec fn view(&self) -> ForwardingView {
        match *self {
            Forwarding::Nothing => ForwardingView::Nothing,
            Forwarding::Say { text } => ForwardingView::Say { text: text@ },
            Forwarding::Link { discord_id, mc_username } => ForwardingView::Link {
                discord_id,
                mc_username: mc_username@,
            },
            Forwarding::Forward { text } => ForwardingView::Forward { text: text@ },
        }
    }
}

/// `head`, the mention of a Discord user, and `rest`.
pub open spec fn to_user(head: Seq<char>, discord_id: u64, rest: Seq<char>) -> Seq<char> {
    head + "<@"@ + text::dec(discord_id as nat) + rest
}

/// What a Discord user is told whose code came too late.
pub open spec fn expired_text(discord_id: u64, mc: Seq<char>) -> Seq<char> {
    to_user("⏰ "@, discord_id, "> Verification for `"@) + mc
        + "` expired (took more than 30 seconds). Use `/connect` again."@
}

/// What a Discord user is told for whom the code was wrong too often.
pub open spec fn locked_out_text(discord_id: u64, mc: Seq<char>) -> Seq<char> {
    to_user("🚫 "@, discord_id, "> Verification for `"@) + mc
        + "` locked out after 3 failed attempts. Use `/connect` again."@
}

/// What a Discord user is told once the accounts were to be linked.
pub open spec fn linked_text(discord_id: u64, mc: Seq<char>, saved: bool) -> Seq<char> {
    if saved {
        to_user("✅ "@, discord_id, "> Connected! Your Minecraft account **"@) + mc
            + "** is now linked."@
    } else {
        to_user("❌ "@, discord_id, "> Failed to save connection. Please try again."@)
    }
}

/// Writes `head`, the mention of a Discord user, and `rest`.
fn address(head: &str, discord_id: u64, rest: &str) -> (r: String)
    ensures
        r@ == to_user(head@, discord_id, rest@),
{
    let mut s = head.to_owned();
    s.append("<@");
    push_dec(&mut s, discord_id);
    s.append(rest);
    s
}

/// What is done upon a verdict.
pub open spec fn told(v: Verdict) -> ForwardingView {
    match v {
        Verdict::Ignored => ForwardingView::Nothing,
        Verdict::Expired { discord_id, mc_username } => ForwardingView::Say {
            text: expired_text(discord_id, mc_username@),
        },
        Verdict::LockedOut { discord_id, mc_username } => ForwardingView::Say {
            text: locked_out_text(discord_id, mc_username@),
        },
        Verdict::Confirmed { discord_id, mc_username } => ForwardingView::Link {
            discord_id,
            mc_username: mc_username@,
        },
    }
}

/// Decides what is done upon a verdict.
pub fn tell(v: Verdict) -> (r: Forwarding)
    ensures
        r@ == told(v),
{
    match v {
        Verdict::Ignored => Forwarding::Nothing,
        Verdict::Expired { discord_id, mc_username } => {
            let mut text = address("⏰ ", discord_id, "> Verification for `");
            text.append(mc_username.as_str());
            text.append("` expired (took more than 30 seconds). Use `/connect` again.");
            Forwarding::Say { text }
        },
        Verdict::LockedOut { discord_id, mc_username } => {
            let mut text = address("🚫 ", discord_id, "> Verification for `");
            text.append(mc_username.as_str());
            text.append("` locked out after 3 failed attempts. Use `/connect` again.");
            Forwarding::Say { text }
        },
        Verdict::Confirmed { discord_id, mc_username } => Forwarding::Link {
            discord_id,
            mc_username,
        },
    }
}

/// Says how the linking of accounts went.
pub fn link_reply(discord_id: u64, mc_username: &str, saved: bool) -> (r: String)
    ensures
        r@ == linked_text(discord_id, mc_username@, saved),
{
    if saved {
        let mut s = address("✅ ", discord_id, "> Connected! Your Minecraft account **");
        s.append(mc_username);
        s.append("** is now linked.");
        s
    } else {
        address("❌ ", discord_id, "> Failed to save connection. Please try again.")
    }
}

/// The message tells of a player who has asked not to take part.
pub open spec fn is_withheld(e: MessageView, m: Memory) -> bool {
    &&& m.privacy_enabled
    &&& e.mc_username.len() > 0
    &&& accounts::dc_of(m.accounts, e.mc_username) matches Some(id) && m.join_leave_optout.contains(
        id,
    )
}

/// The message is a player's chat.
pub open spec fn is_chat(e: MessageView) -> bool {
    e.username == e.mc_username && e.mc_username.len() > 0
}

/// What is done with a message that confirms no code.
pub open spec fn passed_on(e: MessageView, m: Memory) -> ForwardingView {
    if is_withheld(e, m) {
        ForwardingView::Nothing
    } else {
        let content = if is_chat(e) && m.privacy_enabled {
            mentions::named_in_dc(e.content, 0, e.mc_username, m)
        } else {
            e.content
        };
        ForwardingView::Forward { text: "**"@ + e.username + "**: "@ + content }
    }
}

/// Decides what is done with a message that confirms no code.
pub fn pass_on(event: &FromMinecraftEvent, storage: &Storage) -> (r: Forwarding)
    requires
        storage.wf(),
    ensures
        r@ == passed_on(event@, storage@),
{
    let privacy = storage.is_privacy_enabled();
    let named = event.mc_username.as_str().unicode_len() > 0;
    if privacy && named {
        if let Some(id) = storage.get_dc_from_mc(event.mc_username.as_str()) {
            if storage.is_join_leave_opted_out(id) {
                return Forwarding::Nothing;
            }
        }
    }
    let chat = same_text(event.username.as_str(), event.mc_username.as_str()) && named;
    let content = if chat && privacy {
        process_mc_mentions(event.content.as_str(), event.mc_username.as_str(), storage)
    } else {
        event.content.clone()
    };
    let mut text = "**".to_owned();
    text.append(event.username.as_str());
    text.append("**: ");
    text.append(content.as_str());
    Forwarding::Forward { text }
}

/// Decides what is done with a message from Minecraft, and notes the codes that players type. Where
/// no channel is bridged, nothing is done.
pub fn forward_event(
    event: &FromMinecraftEvent,
    bridge: Option<u64>,
    pending: &mut PendingVerifications,
    storage: &Storage,
    now: u64,
) -> (r: Forwarding)
    requires
        old(pending).wf(),
        storage.wf(),
    ensures
        final(pending).wf(),
        match (bridge, log_parser::confirmed_code(event@.content)) {
            (None, _) => r@ == ForwardingView::Nothing && final(pending)@ == old(pending)@,
            (Some(_), Some(code)) => exists|v: Verdict|
                #![trigger told(v)]
                verification::judged(
                    old(pending)@,
                    final(pending)@,
                    code,
                    event@.username,
                    now,
                    v,
                ) && r@ == told(v),
            (Some(_), None) => r@ == passed_on(event@, storage@) && final(pending)@ == old(
                pending,
            )@,
        },
{
    if bridge.is_none() {
        return Forwarding::Nothing;
    }
    if let Some(code) = confirmation(event.content.as_str()) {
        let v = pending.confirm(code.as_str(), event.username.as_str(), now);
        return tell(v);
    }
    pass_on(event, storage)
}

/// Whether an error of Discord says that the bridged channel cannot be reached, so that the bridge
/// is unbound.
pub fn channel_is_lost(error_msg: &str) -> (r: bool)
    ensures
        r == (text::contains_text(error_msg@, "Unknown Channel"@) || text::contains_text(
            error_msg@,
            "Missing Access"@,
        )),
{
    has_text(error_msg, "Unknown Channel") || has_text(error_msg, "Missing Access")
}

/// A message of Discord.
#[derive(Debug)]
pub struct DiscordMessage {
    pub channel_id: u64,
    pub author_id: u64,
    pub author_name: String,
    pub content: String,
    /// The author asked not to notify anybody.
    pub suppress_notifications: bool,
}

/// The author takes part in the bridge.
pub open spec fn takes_part(m: Memory, id: u64) -> bool {
    accounts::mc_of(m.accounts, id) is Some && !m.join_leave_optout.contains(id)
}

/// The message stands in the bridged channel and is not the bot's own.
pub open spec fn concerns_bridge(msg: DiscordMessage, bridge: Option<u64>, bot_id: u64) -> bool {
    bridge == Some(msg.channel_id) && msg.author_id != bot_id
}

/// The message asks not to be relayed.
pub open spec fn is_silent(msg: DiscordMessage) -> bool {
    ||| log_parser::opens_with(msg.content@, "@silent"@)
    ||| log_parser::opens_with(msg.content@, "@s"@)
    ||| msg.suppress_notifications
}

/// The text that is relayed to Minecraft for a message of Discord; `None` where it is not relayed.
pub open spec fn relayed(
    msg: DiscordMessage,
    bridge: Option<u64>,
    bot_id: u64,
    m: Memory,
    now: u64,
) -> Option<Seq<char>> {
    if !concerns_bridge(msg, bridge, bot_id) {
        None
    } else if storage::mute_of(m, msg.author_id, now) is Some {
        None
    } else if m.privacy_enabled && !takes_part(m, msg.author_id) {
        None
    } else if is_silent(msg) {
        None
    } else if m.privacy_enabled {
        Some(mentions::named_in_mc(msg.content@, 0, m))
    } else {
        Some(msg.content@)
    }
}

/// Decides whether a message of Discord is relayed to Minecraft, and as what: first whether its
/// author is muted, then whether the author takes part, then whether the message is a silent one. A
/// mute whose end has come is forgotten on the way, and with it comes the transaction that takes it
/// out of the database.
pub fn relay(
    msg: &DiscordMessage,
    bridge: Option<u64>,
    bot_id: u64,
    storage: &mut Storage,
    now: u64,
) -> (r: (Option<FromDiscordEvent>, Option<Vec<RowWrite>>))
    requires
        old(storage).wf(),
    ensures
        final(storage).wf(),
        match r.0 {
            Some(e) => relayed(*msg, bridge, bot_id, old(storage)@, now) == Some(e.content@)
                && e.username@ == msg.author_name@,
            None => relayed(*msg, bridge, bot_id, old(storage)@, now) is None,
        },
        if concerns_bridge(*msg, bridge, bot_id) && storage::mute_is_over(
            old(storage)@,
            msg.author_id,
            now,
        ) {
            &&& final(storage)@ == (Memory {
                muted_users: old(storage)@.muted_users.remove(msg.author_id),
                ..old(storage)@
            })
            &&& r.1 matches Some(ws) && forall|t: Tables| #[trigger]
                tables::written_all(t, ws@) == (Tables {
                    muted_users: t.muted_users.remove(msg.author_id),
                    ..t
                })
        } else {
            final(storage)@ == old(storage)@ && r.1 is None
        },
{
    let here = match bridge {
        Some(channel_id) => channel_id == msg.channel_id,
        None => false,
    };
    if !here || msg.author_id == bot_id {
        return (None, None);
    }
    let ghost before = storage@;
    let (muted, cleanup) = storage.is_muted(msg.author_id, now);
    if muted.is_some() {
        return (None, cleanup);
    }
    let privacy = storage.is_privacy_enabled();
    if privacy {
        if !storage.is_connected_dc(msg.author_id) {
            return (None, cleanup);
        }
        if storage.is_join_leave_opted_out(msg.author_id) {
            return (None, cleanup);
        }
    }
    if is_silent_message_prefix(msg.content.as_str()) || msg.suppress_notifications {
        return (None, cleanup);
    }
    let content = if privacy {
        proof {
            lemma_named_by_accounts(msg.content@, 0, storage@, before);
        }
        process_dc_mentions(msg.content.as_str(), storage)
    } else {
        msg.content.clone()
    };
    (Some(FromDiscordEvent { username: msg.author_name.clone(), content }), cleanup)
}

/// Mentions are turned by the linked accounts alone.
proof fn lemma_named_by_accounts(s: Seq<char>, i: int, a: Memory, b: Memory)
    requires
        a.accounts == b.accounts,
    ensures
        mentions::named_in_mc(s, i, a) == mentions::named_in_mc(s, i, b),
    decreases s.len() - i,
{
    if i < s.len() {
        match mentions::mentioned_player(s, i, a) {
            Some(_) => {
                lemma_named_by_accounts(
                    s,
                    mentions::digits_end(s, mentions::digits_start(s, i)) + 1,
                    a,
                    b,
                );
            },
            None => {
                lemma_named_by_accounts(s, i + 1, a, b);
            },
        }
    }
}

/// The greeting of a new member.
pub open spec fn welcome_embed(user_id: u64, member_count: u64) -> EmbedView {
    EmbedView {
        description: Some(
            to_user(
                "Welcome to the server, "@,
                user_id,
                ">! Let's hope things don't get too... explosive. 🤫"@,
            ),
        ),
        thumbnail: Some(
            "https://i.pinimg.com/originals/5d/15/4b/5d154b68de57a87600fe9b98d692802c.gif"@,
        ),
        footer: Some("Member Count: #"@ + text::dec(member_count as nat)),
        ..embed::titled("💥 A New Target Approaches! 💥"@, 0x9b59b6)
    }
}

/// Greets a new member in the system channel. `guild` is the guild's system channel and its number
/// of members, where the guild is known; without a known guild or a system channel nobody is
/// greeted.
pub fn welcome(guild: Option<(Option<u64>, u64)>, user_id: u64) -> (r: Option<(u64, Embed)>)
    ensures
        match guild {
            Some((Some(channel_id), member_count)) => r matches Some((c, e)) && c == channel_id
                && e@ == welcome_embed(user_id, member_count),
            _ => r is None,
        },
{
    match guild {
        Some((Some(channel_id), member_count)) => {
            let description = address(
                "Welcome to the server, ",
                user_id,
                ">! Let's hope things don't get too... explosive. 🤫",
            );
            let mut footer = "Member Count: #".to_owned();
            push_dec(&mut footer, member_count);
            let e = Embed::new("💥 A New Target Approaches! 💥".to_owned(), 0x9b59b6).described(
                description,
            ).pictured(
                "https://i.pinimg.com/originals/5d/15/4b/5d154b68de57a87600fe9b98d692802c.gif".to_owned(),
            ).footed(footer);
            Some((channel_id, e))
        },
        _ => None,
    }
}

/// An event of Discord.
#[derive(Debug)]
pub enum DiscordEvent {
    /// The bot has logged in.
    Ready,
    /// A member has come; `guild` is as for `welcome`.
    MemberJoined { guild: Option<(Option<u64>, u64)>, user_id: u64 },
    /// Somebody has written.
    Message { message: DiscordMessage },
    /// Anything else.
    Other,
}

/// What is done upon an event of Discord.
pub enum Reaction {
    Nothing,
    /// A greeting is sent to a channel.
    Greet { channel_id: u64, embed: Embed },
    /// A message is relayed to Minecraft.
    Relay { event: FromDiscordEvent },
}

/// Decides what is done upon an event of Discord. With it comes, where a mute was found to be over,
/// the transaction that takes it out of the database.
pub fn event_handler(
    event: &DiscordEvent,
    bridge: Option<u64>,
    bot_id: u64,
    storage: &mut Storage,
    now: u64,
) -> (r: (Reaction, Option<Vec<RowWrite>>))
    requires
        old(storage).wf(),
    ensures
        final(storage).wf(),
        match *event {
            DiscordEvent::MemberJoined { guild, user_id } => {
                &&& final(storage)@ == old(storage)@ && r.1 is None
                &&& match guild {
                    Some((Some(channel), member_count)) => r.0 matches Reaction::Greet {
                        channel_id,
                        embed,
                    } && channel_id == channel && embed@ == welcome_embed(user_id, member_count),
                    _ => r.0 is Nothing,
                }
            },
            DiscordEvent::Message { message } => {
                &&& match relayed(message, bridge, bot_id, old(storage)@, now) {
                    Some(content) => r.0 matches Reaction::Relay { event: e } && e.content@
                        == content && e.username@ == message.author_name@,
                    None => r.0 is Nothing,
                }
                &&& if concerns_bridge(message, bridge, bot_id) && storage::mute_is_over(
                    old(storage)@,
                    message.author_id,
                    now,
                ) {
                    &&& final(storage)@ == (Memory {
                        muted_users: old(storage)@.muted_users.remove(message.author_id),
                        ..old(storage)@
                    })
                    &&& r.1 matches Some(ws) && forall|t: Tables| #[trigger]
                        tables::written_all(t, ws@) == (Tables {
                            muted_users: t.muted_users.remove(message.author_id),
                            ..t
                        })
                } else {
                    final(storage)@ == old(storage)@ && r.1 is None
                }
            },
            _ => r.0 is Nothing && final(storage)@ == old(storage)@ && r.1 is None,
        },
{
    match event {
        DiscordEvent::MemberJoined { guild, user_id } => match welcome(*guild, *user_id) {
            Some((channel_id, embed)) => (Reaction::Greet { channel_id, embed }, None),
            None => (Reaction::Nothing, None),
        },
        DiscordEvent::Message { message } => {
            let (relayed, cleanup) = relay(message, bridge, bot_id, storage, now);
            match relayed {
                Some(event) => (Reaction::Relay { event }, cleanup),
                None => (Reaction::Nothing, cleanup),
            }
        },
        DiscordEvent::Ready => (Reaction::Nothing, None),
        DiscordEvent::Other => (Reaction::Nothing, None),
    }
}

/// A text that begins with a character that no name holds is no player's name.
proof fn lemma_mark_is_no_name(mark: Seq<char>, name: Seq<char>)
    requires
        mark.len() > 0,
        !text::is_name_char(mark[0]),
        log_parser::is_player_name(name),
    ensures
        mark != name,
{
    assert(text::is_name_char(name[0]));
}

/// Of the messages that are made of events, the chat messages and no others are taken for chat.
pub proof fn law_only_chat_is_taken_for_chat(e: EventView)
    requires
        log_parser::player_of(e) matches Some(name) ==> log_parser::is_player_name(name),
        crate::bot::types::message_for(e) is Some,
    ensures
        is_chat(crate::bot::types::message_for(e)->0) <==> e is Chat,
{
    reveal_strlit("🟢");
    reveal_strlit("🔴");
    reveal_strlit("⚰️");
    reveal_strlit("🏆");
    reveal_strlit("⌨️");
    if let Some(name) = log_parser::player_of(e) {
        lemma_mark_is_no_name("🟢"@, name);
        lemma_mark_is_no_name("🔴"@, name);
        lemma_mark_is_no_name("⚰️"@, name);
        lemma_mark_is_no_name("🏆"@, name);
        lemma_mark_is_no_name("⌨️"@, name);
    }
}

/// While the privacy features are on, nothing that a player does who has asked not to take part is
/// passed on to Discord: neither chat nor coming and going, deaths, advancements or commands.
pub proof fn law_activity_of_unsubscribed_player_is_withheld(e: EventView, id: u64, m: Memory)
    requires
        m.privacy_enabled,
        log_parser::player_of(e) matches Some(name) && name.len() > 0 && accounts::dc_of(
            m.accounts,
            name,
        ) == Some(id),
        m.join_leave_optout.contains(id),
        crate::bot::types::message_for(e) is Some,
    ensures
        passed_on(crate::bot::types::message_for(e)->0, m) == ForwardingView::Nothing,
{
}

/// While the privacy features are on, nothing that a Discord user writes who is linked with no
/// player or has asked not to take part reaches Minecraft.
pub proof fn law_messages_of_outsiders_are_withheld(
    msg: DiscordMessage,
    bridge: Option<u64>,
    bot_id: u64,
    m: Memory,
    now: u64,
)
    requires
        m.privacy_enabled,
        !takes_part(m, msg.author_id),
    ensures
        relayed(msg, bridge, bot_id, m, now) is None,
{
}

/// A muted user's messages do not reach Minecraft, whatever the settings.
pub proof fn law_messages_of_muted_users_are_withheld(
    msg: DiscordMessage,
    bridge: Option<u64>,
    bot_id: u64,
    m: Memory,
    now: u64,
)
    requires
        storage::mute_of(m, msg.author_id, now) is Some,
    ensures
        relayed(msg, bridge, bot_id, m, now) is None,
{
}

/// While the privacy features are off, the bridge is an open pipe: every message from Minecraft is
/// passed on as it is, and every message in the bridged channel that is not silent, the bot's own
/// or a muted user's reaches Minecraft as it is.
pub proof fn law_bridge_is_open_without_privacy(
    e: MessageView,
    msg: DiscordMessage,
    bridge: Option<u64>,
    bot_id: u64,
    m: Memory,
    now: u64,
)
    requires
        !m.privacy_enabled,
    ensures
        passed_on(e, m) == (ForwardingView::Forward {
            text: "**"@ + e.username + "**: "@ + e.content,
        }),
        concerns_bridge(msg, bridge, bot_id) && storage::mute_of(m, msg.author_id, now) is None
            && !is_silent(msg) ==> relayed(msg, bridge, bot_id, m, now) == Some(msg.content@),
{
}

/// A message that confirms a code is never passed on.
pub proof fn law_codes_are_not_passed_on(v: Verdict)
    ensures
        told(v) !is Forward,
{
}

} // verus!
