//! What the bot's commands do and reply.

use crate::bot::embed;
use crate::bot::embed::{Embed, EmbedView};
use crate::bot::types::PendingVerification;
use crate::bot::verification;
use crate::bot::verification::PendingVerifications;
use crate::log_parser;
use crate::stats;
use crate::stats::format_duration;
use crate::storage;
use crate::storage::accounts;
use crate::storage::records;
use crate::storage::records::PlayerStats;
use crate::storage::tables;
use crate::storage::tables::{RowWrite, Tables};
use crate::storage::{Memory, Outcome, Storage, StorageError};
use crate::text;
use crate::text::{
    chars_of, comma_items, has_text, has_text_at, name_char, push_dec, push_dec_int, rest_after,
    same_text, string_of, tail, to_lower, trimmed_start,
};
use base64::Engine;
use vstd::prelude::*;
use vstd::string::*;

verus! {

/// What the bot replies to a command.
#[derive(Debug, PartialEq)]
pub enum Reply {
    Say { text: String },
    Show { embed: Embed },
}

/// A reply with its texts as sequences of characters.
pub enum ReplyView {
    Say { text: Seq<char> },
    Show { embed: EmbedView },
}

impl View for Reply {
    type V = ReplyView;

    open spec fn view(&self) -> ReplyView {
        match *self {
            Reply::Say { text } => ReplyView::Say { text: text@ },
            Reply::Show { embed } => ReplyView::Show { embed: embed@ },
        }
    }
}

/// `head`, `middle` and `rest`.
fn three(head: &str, middle: &str, rest: &str) -> (r: String)
    ensures
        r@ == head@ + middle@ + rest@,
{
    let mut s = head.to_owned();
    s.append(middle);
    s.append(rest);
    s
}

/// `head`, a number and `rest`.
fn numbered(head: &str, n: u64, rest: &str) -> (r: String)
    ensures
        r@ == head@ + text::dec(n as nat) + rest@,
{
    let mut s = head.to_owned();
    push_dec(&mut s, n);
    s.append(rest);
    s
}

/// The help on `ping`.
pub fn ping_help() -> (r: String)
    ensures
        r@ == "Use this to check if I'm alive!"@,
{
    "Use this to check if I'm alive!".to_owned()
}

/// The help on `info`.
pub fn info_help() -> (r: String)
    ensures
        r@
            == "Get full detailed list of real-time online players and active server metadata."@,
{
    "Get full detailed list of real-time online players and active server metadata.".to_owned()
}

/// The help on `start_bridge`.
pub fn start_bridge_help() -> (r: String)
    ensures
        r@ == "Use in a channel to bridge it with Minecraft chat"@,
{
    "Use in a channel to bridge it with Minecraft chat".to_owned()
}

/// The help on `stats`.
pub fn stats_help() -> (r: String)
    ensures
        r@ == "Show cumulative stats for a player (or yourself if no name given)."@,
{
    "Show cumulative stats for a player (or yourself if no name given).".to_owned()
}

/// The help on `playtime`.
pub fn playtime_help() -> (r: String)
    ensures
        r@ == "Show play time breakdown for a player, including the last 7 days."@,
{
    "Show play time breakdown for a player, including the last 7 days.".to_owned()
}

/// The help on `leaderboard`.
pub fn leaderboard_help() -> (r: String)
    ensures
        r@ == "Show the top 10 players by total play time."@,
{
    "Show the top 10 players by total play time.".to_owned()
}

/// The help on `connect`.
pub fn connect_help() -> (r: String)
    ensures
        r@
            == "Connect your Discord account with a Minecraft username for mentions and privacy features."@,
{
    "Connect your Discord account with a Minecraft username for mentions and privacy features.".to_owned()
}

/// The help on `disconnect`.
pub fn disconnect_help() -> (r: String)
    ensures
        r@ == "Disconnect your Discord account from any linked Minecraft username."@,
{
    "Disconnect your Discord account from any linked Minecraft username.".to_owned()
}

/// The help on `unsub`.
pub fn unsub_help() -> (r: String)
    ensures
        r@
            == "Opt out — your Minecraft activity will not be broadcast, and your Discord messages will not reach Minecraft."@,
{
    "Opt out — your Minecraft activity will not be broadcast, and your Discord messages will not reach Minecraft.".to_owned()
}

/// The help on `sub`.
pub fn sub_help() -> (r: String)
    ensures
        r@
            == "Re-enable bridging — your Minecraft activity and Discord messages will flow both ways again."@,
{
    "Re-enable bridging — your Minecraft activity and Discord messages will flow both ways again.".to_owned()
}

/// The help on `mutemention`.
pub fn mutemention_help() -> (r: String)
    ensures
        r@
            == "Mute cross-chat mentions — you won't be pinged when your MC name is mentioned in chat."@,
{
    "Mute cross-chat mentions — you won't be pinged when your MC name is mentioned in chat.".to_owned()
}

/// The help on `unmutemention`.
pub fn unmutemention_help() -> (r: String)
    ensures
        r@ == "Re-enable cross-chat mention pings."@,
{
    "Re-enable cross-chat mention pings.".to_owned()
}

/// The help on `privacy`.
pub fn privacy_help() -> (r: String)
    ensures
        r@
            == "Enable or disable all privacy features (connection gating, filtering, mentions)."@,
{
    "Enable or disable all privacy features (connection gating, filtering, mentions).".to_owned()
}

/// The reply to `ping`.
pub fn ping() -> (r: Reply)
    ensures
        r@ == (ReplyView::Say { text: "UwU Helloo!"@ }),
{
    Reply::Say { text: "UwU Helloo!".to_owned() }
}

/// `s` without its leading colons, full stops and spaces.
pub open spec fn past_marks(s: Seq<char>) -> Seq<char>
    decreases s.len(),
{
    if s.len() > 0 && (s[0] == ':' || s[0] == '.' || s[0] == ' ') {
        past_marks(s.skip(1))
    } else {
        s
    }
}

/// Drops the leading colons, full stops and spaces.
fn after_marks(s: &[char]) -> (r: &[char])
    ensures
        r@ == past_marks(s@),
{
    let mut i: usize = 0;
    assert(s@.skip(0) =~= s@);
    while i < s.len() && (s[i] == ':' || s[i] == '.' || s[i] == ' ')
        invariant
            i <= s@.len(),
            past_marks(s@) == past_marks(s@.skip(i as int)),
        decreases s@.len() - i,
    {
        assert(s@.skip(i as int).skip(1) =~= s@.skip(i + 1));
        i = i + 1;
    }
    tail(s, i)
}

/// The names in the server's reply to `list`: those between commas past `online:` or, where that
/// does not occur, past `online` and what separates it from the names.
pub open spec fn listed_names(response: Seq<char>) -> Seq<Seq<char>> {
    match text::after_text(response, "online:"@) {
        Some(names) => text::comma_list(names),
        None => match text::after_text(response, "online"@) {
            Some(rest) => text::comma_list(past_marks(text::trim_start(rest))),
            None => Seq::empty(),
        },
    }
}

/// Reads the names in the server's reply to `list`.
pub fn parse_player_list(response: &str) -> (r: Vec<String>)
    ensures
        text::texts(r@) == listed_names(response@),
{
    let v = chars_of(response);
    match rest_after(v.as_slice(), "online:") {
        Some(names) => comma_items(names),
        None => match rest_after(v.as_slice(), "online") {
            Some(rest) => comma_items(after_marks(trimmed_start(rest))),
            None => {
                let r: Vec<String> = Vec::new();
                assert(text::texts(r@) =~= Seq::<Seq<char>>::empty());
                r
            },
        },
    }
}

/// The address of a server: its host and its port, where they are given.
#[derive(Debug, PartialEq)]
pub struct ServerAddress {
    pub host: Option<String>,
    pub port: Option<u16>,
}

/// An address with its host as a sequence of characters.
pub struct AddressView {
    pub host: Option<Seq<char>>,
    pub port: Option<u16>,
}

impl View for ServerAddress {
    type V = AddressView;

    open spec fn view(&self) -> AddressView {
        AddressView { host: text::text_view(self.host), port: self.port }
    }
}

/// The host and the port of the URL that a text is, as the crate `url` reads it; `None` where it
/// reads no URL.
pub uninterp spec fn url_parts(raw: Seq<char>) -> Option<(Option<Seq<char>>, Option<u16>)>;

/// The crate `url`: what `Url::parse` makes of a text, told by `host_str` and `port` of the URL. How
/// a URL is read is left to `url_parts`.
#[verifier::external_body]
fn read_url(raw: &str) -> (r: Option<ServerAddress>)
    ensures
        match r {
            Some(a) => url_parts(raw@) == Some((a@.host, a@.port)),
            None => url_parts(raw@) is None,
        },
{
    match url::Url::parse(raw) {
        Ok(u) => Some(ServerAddress { host: u.host_str().map(String::from), port: u.port() }),
        Err(_) => None,
    }
}

/// The address that a text gives, when the URL that it stands for has the given parts: the default
/// address where it is no URL.
pub open spec fn address_or_default(parts: Option<(Option<Seq<char>>, Option<u16>)>) -> AddressView {
    match parts {
        Some((host, port)) => AddressView { host, port },
        None => AddressView { host: Some("localhost"@), port: Some(25565) },
    }
}

/// The URL that an address of a Minecraft server stands for: itself where it names a scheme.
pub open spec fn url_text(raw: Seq<char>) -> Seq<char> {
    if text::contains_text(raw, "://"@) {
        raw
    } else {
        "mc://"@ + raw
    }
}

/// Takes the default address where there is none.
pub fn or_default_address(read: Option<ServerAddress>) -> (r: ServerAddress)
    ensures
        r@ == address_or_default(
            match read {
                Some(a) => Some((a@.host, a@.port)),
                None => None,
            },
        ),
{
    match read {
        Some(a) => a,
        None => ServerAddress { host: Some("localhost".to_owned()), port: Some(25565) },
    }
}

/// Reads the address of the Minecraft server, with or without a scheme.
pub fn parse_mc_address(raw: &str) -> (r: ServerAddress)
    ensures
        r@ == address_or_default(url_parts(url_text(raw@))),
{
    let read = if has_text(raw, "://") {
        read_url(raw)
    } else {
        let mut url = "mc://".to_owned();
        url.append(raw);
        read_url(url.as_str())
    };
    or_default_address(read)
}

/// `host:port`, or the host alone where there is no port; the host is `localhost` where none is
/// given.
pub open spec fn hostport(a: AddressView) -> Seq<char> {
    let host = match a.host {
        Some(h) => h,
        None => "localhost"@,
    };
    match a.port {
        Some(p) => host + ":"@ + text::dec(p as nat),
        None => host,
    }
}

/// Writes an address as `host:port`.
pub fn url_to_hostport(address: &ServerAddress) -> (r: String)
    ensures
        r@ == hostport(address@),
{
    let mut s = match &address.host {
        Some(host) => host.clone(),
        None => "localhost".to_owned(),
    };
    if let Some(port) = address.port {
        s.append(":");
        push_dec(&mut s, port as u64);
    }
    s
}

/// What a Java server tells of itself.
#[derive(Debug)]
pub struct JavaStatus {
    pub description: String,
    pub favicon: Option<String>,
    pub online: i64,
    pub max: i64,
}

/// The answer to a ping: the latency in milliseconds, written with one decimal, and what a Java
/// server tells of itself.
#[derive(Debug)]
pub struct ServerStatus {
    pub latency: String,
    pub java: Option<JavaStatus>,
}

/// The bytes that a text in Base64 stands for, as the crate `base64` reads it; `None` where it
/// reads none.
pub uninterp spec fn base64_bytes(s: Seq<char>) -> Option<Seq<u8>>;

/// The crate `base64`: what the standard engine's `decode` makes of a text. How it is read is left
/// to `base64_bytes`.
#[verifier::external_body]
fn decode_base64(s: &str) -> (r: Option<Vec<u8>>)
    ensures
        match r {
            Some(bytes) => base64_bytes(s@) == Some(bytes@),
            None => base64_bytes(s@) is None,
        },
{
    base64::engine::general_purpose::STANDARD.decode(s).ok()
}

/// The Base64 text of a server's icon, past the head of a data URL where it has one.
pub open spec fn icon_text(favicon: Seq<char>) -> Seq<char> {
    if text::text_at(favicon, 0, "data:image/png;base64,"@) {
        favicon.skip("data:image/png;base64,"@.len() as int)
    } else {
        favicon
    }
}

/// Cuts the head of a data URL off.
fn clean_icon(favicon: &str) -> (r: String)
    ensures
        r@ == icon_text(favicon@),
{
    let v = chars_of(favicon);
    let n = "data:image/png;base64,".unicode_len();
    if has_text_at(v.as_slice(), 0, "data:image/png;base64,") {
        string_of(tail(v.as_slice(), n))
    } else {
        favicon.to_owned()
    }
}

/// The server's icon: the bytes that it sends; `None` where it sends none or they cannot be read.
pub open spec fn icon_bytes(status: Option<ServerStatus>) -> Option<Seq<u8>> {
    match status {
        Some(ServerStatus { java: Some(java), .. }) => match java.favicon {
            Some(favicon) => base64_bytes(icon_text(favicon@)),
            None => None,
        },
        _ => None,
    }
}

/// Reads the server's icon.
pub fn server_icon(status: &Option<ServerStatus>) -> (r: Option<Vec<u8>>)
    ensures
        match r {
            Some(bytes) => icon_bytes(*status) == Some(bytes@),
            None => icon_bytes(*status) is None,
        },
{
    match status {
        Some(status) => match &status.java {
            Some(java) => match &java.favicon {
                Some(favicon) => {
                    let clean = clean_icon(favicon.as_str());
                    decode_base64(clean.as_str())
                },
                None => None,
            },
            None => None,
        },
        None => None,
    }
}

/// The server's reply to `list`, or the text of the error.
pub open spec fn list_text(reply: Result<String, String>) -> Seq<char> {
    match reply {
        Ok(s) => s@,
        Err(e) => "Error executing RCON list: "@ + e@,
    }
}

/// The names of the players who are online, one to a line, numbered.
pub open spec fn player_lines(names: Seq<Seq<char>>) -> Seq<char>
    decreases names.len(),
{
    if names.len() == 0 {
        Seq::empty()
    } else {
        player_lines(names.drop_last()) + text::dec(names.len()) + ". `"@ + names.last() + "`\n"@
    }
}

/// Who is online: the names, or what is said where none were read.
pub open spec fn online_text(names: Seq<Seq<char>>, online: int) -> Seq<char> {
    if names.len() == 0 {
        if online > 0 {
            "⚠️ *Failed to safely map names via RCON, but players are active.*"@
        } else {
            "*No players are currently online.*"@
        }
    } else {
        "👥 **Current Online Players:**\n\n"@ + player_lines(names)
    }
}

/// Writes who is online.
fn write_online(names: &Vec<String>, online: i64) -> (r: String)
    ensures
        r@ == online_text(text::texts(names@), online as int),
{
    if names.len() == 0 {
        return if online > 0 {
            "⚠️ *Failed to safely map names via RCON, but players are active.*".to_owned()
        } else {
            "*No players are currently online.*".to_owned()
        };
    }
    let ghost all = text::texts(names@);
    let mut s = "👥 **Current Online Players:**\n\n".to_owned();
    let ghost head = s@;
    let mut i: usize = 0;
    assert(head + player_lines(all.take(0)) =~= head);
    while i < names.len()
        invariant
            i <= names@.len(),
            all == text::texts(names@),
            s@ == head + player_lines(all.take(i as int)),
        decreases names@.len() - i,
    {
        let ghost before = s@;
        push_dec(&mut s, (i + 1) as u64);
        s.append(". `");
        s.append(names[i].as_str());
        s.append("`\n");
        proof {
            assert(all.take(i + 1).drop_last() =~= all.take(i as int));
            assert(all.take(i + 1).last() == names@[i as int]@);
            assert(s@ =~= head + player_lines(all.take(i + 1)));
        }
        i = i + 1;
    }
    assert(all.take(i as int) =~= all);
    s
}

/// What is shown of the server: its description, the players who are online, and how long it took
/// to answer.
pub open spec fn info_embed(reply: Result<String, String>, status: Option<ServerStatus>) -> EmbedView {
    let latency = match status {
        Some(s) => s.latency@,
        None => "0.0"@,
    };
    let (motd, online, max): (Seq<char>, int, int) = match status {
        Some(ServerStatus { java: Some(j), .. }) => (j.description@, j.online as int, j.max as int),
        _ => ("Minecraft Server Status"@, 0, 20),
    };
    let e = EmbedView {
        description: Some(online_text(listed_names(list_text(reply)), online)),
        fields: seq![
            (
                "Players Online"@,
                "`"@ + text::dec_int(online) + "/"@ + text::dec_int(max) + "`"@,
                true,
            ),
            ("Latency"@, "`"@ + latency + "ms`"@, true),
        ],
        ..embed::titled("🎮 "@ + motd, 0x9b59b6)
    };
    if icon_bytes(status) is Some {
        EmbedView { thumbnail: Some("attachment://server_icon.png"@), ..e }
    } else {
        e
    }
}

/// Replies to `info`: what is shown of the server, and the bytes of its icon, which go with it as
/// `server_icon.png`. `reply` is the server's reply to `list` or the error, and `status` its answer
/// to a ping, where it gave one.
pub fn info(reply: Result<String, String>, status: Option<ServerStatus>) -> (r: (
    Embed,
    Option<Vec<u8>>,
))
    ensures
        r.0@ == info_embed(reply, status),
        match r.1 {
            Some(bytes) => icon_bytes(status) == Some(bytes@),
            None => icon_bytes(status) is None,
        },
{
    let response = match &reply {
        Ok(s) => s.clone(),
        Err(e) => {
            let mut s = "Error executing RCON list: ".to_owned();
            s.append(e.as_str());
            s
        },
    };
    let names = parse_player_list(response.as_str());
    let icon = server_icon(&status);
    let mut motd = "Minecraft Server Status".to_owned();
    let mut latency = "0.0".to_owned();
    let mut online: i64 = 0;
    let mut max: i64 = 20;
    if let Some(s) = &status {
        latency = s.latency.clone();
        if let Some(j) = &s.java {
            motd = j.description.clone();
            online = j.online;
            max = j.max;
        }
    }
    let mut title = "🎮 ".to_owned();
    title.append(motd.as_str());
    let mut players = "`".to_owned();
    push_dec_int(&mut players, online);
    players.append("/");
    push_dec_int(&mut players, max);
    players.append("`");
    let e = Embed::new(title, 0x9b59b6).described(write_online(&names, online)).with_field(
        "Players Online".to_owned(),
        players,
        true,
    ).with_field("Latency".to_owned(), three("`", latency.as_str(), "ms`"), true);
    let e = if icon.is_some() {
        e.pictured("attachment://server_icon.png".to_owned())
    } else {
        e
    };
    proof {
        assert(e@ =~= info_embed(reply, status));
    }
    (e, icon)
}

/// Binds the bridge to the channel in which `start_bridge` is given, and replies. With the reply
/// comes the transaction that makes the binding last.
pub fn start_bridge(
    bridge: &mut Option<u64>,
    storage: &Storage,
    channel_id: u64,
    guild_id: Option<u64>,
) -> (r: (Reply, Vec<RowWrite>))
    ensures
        *final(bridge) == Some(channel_id),
        r.0@ == (ReplyView::Say {
            text: "🟢 **Bridge Established!** Minecraft chat will now sync to <#"@ + text::dec(
                channel_id as nat,
            ) + ">."@,
        }),
        forall|t: Tables| #[trigger]
            tables::written_all(t, r.1@) == (Tables {
                bridge: Some(
                    (
                        channel_id,
                        match guild_id {
                            Some(id) => id,
                            None => 0,
                        },
                        storage@.mc_server_address,
                    ),
                ),
                ..t
            }),
{
    let guild: u64 = match guild_id {
        Some(id) => id,
        None => 0,
    };
    *bridge = Some(channel_id);
    let ws = storage.set_bridge_channel(channel_id, guild);
    let text = numbered(
        "🟢 **Bridge Established!** Minecraft chat will now sync to <#",
        channel_id,
        ">.",
    );
    (Reply::Say { text }, ws)
}

/// The reply to `stop_bridge` in a channel.
pub open spec fn stop_reply(was_bridged: bool, channel_id: u64) -> ReplyView {
    if was_bridged {
        ReplyView::Show {
            embed: EmbedView {
                description: Some(
                    "The live-chat stream to <#"@ + text::dec(channel_id as nat)
                        + "> has been disconnected."@,
                ),
                ..embed::titled("🛑 Bridge Severed!"@, 0xe74c3c)
            },
        }
    } else {
        ReplyView::Say {
            text: "❌ This channel (<#"@ + text::dec(channel_id as nat)
                + ">) isn't currently bound to an active bridge."@,
        }
    }
}

/// Unbinds the bridge where it is bound to the channel in which `stop_bridge` is given, and
/// replies. Where it was, the transaction that makes this last comes with the reply.
pub fn stop_bridge(bridge: &mut Option<u64>, storage: &Storage, channel_id: u64) -> (r: (
    Reply,
    Option<Vec<RowWrite>>,
))
    ensures
        r.0@ == stop_reply(*old(bridge) == Some(channel_id), channel_id),
        *final(bridge) == if *old(bridge) == Some(channel_id) {
            None
        } else {
            *old(bridge)
        },
        if *old(bridge) == Some(channel_id) {
            r.1 matches Some(ws) && forall|t: Tables| #[trigger]
                tables::written_all(t, ws@) == (Tables { bridge: None, ..t })
        } else {
            r.1 is None
        },
{
    let was_bridged = match *bridge {
        Some(current) => current == channel_id,
        None => false,
    };
    if was_bridged {
        *bridge = None;
        let description = numbered(
            "The live-chat stream to <#",
            channel_id,
            "> has been disconnected.",
        );
        let embed = Embed::new("🛑 Bridge Severed!".to_owned(), 0xe74c3c).described(description);
        (Reply::Show { embed }, Some(storage.clear_bridge_channel()))
    } else {
        let text = numbered(
            "❌ This channel (<#",
            channel_id,
            ">) isn't currently bound to an active bridge.",
        );
        (Reply::Say { text }, None)
    }
}

/// What was read; nothing where the reading failed.
pub open spec fn found<T>(r: Result<Option<T>, StorageError>) -> Option<T> {
    match r {
        Ok(v) => v,
        Err(_) => None,
    }
}

/// Takes what was read.
fn find<T>(r: Result<Option<T>, StorageError>) -> (v: Option<T>)
    ensures
        v == found(r),
{
    match r {
        Ok(v) => v,
        Err(_) => None,
    }
}

/// The player whom a command is about: the one that is named, or else the one of the author's name.
pub fn target_player(player: Option<String>, author_name: &str) -> (r: String)
    ensures
        r@ == match player {
            Some(name) => name@,
            None => author_name@,
        },
{
    match player {
        Some(name) => name,
        None => author_name.to_owned(),
    }
}

/// `s` in backquotes.
pub open spec fn ticked(s: Seq<char>) -> Seq<char> {
    "`"@ + s + "`"@
}

/// A point in time, which Discord shows as the time since then.
pub open spec fn since(ts: i64) -> Seq<char> {
    "<t:"@ + text::dec_int(ts as int) + ":R>"@
}

/// Writes a point in time.
fn write_since(ts: i64) -> (r: String)
    ensures
        r@ == since(ts),
{
    let mut s = "<t:".to_owned();
    push_dec_int(&mut s, ts);
    s.append(":R>");
    s
}

/// The fields, and one more for a point in time that is known.
pub open spec fn with_time(
    fields: Seq<(Seq<char>, Seq<char>, bool)>,
    name: Seq<char>,
    ts: i64,
) -> Seq<(Seq<char>, Seq<char>, bool)> {
    if ts > 0 {
        fields.push((name, since(ts), true))
    } else {
        fields
    }
}

/// Adds a field for a point in time that is known.
fn add_time(e: Embed, name: &str, ts: i64) -> (r: Embed)
    ensures
        r@ == (EmbedView { fields: with_time(e@.fields, name@, ts), ..e@ }),
{
    if ts > 0 {
        e.with_field(name.to_owned(), write_since(ts), true)
    } else {
        e
    }
}

/// What is shown of a player's record.
pub open spec fn stats_embed(username: Seq<char>, s: PlayerStats) -> EmbedView {
    let counts = seq![
        (
            "Total Play Time"@,
            ticked(stats::duration_text(s.total_play_time_secs as nat)),
            true,
        ),
        ("Total Logins"@, ticked(text::dec(s.total_logins as nat)), true),
        ("Total Deaths"@, ticked(text::dec(s.total_deaths as nat)), true),
        ("Advancements"@, ticked(text::dec(s.total_advancements as nat)), true),
        ("Messages Sent"@, ticked(text::dec(s.total_messages as nat)), true),
        ("Commands Used"@, ticked(text::dec(s.total_commands as nat)), true),
    ];
    EmbedView {
        fields: with_time(
            with_time(
                with_time(counts, "First Login"@, s.first_login_ts),
                "Last Login"@,
                s.last_login_ts,
            ),
            "Last Logout"@,
            s.last_logout_ts,
        ),
        ..embed::titled("📊 Stats: "@ + username, 0x3498db)
    }
}

/// Shows a player's record.
fn show_stats(username: &str, s: &PlayerStats) -> (r: Embed)
    ensures
        r@ == stats_embed(username@, *s),
{
    let duration = format_duration(s.total_play_time_secs);
    let mut title = "📊 Stats: ".to_owned();
    title.append(username);
    let e = Embed::new(title, 0x3498db).with_field(
        "Total Play Time".to_owned(),
        three("`", duration.as_str(), "`"),
        true,
    ).with_field("Total Logins".to_owned(), numbered("`", s.total_logins, "`"), true).with_field(
        "Total Deaths".to_owned(),
        numbered("`", s.total_deaths, "`"),
        true,
    ).with_field(
        "Advancements".to_owned(),
        numbered("`", s.total_advancements, "`"),
        true,
    ).with_field("Messages Sent".to_owned(), numbered("`", s.total_messages, "`"), true).with_field(
        "Commands Used".to_owned(),
        numbered("`", s.total_commands, "`"),
        true,
    );
    let e = add_time(e, "First Login", s.first_login_ts);
    let e = add_time(e, "Last Login", s.last_login_ts);
    let e = add_time(e, "Last Logout", s.last_logout_ts);
    proof {
        assert(e@ =~= stats_embed(username@, *s));
    }
    e
}

/// What is said of a player of whom nothing is known.
pub open spec fn no_data_text(username: Seq<char>) -> Seq<char> {
    "❌ No data found for player `"@ + username + "`."@
}

/// The reply to `stats`.
pub open spec fn stats_reply(
    username: Seq<char>,
    uuid: Option<String>,
    record: Option<PlayerStats>,
) -> ReplyView {
    match (uuid, record) {
        (None, _) => ReplyView::Say { text: no_data_text(username) },
        (Some(_), None) => ReplyView::Say {
            text: "❌ No stats recorded for player `"@ + username + "`."@,
        },
        (Some(_), Some(s)) => ReplyView::Show { embed: stats_embed(username, s) },
    }
}

/// Replies to `stats`. `uuid` is what was read for the player's name, and `record` what was read for
/// the UUID.
pub fn stats(
    username: &str,
    uuid: Result<Option<String>, StorageError>,
    record: Result<Option<PlayerStats>, StorageError>,
) -> (r: Reply)
    ensures
        r@ == stats_reply(username@, found(uuid), found(record)),
{
    if find(uuid).is_none() {
        return Reply::Say { text: three("❌ No data found for player `", username, "`.") };
    }
    match find(record) {
        Some(s) => Reply::Show { embed: show_stats(username, &s) },
        None => Reply::Say { text: three("❌ No stats recorded for player `", username, "`.") },
    }
}

/// The seconds that the days hold together.
pub open spec fn total_of(days: Seq<(String, u64)>) -> nat
    decreases days.len(),
{
    if days.len() == 0 {
        0
    } else {
        total_of(days.drop_last()) + days.last().1 as nat
    }
}

/// The first days hold no more seconds than all.
proof fn lemma_total_grows(days: Seq<(String, u64)>, i: int)
    requires
        0 <= i <= days.len(),
    ensures
        total_of(days.take(i)) <= total_of(days),
    decreases days.len(),
{
    if i == days.len() {
        assert(days.take(i) =~= days);
    } else {
        lemma_total_grows(days.drop_last(), i);
        assert(days.drop_last().take(i) =~= days.take(i));
    }
}

/// Adds up the seconds of the days; `None` where they exceed the range.
pub fn total_secs(days: &[(String, u64)]) -> (r: Option<u64>)
    ensures
        match r {
            Some(n) => n == total_of(days@),
            None => total_of(days@) > u64::MAX,
        },
{
    let mut total: u64 = 0;
    let mut i: usize = 0;
    assert(days@.take(0) =~= Seq::<(String, u64)>::empty());
    while i < days.len()
        invariant
            i <= days@.len(),
            total == total_of(days@.take(i as int)),
        decreases days@.len() - i,
    {
        proof {
            assert(days@.take(i + 1).drop_last() =~= days@.take(i as int));
            lemma_total_grows(days@, i + 1);
        }
        match total.checked_add(days[i].1) {
            Some(n) => {
                total = n;
            },
            None => return None,
        }
        i = i + 1;
    }
    assert(days@.take(i as int) =~= days@);
    Some(total)
}

/// The days, one to a line, with the time played.
pub open spec fn day_lines(days: Seq<(String, u64)>) -> Seq<char>
    decreases days.len(),
{
    if days.len() == 0 {
        Seq::empty()
    } else {
        day_lines(days.drop_last()) + "`"@ + days.last().0@ + "`: "@ + (if days.last().1 > 0 {
            stats::duration_text(days.last().1 as nat)
        } else {
            "—"@
        }) + "\n"@
    }
}

/// Writes the days and the time played.
fn write_days(days: &[(String, u64)]) -> (r: String)
    ensures
        r@ == day_lines(days@),
{
    let mut s = String::new();
    let mut i: usize = 0;
    assert(days@.take(0) =~= Seq::<(String, u64)>::empty());
    while i < days.len()
        invariant
            i <= days@.len(),
            s@ == day_lines(days@.take(i as int)),
        decreases days@.len() - i,
    {
        assert(days@.take(i + 1).drop_last() =~= days@.take(i as int));
        let played = if days[i].1 > 0 {
            format_duration(days[i].1)
        } else {
            "—".to_owned()
        };
        s.append("`");
        s.append(days[i].0.as_str());
        s.append("`: ");
        s.append(played.as_str());
        s.append("\n");
        i = i + 1;
    }
    assert(days@.take(i as int) =~= days@);
    s
}

/// What is shown of a player's play time.
pub open spec fn playtime_embed(username: Seq<char>, s: PlayerStats, days: Seq<(String, u64)>) -> EmbedView {
    EmbedView {
        fields: seq![
            ("Total"@, ticked(stats::duration_text(s.total_play_time_secs as nat)), false),
            ("This Week"@, ticked(stats::duration_text(total_of(days))), false),
            ("Last 7 Days"@, day_lines(days), false),
        ],
        ..embed::titled("⏱️ Play Time: "@ + username, 0x2ecc71)
    }
}

/// The reply to `playtime`.
pub open spec fn playtime_reply(
    username: Seq<char>,
    uuid: Option<String>,
    record: Option<PlayerStats>,
    days: Seq<(String, u64)>,
) -> ReplyView {
    match (uuid, record) {
        (None, _) => ReplyView::Say { text: no_data_text(username) },
        (Some(_), None) => ReplyView::Say {
            text: "❌ No play time recorded for player `"@ + username + "`."@,
        },
        (Some(_), Some(s)) => ReplyView::Show { embed: playtime_embed(username, s, days) },
    }
}

/// Replies to `playtime`. `uuid` is what was read for the player's name, and `record` and `recent`
/// what was read for the UUID; where `recent` could not be read, there are no days.
pub fn playtime(
    username: &str,
    uuid: Result<Option<String>, StorageError>,
    record: Result<Option<PlayerStats>, StorageError>,
    recent: Result<Vec<(String, u64)>, StorageError>,
) -> (r: Reply)
    requires
        recent matches Ok(days) ==> total_of(days@) <= u64::MAX,
    ensures
        r@ == playtime_reply(
            username@,
            found(uuid),
            found(record),
            match recent {
                Ok(days) => days@,
                Err(_) => Seq::empty(),
            },
        ),
{
    if find(uuid).is_none() {
        return Reply::Say { text: three("❌ No data found for player `", username, "`.") };
    }
    let s = match find(record) {
        Some(s) => s,
        None => return Reply::Say {
            text: three("❌ No play time recorded for player `", username, "`."),
        },
    };
    let days: Vec<(String, u64)> = match recent {
        Ok(days) => days,
        Err(_) => Vec::new(),
    };
    let week: u64 = match total_secs(days.as_slice()) {
        Some(n) => n,
        None => 0,
    };
    let total = format_duration(s.total_play_time_secs);
    let this_week = format_duration(week);
    let mut title = "⏱️ Play Time: ".to_owned();
    title.append(username);
    let e = Embed::new(title, 0x2ecc71).with_field(
        "Total".to_owned(),
        three("`", total.as_str(), "`"),
        false,
    ).with_field("This Week".to_owned(), three("`", this_week.as_str(), "`"), false).with_field(
        "Last 7 Days".to_owned(),
        write_days(days.as_slice()),
        false,
    );
    proof {
        assert(e@ =~= playtime_embed(username@, s, days@));
    }
    Reply::Show { embed: e }
}

/// How many bytes a character takes in UTF-8.
pub open spec fn utf8_len(c: char) -> nat {
    if c <= '\u{7f}' {
        1
    } else if c <= '\u{7ff}' {
        2
    } else if c <= '\u{ffff}' {
        3
    } else {
        4
    }
}

/// How many bytes a text takes in UTF-8.
pub open spec fn utf8_size(s: Seq<char>) -> nat
    decreases s.len(),
{
    if s.len() == 0 {
        0
    } else {
        utf8_size(s.drop_last()) + utf8_len(s.last())
    }
}

/// `short` is the beginning of `s` that takes 8 bytes.
pub open spec fn first_eight_bytes(s: Seq<char>, short: Seq<char>) -> bool {
    short.is_prefix_of(s) && utf8_size(short) == 8
}

/// The name under which a player without a known name is listed: the first 8 bytes of the UUID;
/// `None` where it is shorter or a character lies across the end.
fn short_uuid(uuid: &str) -> (r: Option<String>)
    ensures
        match r {
            Some(short) => first_eight_bytes(uuid@, short@),
            None => forall|short: Seq<char>| !first_eight_bytes(uuid@, short),
        },
{
    let v = chars_of(uuid);
    let mut s = String::new();
    let mut size: usize = 0;
    let mut i: usize = 0;
    while i < v.len() && size < 8
        invariant
            v@ == uuid@,
            i <= v@.len(),
            size < 12,
            s@ == uuid@.take(i as int),
            size == utf8_size(uuid@.take(i as int)),
            i > 0 ==> utf8_size(uuid@.take(i - 1)) < 8,
        decreases v@.len() - i,
    {
        let c = v[i];
        proof {
            assert(uuid@.take(i + 1).drop_last() =~= uuid@.take(i as int));
            assert(uuid@.take(i + 1) =~= uuid@.take(i as int).push(c));
        }
        s.push(c);
        size = size + if c <= '\u{7f}' {
            1
        } else if c <= '\u{7ff}' {
            2
        } else if c <= '\u{ffff}' {
            3
        } else {
            4
        };
        i = i + 1;
    }
    if size == 8 {
        return Some(s);
    }
    proof {
        assert forall|short: Seq<char>| !first_eight_bytes(uuid@, short) by {
            if first_eight_bytes(uuid@, short) {
                let n = short.len() as int;
                assert(short =~= uuid@.take(n));
                if n <= i {
                    lemma_utf8_grows(uuid@, n, i as int);
                    if n < i {
                        lemma_utf8_grows(uuid@, n, i - 1);
                    }
                } else {
                    lemma_utf8_grows(uuid@, i as int, n);
                }
            }
        }
    }
    None
}

/// A longer beginning takes more bytes.
proof fn lemma_utf8_grows(s: Seq<char>, i: int, j: int)
    requires
        0 <= i <= j <= s.len(),
    ensures
        utf8_size(s.take(i)) + (j - i) <= utf8_size(s.take(j)),
    decreases j - i,
{
    if i < j {
        lemma_utf8_grows(s, i, j - 1);
        assert(s.take(j).drop_last() =~= s.take(j - 1));
    }
}

/// The name under which a player is listed: the known name, or the beginning of the UUID; `None`
/// where the UUID has no such beginning.
pub fn listed_name(resolved: Option<String>, uuid: &str) -> (r: Option<String>)
    ensures
        match resolved {
            Some(name) => r matches Some(n) && n@ == name@,
            None => match r {
                Some(short) => first_eight_bytes(uuid@, short@),
                None => forall|short: Seq<char>| !first_eight_bytes(uuid@, short),
            },
        },
{
    match resolved {
        Some(name) => Some(name),
        None => short_uuid(uuid),
    }
}

/// The first ten of the players.
pub fn top_players(all: Result<Vec<(String, Option<String>, PlayerStats)>, StorageError>) -> (r:
    Vec<(String, Option<String>, PlayerStats)>)
    ensures
        match all {
            Ok(rows) => r@ == rows@.take(
                if rows@.len() < 10 {
                    rows@.len() as int
                } else {
                    10
                },
            ),
            Err(_) => r@.len() == 0,
        },
{
    match all {
        Ok(rows) => {
            let mut rows = rows;
            let ghost before = rows@;
            rows.truncate(10);
            assert(rows@ =~= before.take(
                if before.len() < 10 {
                    before.len() as int
                } else {
                    10
                },
            ));
            rows
        },
        Err(_) => Vec::new(),
    }
}

/// Of all players in the order in which they are read, nobody past the first ten has played longer
/// than one of these.
pub proof fn law_top_players_have_played_longest(
    stored: Seq<(String, PlayerStats)>,
    names: Seq<(String, String)>,
    all: Seq<(String, Option<String>, PlayerStats)>,
    i: int,
    j: int,
)
    requires
        records::lists_all(stored, names, all),
        0 <= i < 10,
        10 <= j < all.len(),
    ensures
        all[i].2.total_play_time_secs >= all[j].2.total_play_time_secs,
{
    records::law_players_come_by_play_time(stored, names, all, i, j);
}

/// The players, one to a line, numbered, with their play time.
pub open spec fn board_lines(rows: Seq<(String, PlayerStats)>) -> Seq<char>
    decreases rows.len(),
{
    if rows.len() == 0 {
        Seq::empty()
    } else {
        board_lines(rows.drop_last()) + text::dec(rows.len()) + ". **"@ + rows.last().0@
            + "** — `"@ + stats::duration_text(rows.last().1.total_play_time_secs as nat) + "`\n"@
    }
}

/// The reply to `leaderboard`.
pub open spec fn leaderboard_reply(rows: Seq<(String, PlayerStats)>) -> ReplyView {
    if rows.len() == 0 {
        ReplyView::Say { text: "❌ No player stats recorded yet."@ }
    } else {
        ReplyView::Show {
            embed: EmbedView {
                description: Some(board_lines(rows)),
                ..embed::titled("🏆 Play Time Leaderboard"@, 0xf1c40f)
            },
        }
    }
}

/// Replies to `leaderboard` with the players, by the names under which they are listed.
pub fn leaderboard(rows: &[(String, PlayerStats)]) -> (r: Reply)
    ensures
        r@ == leaderboard_reply(rows@),
{
    if rows.len() == 0 {
        return Reply::Say { text: "❌ No player stats recorded yet.".to_owned() };
    }
    let mut s = String::new();
    let mut i: usize = 0;
    assert(rows@.take(0) =~= Seq::<(String, PlayerStats)>::empty());
    while i < rows.len()
        invariant
            i <= rows@.len(),
            s@ == board_lines(rows@.take(i as int)),
        decreases rows@.len() - i,
    {
        assert(rows@.take(i + 1).drop_last() =~= rows@.take(i as int));
        let duration = format_duration(rows[i].1.total_play_time_secs);
        push_dec(&mut s, (i + 1) as u64);
        s.append(". **");
        s.append(rows[i].0.as_str());
        s.append("** — `");
        s.append(duration.as_str());
        s.append("`\n");
        i = i + 1;
    }
    assert(rows@.take(i as int) =~= rows@);
    Reply::Show {
        embed: Embed::new("🏆 Play Time Leaderboard".to_owned(), 0xf1c40f).described(s),
    }
}

/// The hexadecimal digit for a value below sixteen.
pub open spec fn hex_digit(d: nat) -> char {
    if d < 10 {
        (48 + d) as char
    } else {
        (55 + d) as char
    }
}

/// The last `width` hexadecimal digits of `n`.
pub open spec fn hex_text(n: nat, width: nat) -> Seq<char>
    decreases width,
{
    if width == 0 {
        Seq::empty()
    } else {
        hex_text(n / 16, (width - 1) as nat).push(hex_digit(n % 16))
    }
}

/// Appends the last `width` hexadecimal digits of `n`.
fn push_hex(out: &mut String, n: u64, width: u32)
    ensures
        final(out)@ == old(out)@ + hex_text(n as nat, width as nat),
    decreases width,
{
    if width == 0 {
        assert(out@ + Seq::<char>::empty() =~= out@);
        return;
    }
    push_hex(out, n / 16, width - 1);
    let d: u8 = (n % 16) as u8;
    let c: char = if d < 10 {
        (48u8 + d) as char
    } else {
        (55u8 + d) as char
    };
    out.push(c);
    assert(out@ =~= old(out)@ + hex_text(n as nat, width as nat));
}

/// The crate `rand`: a value of `rand::random`. As it is random, nothing is said of it.
#[verifier::external_body]
fn random_value() -> (r: u64) {
    rand::random()
}

/// The code that a random value makes: its sixteen hexadecimal digits, with capital letters.
pub fn code_of(value: u64) -> (r: String)
    ensures
        r@ == hex_text(value as nat, 16),
{
    let mut s = String::new();
    push_hex(&mut s, value, 16);
    assert(Seq::<char>::empty() + hex_text(value as nat, 16) =~= hex_text(value as nat, 16));
    s
}

/// A text of sixteen hexadecimal digits, with capital letters.
pub open spec fn is_code(s: Seq<char>) -> bool {
    s.len() == 16 && forall|i: int|
        0 <= i < s.len() ==> '0' <= #[trigger] s[i] <= '9' || 'A' <= s[i] <= 'F'
}

/// The digits of a number are hexadecimal digits.
proof fn lemma_hex_text(n: nat, width: nat)
    ensures
        hex_text(n, width).len() == width,
        forall|i: int|
            0 <= i < width ==> '0' <= #[trigger] hex_text(n, width)[i] <= '9' || 'A' <= hex_text(
                n,
                width,
            )[i] <= 'F',
    decreases width,
{
    if width > 0 {
        lemma_hex_text(n / 16, (width - 1) as nat);
    }
}

/// Makes a random code.
pub fn generate_verification_code() -> (r: String)
    ensures
        is_code(r@),
{
    let value = random_value();
    proof {
        lemma_hex_text(value as nat, 16);
    }
    code_of(value)
}

/// Whether a text can be the name of a Minecraft player: 3 to 16 ASCII letters, digits and
/// underscores.
pub fn is_valid_mc_username(name: &str) -> (r: bool)
    ensures
        r == log_parser::is_player_name(name@),
{
    let v = chars_of(name);
    if v.len() < 3 || v.len() > 16 {
        return false;
    }
    let mut i: usize = 0;
    while i < v.len()
        invariant
            v@ == name@,
            i <= v@.len(),
            forall|j: int| 0 <= j < i ==> text::is_name_char(#[trigger] v@[j]),
        decreases v@.len() - i,
    {
        if !name_char(v[i]) {
            assert(!text::is_name_char(name@[i as int]));
            return false;
        }
        i = i + 1;
    }
    true
}

/// A request of the Discord user waits.
pub open spec fn has_request(
    pending: Map<Seq<char>, PendingVerification>,
    discord_id: u64,
) -> bool {
    exists|k: Seq<char>| #[trigger]
        pending.contains_key(k) && pending[k].discord_user_id == discord_id
}

/// Why a request to link accounts is refused; `None` where it is not.
pub open spec fn connect_refusal(
    m: Memory,
    pending: Map<Seq<char>, PendingVerification>,
    discord_id: u64,
    mc: Seq<char>,
) -> Option<Seq<char>> {
    if !m.privacy_enabled {
        Some("❌ Privacy features are currently disabled by the bot owner."@)
    } else if !log_parser::is_player_name(mc) {
        Some(
            "❌ Invalid Minecraft username. Must be 3–16 characters, using only letters, numbers, and underscores."@,
        )
    } else if accounts::mc_of(m.accounts, discord_id) is Some {
        Some(
            "❌ You are already connected to a Minecraft account. Use `/disconnect` first if you want to switch."@,
        )
    } else if accounts::dc_of(m.accounts, mc) == Some(discord_id) {
        Some("✅ You are already connected to this Minecraft account."@)
    } else if accounts::dc_of(m.accounts, mc) is Some {
        Some("❌ The Minecraft account `"@ + mc + "` is already linked to another Discord user."@)
    } else if has_request(pending, discord_id) {
        Some(
            "❌ You already have a pending verification. Wait for it to expire (30s) or complete it first."@,
        )
    } else {
        None
    }
}

/// Decides whether a request to link accounts is refused, and why.
pub fn refuse_connect(
    storage: &Storage,
    pending: &PendingVerifications,
    discord_id: u64,
    mc_username: &str,
) -> (r: Option<String>)
    requires
        storage.wf(),
        pending.wf(),
    ensures
        text::text_view(r) == connect_refusal(storage@, pending@, discord_id, mc_username@),
{
    if !storage.is_privacy_enabled() {
        return Some("❌ Privacy features are currently disabled by the bot owner.".to_owned());
    }
    if !is_valid_mc_username(mc_username) {
        return Some(
            "❌ Invalid Minecraft username. Must be 3–16 characters, using only letters, numbers, and underscores.".to_owned(),
        );
    }
    if storage.is_connected_dc(discord_id) {
        return Some(
            "❌ You are already connected to a Minecraft account. Use `/disconnect` first if you want to switch.".to_owned(),
        );
    }
    if let Some(existing_dc) = storage.get_dc_from_mc(mc_username) {
        if existing_dc == discord_id {
            return Some("✅ You are already connected to this Minecraft account.".to_owned());
        }
        return Some(
            three(
                "❌ The Minecraft account `",
                mc_username,
                "` is already linked to another Discord user.",
            ),
        );
    }
    if pending.has_request_of(discord_id) {
        return Some(
            "❌ You already have a pending verification. Wait for it to expire (30s) or complete it first.".to_owned(),
        );
    }
    None
}

/// What a Discord user is told who is to type a code.
pub open spec fn code_request(mc: Seq<char>, code: Seq<char>) -> Seq<char> {
    "🔐 To verify you own `"@ + mc
        + "`, type this in Minecraft chat within **30 seconds**:\n\n```@s CONFIRM-"@ + code
        + "```"@
}

/// A request that has just been made.
pub open spec fn fresh_request(p: PendingVerification, discord_id: u64, mc: Seq<char>, now: u64) -> bool {
    &&& p.discord_user_id == discord_id
    &&& p.mc_username@ == mc
    &&& p.expires_at == now + verification::CODE_LIFETIME_MS
    &&& p.attempts == 0
}

/// The request is noted under the code, and the reply asks for the code.
pub open spec fn requested(
    before: Map<Seq<char>, PendingVerification>,
    after: Map<Seq<char>, PendingVerification>,
    discord_id: u64,
    mc: Seq<char>,
    code: Seq<char>,
    now: u64,
    reply: ReplyView,
) -> bool {
    &&& reply == (ReplyView::Say { text: code_request(mc, code) })
    &&& exists|p: PendingVerification|
        #![trigger fresh_request(p, discord_id, mc, now)]
        fresh_request(p, discord_id, mc, now) && after == before.insert(code, p)
}

/// Replies to `connect` with the code that is to be typed: notes the request, unless it is refused.
pub fn connect_with_code(
    storage: &Storage,
    pending: &mut PendingVerifications,
    discord_id: u64,
    mc_username: &str,
    code: String,
    now: u64,
) -> (r: Reply)
    requires
        storage.wf(),
        old(pending).wf(),
        now + verification::CODE_LIFETIME_MS <= u64::MAX,
    ensures
        final(pending).wf(),
        match connect_refusal(storage@, old(pending)@, discord_id, mc_username@) {
            Some(why) => r@ == (ReplyView::Say { text: why }) && final(pending)@ == old(pending)@,
            None => requested(
                old(pending)@,
                final(pending)@,
                discord_id,
                mc_username@,
                code@,
                now,
                r@,
            ),
        },
{
    if let Some(why) = refuse_connect(storage, pending, discord_id, mc_username) {
        return Reply::Say { text: why };
    }
    let mut text = "🔐 To verify you own `".to_owned();
    text.append(mc_username);
    text.append("`, type this in Minecraft chat within **30 seconds**:\n\n```@s CONFIRM-");
    text.append(code.as_str());
    text.append("```");
    let expires_at = now + verification::CODE_LIFETIME_MS;
    let mc = mc_username.to_owned();
    proof {
        let p = PendingVerification {
            discord_user_id: discord_id,
            mc_username: mc,
            expires_at,
            attempts: 0,
        };
        assert(fresh_request(p, discord_id, mc_username@, now));
    }
    pending.request(code, discord_id, mc, expires_at);
    Reply::Say { text }
}

/// Replies to `connect`: notes the request under a random code, unless it is refused.
pub fn connect(
    storage: &Storage,
    pending: &mut PendingVerifications,
    discord_id: u64,
    mc_username: &str,
    now: u64,
) -> (r: Reply)
    requires
        storage.wf(),
        old(pending).wf(),
        now + verification::CODE_LIFETIME_MS <= u64::MAX,
    ensures
        final(pending).wf(),
        match connect_refusal(storage@, old(pending)@, discord_id, mc_username@) {
            Some(why) => r@ == (ReplyView::Say { text: why }) && final(pending)@ == old(pending)@,
            None => exists|code: Seq<char>|
                #![trigger is_code(code)]
                is_code(code) && requested(
                    old(pending)@,
                    final(pending)@,
                    discord_id,
                    mc_username@,
                    code,
                    now,
                    r@,
                ),
        },
{
    if let Some(why) = refuse_connect(storage, pending, discord_id, mc_username) {
        return Reply::Say { text: why };
    }
    let code = generate_verification_code();
    connect_with_code(storage, pending, discord_id, mc_username, code, now)
}

/// Replies to `disconnect`, once the database has undone the link. A user who is not linked is told
/// so, whatever the database did.
pub fn disconnect(storage: &mut Storage, discord_id: u64, saved: Outcome<()>) -> (r: Result<
    Reply,
    StorageError,
>)
    requires
        old(storage).wf(),
    ensures
        final(storage).wf(),
        match accounts::mc_of(old(storage)@.accounts, discord_id) {
            None => {
                &&& final(storage)@ == old(storage)@
                &&& r matches Ok(reply) && reply@ == (ReplyView::Say {
                    text: "❌ You haven't connected a Minecraft account yet. Use `/connect <username>` first."@,
                })
            },
            Some(mc) => match storage::result_of(saved) {
                Ok(_) => {
                    &&& final(storage)@ == storage::memory_disconnected(old(storage)@, discord_id)
                    &&& r matches Ok(reply) && reply@ == (ReplyView::Say {
                        text: "🔓 Disconnected. Your Minecraft account **"@ + mc
                            + "** is no longer linked."@,
                    })
                },
                Err(e) => final(storage)@ == old(storage)@ && r == Err::<Reply, StorageError>(e),
            },
        },
{
    let mc = match storage.get_mc_from_dc(discord_id) {
        Some(mc) => mc,
        None => return Ok(
            Reply::Say {
                text: "❌ You haven't connected a Minecraft account yet. Use `/connect <username>` first.".to_owned(),
            },
        ),
    };
    match storage.remove_connection(discord_id, saved) {
        Ok(_) => Ok(
            Reply::Say {
                text: three(
                    "🔓 Disconnected. Your Minecraft account **",
                    mc.as_str(),
                    "** is no longer linked.",
                ),
            },
        ),
        Err(e) => Err(e),
    }
}

/// Why a user may not change how the user takes part; `None` where the user may.
pub open spec fn preference_refusal(m: Memory, discord_id: u64) -> Option<Seq<char>> {
    if !m.privacy_enabled {
        Some("❌ Privacy features are currently disabled by the bot owner."@)
    } else if accounts::mc_of(m.accounts, discord_id) is None {
        Some("❌ You must `/connect` your Minecraft account first."@)
    } else {
        None
    }
}

/// Decides whether a user may change how the user takes part.
pub fn refuse_preference(storage: &Storage, discord_id: u64) -> (r: Option<String>)
    requires
        storage.wf(),
    ensures
        text::text_view(r) == preference_refusal(storage@, discord_id),
{
    if !storage.is_privacy_enabled() {
        return Some("❌ Privacy features are currently disabled by the bot owner.".to_owned());
    }
    if !storage.is_connected_dc(discord_id) {
        return Some("❌ You must `/connect` your Minecraft account first.".to_owned());
    }
    None
}

/// What came of a change of how a user takes part: refused, saved, or not saved.
pub open spec fn changed(
    before: Memory,
    after: Memory,
    discord_id: u64,
    new: Memory,
    saved: Outcome<()>,
    text: Seq<char>,
    r: Result<Reply, StorageError>,
) -> bool {
    match preference_refusal(before, discord_id) {
        Some(why) => after == before && (r matches Ok(reply) && reply@ == (ReplyView::Say {
            text: why,
        })),
        None => match storage::result_of(saved) {
            Ok(_) => after == new && (r matches Ok(reply) && reply@ == (ReplyView::Say { text })),
            Err(e) => after == before && r == Err::<Reply, StorageError>(e),
        },
    }
}

/// The memory once a user has left the bridge or come back.
pub open spec fn memory_subscribed(m: Memory, id: u64, opted_out: bool) -> Memory {
    Memory { join_leave_optout: storage::with_member(m.join_leave_optout, id, opted_out), ..m }
}

/// The memory once a user does not want to be mentioned, or does again.
pub open spec fn memory_mention_muted(m: Memory, id: u64, muted: bool) -> Memory {
    Memory { mute_mention: storage::with_member(m.mute_mention, id, muted), ..m }
}

/// Notes whether a user takes part, and replies.
fn subscribe(
    storage: &mut Storage,
    discord_id: u64,
    opted_out: bool,
    saved: Outcome<()>,
    text: &str,
) -> (r: Result<Reply, StorageError>)
    requires
        old(storage).wf(),
    ensures
        final(storage).wf(),
        changed(
            old(storage)@,
            final(storage)@,
            discord_id,
            memory_subscribed(old(storage)@, discord_id, opted_out),
            saved,
            text@,
            r,
        ),
{
    if let Some(why) = refuse_preference(storage, discord_id) {
        return Ok(Reply::Say { text: why });
    }
    match storage.set_join_leave_optout(discord_id, opted_out, saved) {
        Ok(_) => Ok(Reply::Say { text: text.to_owned() }),
        Err(e) => Err(e),
    }
}

/// Replies to `unsub`, once the database has noted it.
pub fn unsub(storage: &mut Storage, discord_id: u64, saved: Outcome<()>) -> (r: Result<
    Reply,
    StorageError,
>)
    requires
        old(storage).wf(),
    ensures
        final(storage).wf(),
        changed(
            old(storage)@,
            final(storage)@,
            discord_id,
            memory_subscribed(old(storage)@, discord_id, true),
            saved,
            "🔇 Your Minecraft activity will no longer be broadcast in the bridge, and your Discord messages will not be relayed to Minecraft."@,
            r,
        ),
{
    subscribe(
        storage,
        discord_id,
        true,
        saved,
        "🔇 Your Minecraft activity will no longer be broadcast in the bridge, and your Discord messages will not be relayed to Minecraft.",
    )
}

/// Replies to `sub`, once the database has noted it.
pub fn sub(storage: &mut Storage, discord_id: u64, saved: Outcome<()>) -> (r: Result<
    Reply,
    StorageError,
>)
    requires
        old(storage).wf(),
    ensures
        final(storage).wf(),
        changed(
            old(storage)@,
            final(storage)@,
            discord_id,
            memory_subscribed(old(storage)@, discord_id, false),
            saved,
            "🔊 Your Minecraft activity will now be broadcast in the bridge, and your Discord messages will be relayed to Minecraft."@,
            r,
        ),
{
    subscribe(
        storage,
        discord_id,
        false,
        saved,
        "🔊 Your Minecraft activity will now be broadcast in the bridge, and your Discord messages will be relayed to Minecraft.",
    )
}

/// Notes whether a user wants to be mentioned, and replies.
fn set_mentions(
    storage: &mut Storage,
    discord_id: u64,
    muted: bool,
    saved: Outcome<()>,
    text: &str,
) -> (r: Result<Reply, StorageError>)
    requires
        old(storage).wf(),
    ensures
        final(storage).wf(),
        changed(
            old(storage)@,
            final(storage)@,
            discord_id,
            memory_mention_muted(old(storage)@, discord_id, muted),
            saved,
            text@,
            r,
        ),
{
    if let Some(why) = refuse_preference(storage, discord_id) {
        return Ok(Reply::Say { text: why });
    }
    match storage.set_mute_mention(discord_id, muted, saved) {
        Ok(_) => Ok(Reply::Say { text: text.to_owned() }),
        Err(e) => Err(e),
    }
}

/// Replies to `mutemention`, once the database has noted it.
pub fn mutemention(storage: &mut Storage, discord_id: u64, saved: Outcome<()>) -> (r: Result<
    Reply,
    StorageError,
>)
    requires
        old(storage).wf(),
    ensures
        final(storage).wf(),
        changed(
            old(storage)@,
            final(storage)@,
            discord_id,
            memory_mention_muted(old(storage)@, discord_id, true),
            saved,
            "🔕 You will not be pinged when your Minecraft name is mentioned in chat."@,
            r,
        ),
{
    set_mentions(
        storage,
        discord_id,
        true,
        saved,
        "🔕 You will not be pinged when your Minecraft name is mentioned in chat.",
    )
}

/// Replies to `unmutemention`, once the database has noted it.
pub fn unmutemention(storage: &mut Storage, discord_id: u64, saved: Outcome<()>) -> (r: Result<
    Reply,
    StorageError,
>)
    requires
        old(storage).wf(),
    ensures
        final(storage).wf(),
        changed(
            old(storage)@,
            final(storage)@,
            discord_id,
            memory_mention_muted(old(storage)@, discord_id, false),
            saved,
            "🔔 You will be pinged when your Minecraft name is mentioned in chat."@,
            r,
        ),
{
    set_mentions(
        storage,
        discord_id,
        false,
        saved,
        "🔔 You will be pinged when your Minecraft name is mentioned in chat.",
    )
}

/// Whether a user is among the owners.
fn owns(owners: &[u64], author_id: u64) -> (r: bool)
    ensures
        r == owners@.contains(author_id),
{
    let mut i: usize = 0;
    while i < owners.len()
        invariant
            i <= owners@.len(),
            forall|j: int| 0 <= j < i ==> owners@[j] != author_id,
        decreases owners@.len() - i,
    {
        if owners[i] == author_id {
            assert(owners@[i as int] == author_id);
            return true;
        }
        i = i + 1;
    }
    false
}

/// Why a user may not give a command of the owner; `None` where the user may.
pub fn is_owner(owners: &[u64], author_id: u64) -> (r: Option<String>)
    ensures
        text::text_view(r) == if owners@.contains(author_id) {
            None
        } else {
            Some("❌ **Access Denied:** This command is restricted to the Bot Owner."@)
        },
{
    if owns(owners, author_id) {
        None
    } else {
        Some("❌ **Access Denied:** This command is restricted to the Bot Owner.".to_owned())
    }
}

/// Why a user may not give a command of the owner and the administrators; `None` where the user may.
/// `admin` says whether the user is an administrator: nothing outside a guild, for a user who is no
/// member, and where the guild is not known.
pub fn is_owner_or_admin(owners: &[u64], author_id: u64, admin: Option<bool>) -> (r: Option<String>)
    ensures
        text::text_view(r) == if owners@.contains(author_id) || admin == Some(true) {
            None
        } else {
            Some(
                "❌ **Access Denied:** This command is restricted to the Bot Owner and Server Administrators."@,
            )
        },
{
    if owns(owners, author_id) {
        return None;
    }
    match admin {
        Some(true) => None,
        _ => Some(
            "❌ **Access Denied:** This command is restricted to the Bot Owner and Server Administrators.".to_owned(),
        ),
    }
}

/// What `privacy` is asked to do.
#[derive(Debug, Clone, Copy, PartialEq, Eq, Structural)]
pub enum PrivacyAction {
    Enable,
    Disable,
    Status,
}

/// `s` is the word, in small or capital letters.
pub open spec fn is_word(s: Seq<char>, word: Seq<char>) -> bool {
    s.len() == word.len() && log_parser::begins_with(s, word)
}

/// Whether `s` is the word, in small or capital letters.
fn says(s: &str, word: &str) -> (r: bool)
    ensures
        r == is_word(s@, word@),
{
    let v = chars_of(s);
    let w = chars_of(word);
    if v.len() != w.len() {
        return false;
    }
    let mut i: usize = 0;
    while i < v.len()
        invariant
            v@ == s@,
            w@ == word@,
            v@.len() == w@.len(),
            i <= v@.len(),
            forall|j: int| 0 <= j < i ==> text::lower(#[trigger] v@[j]) == text::lower(w@[j]),
        decreases v@.len() - i,
    {
        if to_lower(v[i]) != to_lower(w[i]) {
            assert(text::lower(s@[i as int]) != text::lower(word@[i as int]));
            return false;
        }
        i = i + 1;
    }
    true
}

/// What a word asks `privacy` to do.
pub open spec fn privacy_action(action: Option<Seq<char>>) -> PrivacyAction {
    match action {
        Some(word) => if is_word(word, "enable"@) || is_word(word, "on"@) {
            PrivacyAction::Enable
        } else if is_word(word, "disable"@) || is_word(word, "off"@) {
            PrivacyAction::Disable
        } else {
            PrivacyAction::Status
        },
        None => PrivacyAction::Status,
    }
}

/// Reads what `privacy` is asked to do; anything but turning the features on or off asks how they
/// are.
pub fn read_privacy_action(action: &Option<String>) -> (r: PrivacyAction)
    ensures
        r == privacy_action(text::text_view(*action)),
{
    match action {
        Some(word) => {
            let word = word.as_str();
            if says(word, "enable") || says(word, "on") {
                PrivacyAction::Enable
            } else if says(word, "disable") || says(word, "off") {
                PrivacyAction::Disable
            } else {
                PrivacyAction::Status
            }
        },
        None => PrivacyAction::Status,
    }
}

/// The reply to `privacy`.
pub open spec fn privacy_text(action: PrivacyAction, enabled: bool) -> Seq<char> {
    match action {
        PrivacyAction::Enable => {
            "🔒 **Privacy features enabled.**\n\nDC→MC requires /connect, MC→DC respects /unsub, and cross-chat mentions are active."@
        },
        PrivacyAction::Disable => {
            "🔓 **Privacy features disabled.**\n\nThe bridge is an open pipe in both directions."@
        },
        PrivacyAction::Status => {
            "**Privacy features** are currently **"@ + (if enabled {
                "🔒 enabled"@
            } else {
                "🔓 disabled"@
            }) + "**.\n\nUse `/privacy enable` or `/privacy disable` to toggle."@
        },
    }
}

/// Replies to `privacy`: turns the features on or off, once the database has, or says how they are.
pub fn privacy(storage: &mut Storage, action: PrivacyAction, saved: Outcome<()>) -> (r: Result<
    Reply,
    StorageError,
>)
    requires
        old(storage).wf(),
    ensures
        final(storage).wf(),
        if action is Status || storage::result_of(saved) is Ok {
            &&& r matches Ok(reply) && reply@ == (ReplyView::Say {
                text: privacy_text(action, old(storage)@.privacy_enabled),
            })
            &&& final(storage)@ == match action {
                PrivacyAction::Enable => Memory { privacy_enabled: true, ..old(storage)@ },
                PrivacyAction::Disable => Memory { privacy_enabled: false, ..old(storage)@ },
                PrivacyAction::Status => old(storage)@,
            }
        } else {
            r == Err::<Reply, StorageError>(storage::result_of(saved)->Err_0) && final(storage)@
                == old(storage)@
        },
{
    match action {
        PrivacyAction::Enable => match storage.set_privacy_enabled(true, saved) {
            Ok(_) => Ok(
                Reply::Say {
                    text: "🔒 **Privacy features enabled.**\n\nDC→MC requires /connect, MC→DC respects /unsub, and cross-chat mentions are active.".to_owned(),
                },
            ),
            Err(e) => Err(e),
        },
        PrivacyAction::Disable => match storage.set_privacy_enabled(false, saved) {
            Ok(_) => Ok(
                Reply::Say {
                    text: "🔓 **Privacy features disabled.**\n\nThe bridge is an open pipe in both directions.".to_owned(),
                },
            ),
            Err(e) => Err(e),
        },
        PrivacyAction::Status => {
            let status = if storage.is_privacy_enabled() {
                "🔒 enabled"
            } else {
                "🔓 disabled"
            };
            Ok(
                Reply::Say {
                    text: three(
                        "**Privacy features** are currently **",
                        status,
                        "**.\n\nUse `/privacy enable` or `/privacy disable` to toggle.",
                    ),
                },
            )
        },
    }
}

/// What is known of a command.
#[derive(Debug)]
pub struct CommandInfo {
    pub name: String,
    pub description: Option<String>,
    pub help_text: Option<String>,
}

/// The first command of a name.
pub open spec fn command_named(commands: Seq<CommandInfo>, name: Seq<char>) -> Option<CommandInfo>
    decreases commands.len(),
{
    if commands.len() == 0 {
        None
    } else if commands[0].name@ == name {
        Some(commands[0])
    } else {
        command_named(commands.skip(1), name)
    }
}

/// The text, or another where there is none.
pub open spec fn text_or(s: Option<String>, fallback: Seq<char>) -> Seq<char> {
    match s {
        Some(s) => s@,
        None => fallback,
    }
}

/// What is shown of a command: its help, or else its description.
pub open spec fn command_embed(c: CommandInfo) -> EmbedView {
    EmbedView {
        description: Some(
            match c.help_text {
                Some(help) => help@,
                None => text_or(
                    c.description,
                    "No detailed documentation available for this command."@,
                ),
            },
        ),
        ..embed::titled("ℹ️ Detailed Help: /"@ + c.name@, 0x3498db)
    }
}

/// The fields of the list of commands.
pub open spec fn command_fields(commands: Seq<CommandInfo>) -> Seq<(Seq<char>, Seq<char>, bool)> {
    commands.map_values(
        |c: CommandInfo|
            (
                "`~"@ + c.name@ + "`"@,
                text_or(c.description, "No description provided."@),
                false,
            ),
    )
}

/// The footer of the list of commands.
pub open spec fn help_footer(privacy: bool, connected: bool) -> Seq<char> {
    if !privacy {
        "🔓 Privacy features are disabled by the bot owner. Connect/sub/mute commands have no effect."@
    } else if !connected {
        "💡 Use /connect <mc-username> to link your account — required for your messages to reach Minecraft."@
    } else {
        "Use ~command or \"hey reze, command\" to use any of these commands"@
    }
}

/// The list of commands.
pub open spec fn help_embed(commands: Seq<CommandInfo>, privacy: bool, connected: bool) -> EmbedView {
    EmbedView {
        description: Some("Here's a list of all the commands you can use:"@),
        fields: command_fields(commands),
        thumbnail: Some(
            "https://media1.giphy.com/media/v1.Y2lkPTc5MGI3NjExN3hja2kyZ3NqdXFxZHlzMWowNXdxcWtpMzA3aW9hNGVuNngwcDZ4OCZlcD12MV9pbnRlcm5hbF9naWZfYnlfaWQmY3Q9Zw/IKFVtPf8jP6KJH16dB/giphy.gif"@,
        ),
        footer: Some(help_footer(privacy, connected)),
        ..embed::titled("💥 Hello! こんにちは！~\n\n"@, 0x3498db)
    }
}

/// Finds the first command of a name.
fn find_command<'a>(commands: &'a [CommandInfo], name: &str) -> (r: Option<&'a CommandInfo>)
    ensures
        match r {
            Some(c) => command_named(commands@, name@) == Some(*c),
            None => command_named(commands@, name@) is None,
        },
{
    let mut i: usize = 0;
    assert(commands@.skip(0) =~= commands@);
    while i < commands.len()
        invariant
            i <= commands@.len(),
            command_named(commands@, name@) == command_named(commands@.skip(i as int), name@),
        decreases commands@.len() - i,
    {
        assert(commands@.skip(i as int)[0] == commands@[i as int]);
        if same_text(commands[i].name.as_str(), name) {
            return Some(&commands[i]);
        }
        assert(commands@.skip(i as int).skip(1) =~= commands@.skip(i + 1));
        i = i + 1;
    }
    None
}

/// Shows what is known of a command.
fn show_command(c: &CommandInfo) -> (r: Embed)
    ensures
        r@ == command_embed(*c),
{
    let description = match &c.help_text {
        Some(help) => help.clone(),
        None => match &c.description {
            Some(d) => d.clone(),
            None => "No detailed documentation available for this command.".to_owned(),
        },
    };
    let mut title = "ℹ️ Detailed Help: /".to_owned();
    title.append(c.name.as_str());
    Embed::new(title, 0x3498db).described(description)
}

/// Shows the list of commands.
fn show_commands(commands: &[CommandInfo], privacy: bool, connected: bool) -> (r: Embed)
    ensures
        r@ == help_embed(commands@, privacy, connected),
{
    let footer = if !privacy {
        "🔓 Privacy features are disabled by the bot owner. Connect/sub/mute commands have no effect."
    } else if !connected {
        "💡 Use /connect <mc-username> to link your account — required for your messages to reach Minecraft."
    } else {
        "Use ~command or \"hey reze, command\" to use any of these commands"
    };
    let mut e = Embed::new("💥 Hello! こんにちは！~\n\n".to_owned(), 0x3498db).described(
        "Here's a list of all the commands you can use:".to_owned(),
    ).pictured(
        "https://media1.giphy.com/media/v1.Y2lkPTc5MGI3NjExN3hja2kyZ3NqdXFxZHlzMWowNXdxcWtpMzA3aW9hNGVuNngwcDZ4OCZlcD12MV9pbnRlcm5hbF9naWZfYnlfaWQmY3Q9Zw/IKFVtPf8jP6KJH16dB/giphy.gif".to_owned(),
    ).footed(footer.to_owned());
    let ghost base = e@;
    let mut i: usize = 0;
    assert(command_fields(commands@.take(0)) =~= base.fields);
    while i < commands.len()
        invariant
            i <= commands@.len(),
            e@ == (EmbedView { fields: command_fields(commands@.take(i as int)), ..base }),
        decreases commands@.len() - i,
    {
        let c = &commands[i];
        let description = match &c.description {
            Some(d) => d.clone(),
            None => "No description provided.".to_owned(),
        };
        e = e.with_field(three("`~", c.name.as_str(), "`"), description, false);
        proof {
            assert(commands@.take(i + 1) =~= commands@.take(i as int).push(commands@[i as int]));
            assert(e@.fields =~= command_fields(commands@.take(i + 1)));
        }
        i = i + 1;
    }
    assert(commands@.take(i as int) =~= commands@);
    e
}

/// The reply to `help`.
pub open spec fn help_reply(
    commands: Seq<CommandInfo>,
    target: Option<Seq<char>>,
    privacy: bool,
    connected: bool,
) -> ReplyView {
    match target {
        Some(name) => match command_named(commands, name) {
            Some(c) => ReplyView::Show { embed: command_embed(c) },
            None => ReplyView::Say { text: "❌ Command `"@ + name + "` not found."@ },
        },
        None => ReplyView::Show { embed: help_embed(commands, privacy, connected) },
    }
}

/// Replies to `help`: on one command, or with the list of commands.
pub fn help(
    commands: &[CommandInfo],
    target: &Option<String>,
    storage: &Storage,
    author_id: u64,
) -> (r: Reply)
    requires
        storage.wf(),
    ensures
        r@ == help_reply(
            commands@,
            text::text_view(*target),
            storage@.privacy_enabled,
            accounts::mc_of(storage@.accounts, author_id) is Some,
        ),
{
    match target {
        Some(name) => match find_command(commands, name.as_str()) {
            Some(c) => Reply::Show { embed: show_command(c) },
            None => Reply::Say { text: three("❌ Command `", name.as_str(), "` not found.") },
        },
        None => Reply::Show {
            embed: show_commands(
                commands,
                storage.is_privacy_enabled(),
                storage.is_connected_dc(author_id),
            ),
        },
    }
}

/// The line of the log that shows a player's chat: its head, the mark of unsigned chat or not, the
/// player's name and what the player says.
pub open spec fn shows_chat(line: Seq<char>, name: Seq<char>, message: Seq<char>) -> bool {
    log_parser::info_body(line) is Some && log_parser::past_mark(log_parser::info_body(line)->0)
        == "<"@ + name + "> "@ + message
}

/// What a user is asked to type confirms the code.
pub proof fn law_typed_code_is_read(code: Seq<char>)
    requires
        is_code(code),
    ensures
        log_parser::confirmed_code("@s CONFIRM-"@ + code) == Some(code),
{
    reveal_strlit("@s CONFIRM-");
    reveal_strlit("@s confirm-");
    let s = "@s CONFIRM-"@ + code;
    let p = "@s confirm-"@;
    assert(p.len() == 11 && "@s CONFIRM-"@.len() == 11);
    assert forall|i: int| 0 <= i < p.len() implies text::lower(#[trigger] s[i]) == text::lower(
        p[i],
    ) by {
        assert(s[i] == "@s CONFIRM-"@[i]);
        if i == 3 {
            assert(s[3] == 'C' && p[3] == 'c');
        } else if i == 4 {
            assert(s[4] == 'O' && p[4] == 'o');
        } else if i == 5 {
            assert(s[5] == 'N' && p[5] == 'n');
        } else if i == 6 {
            assert(s[6] == 'F' && p[6] == 'f');
        } else if i == 7 {
            assert(s[7] == 'I' && p[7] == 'i');
        } else if i == 8 {
            assert(s[8] == 'R' && p[8] == 'r');
        } else if i == 9 {
            assert(s[9] == 'M' && p[9] == 'm');
        }
    }
    assert(s.skip(11) =~= code);
    assert('0' <= code[0] <= '9' || 'A' <= code[0] <= 'F');
    assert('0' <= code[15] <= '9' || 'A' <= code[15] <= 'F');
    assert(text::trim_start(code) == code);
    assert(code.last() == code[15]);
    assert(text::trim_end(code) == code);
    assert(text::upper_text(code) =~= code);
}

/// Whoever types the code that was asked for, in Minecraft chat, in time, and as the player whom the
/// request names, is linked with that player: the line of the log is read as the player's chat, the
/// chat is read as the code, and the bot links the Discord user who made the request.
pub proof fn law_typed_code_links(
    line: Seq<char>,
    recent: Set<Seq<char>>,
    name: Seq<char>,
    code: Seq<char>,
    before: Map<Seq<char>, PendingVerification>,
    after: Map<Seq<char>, PendingVerification>,
    now: u64,
    v: verification::Verdict,
)
    requires
        log_parser::is_player_name(name),
        is_code(code),
        shows_chat(line, name, "@s CONFIRM-"@ + code),
        before.contains_key(code),
        before[code].mc_username@ == name,
        now < before[code].expires_at,
        verification::judged(before, after, code, name, now, v),
    ensures
        ({
            let message = "@s CONFIRM-"@ + code;
            let event = log_parser::EventView::Chat { username: name, message };
            &&& log_parser::event_of(line, recent) == Some(event)
            &&& crate::bot::types::message_for(event) matches Some(m) && m.username == name
                && log_parser::confirmed_code(m.content) == Some(code)
            &&& crate::bot::handler::told(v) == (crate::bot::handler::ForwardingView::Link {
                discord_id: before[code].discord_user_id,
                mc_username: name,
            })
            &&& !after.contains_key(code)
        }),
{
    let message = "@s CONFIRM-"@ + code;
    law_typed_code_is_read(code);
    reveal_strlit("<");
    reveal_strlit("> ");
    reveal_strlit("@s CONFIRM-");
    let t = log_parser::past_mark(log_parser::info_body(line)->0);
    assert(t == "<"@ + name + "> "@ + message);
    let inner = t.skip(1);
    let n = name.len() as int;
    assert(inner =~= name + "> "@ + message);
    assert(inner[n] == '>');
    assert(inner[n + 1] == ' ');
    assert forall|j: int| 0 <= j < n implies text::is_name_char(#[trigger] inner[j]) by {
        assert(inner[j] == name[j]);
    }
    log_parser::lemma_name_run_is(inner, n);
    assert(inner.take(n) =~= name);
    assert(inner.skip(n + 2) =~= message);
    assert(!message.contains('\n')) by {
        if message.contains('\n') {
            let j = message.index_of('\n');
            assert(message[j] == '\n');
            if j >= 11 {
                assert(message[j] == code[j - 11]);
            } else {
                assert(message[j] == "@s CONFIRM-"@[j]);
            }
        }
    }
}

} // verus!
