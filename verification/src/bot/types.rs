//! The messages that pass between the two sides of the bridge.

use crate::log_parser::{EventView, MinecraftEvent};
use vstd::prelude::*;
use vstd::string::*;

verus! {

/// A message from Minecraft for the bridged Discord channel.
#[derive(Debug, Clone)]
pub struct FromMinecraftEvent {
    /// Who speaks: a player for chat, a symbol for what the server reports.
    pub username: String,
    pub content: String,
    /// The player of whom the message tells; empty where there is none.
    pub mc_username: String,
}

/// A message from Discord for Minecraft.
#[derive(Debug, Clone)]
pub struct FromDiscordEvent {
    pub username: String,
    pub content: String,
}

/// A request to link a Discord user with a Minecraft account, which waits for the code.
#[derive(Debug)]
pub struct PendingVerification {
    pub discord_user_id: u64,
    pub mc_username: String,
    /// The moment, in milliseconds of a clock that does not run backwards, from which on the code
    /// is no longer taken.
    pub expires_at: u64,
    pub attempts: u32,
}

/// What the bot is started with.
pub struct BotParams {
    pub token: String,
    pub owner_id: u64,
    pub guild_id: Option<u64>,
}

/// A message from Minecraft with its texts as sequences of characters.
pub struct MessageView {
    pub username: Seq<char>,
    pub content: Seq<char>,
    pub mc_username: Seq<char>,
}

impl View for FromMinecraftEvent {
    type V = MessageView;

    open spec fn view(&self) -> MessageView {
        MessageView {
            username: self.username@,
            content: self.content@,
            mc_username: self.mc_username@,
        }
    }
}

/// A message that the server's symbol `mark` introduces.
pub open spec fn report(mark: Seq<char>, content: Seq<char>, player: Seq<char>) -> MessageView {
    MessageView { username: mark, content, mc_username: player }
}

/// What an event is forwarded as; `None` where it is not forwarded.
pub open spec fn message_for(e: EventView) -> Option<MessageView> {
    match e {
        EventView::Chat { username, message } => Some(
            MessageView { username, content: message, mc_username: username },
        ),
        EventView::Join { username } => Some(
            report("🟢"@, "**"@ + username + "** joined the game"@, username),
        ),
        EventView::Leave { username } => Some(
            report("🔴"@, "**"@ + username + "** left the game"@, username),
        ),
        EventView::Disconnect { username, reason } => Some(
            report("🔴"@, "**"@ + username + "** left the game ("@ + reason + ")"@, username),
        ),
        EventView::Death { username, message } => Some(
            report("⚰️"@, "**"@ + username + "** "@ + message, username),
        ),
        EventView::Advancement { username, advancement } => Some(
            report(
                "🏆"@,
                "**"@ + username + "** has made the advancement ["@ + advancement + "]"@,
                username,
            ),
        ),
        EventView::Command { username, command } => Some(
            report("⌨️"@, "**"@ + username + "** used command: `"@ + command + "`"@, username),
        ),
        EventView::ServerSay { message } => Some(
            report("📢"@, "[Server] "@ + message, Seq::empty()),
        ),
        EventView::ServerStart => Some(report("🚀"@, "Server started!"@, Seq::empty())),
        EventView::ServerStop => Some(report("🛑"@, "Server stopped!"@, Seq::empty())),
        EventView::SaveComplete => Some(report("💾"@, "World saved!"@, Seq::empty())),
        EventView::PlayerList { .. } => None,
        EventView::UuidResolved { .. } => None,
    }
}

/// Builds a message that the server's symbol introduces.
fn into_bridge_event(username: &str, content: String, mc_username: String) -> (r:
    FromMinecraftEvent)
    ensures
        r@ == report(username@, content@, mc_username@),
{
    FromMinecraftEvent { username: username.to_owned(), content, mc_username }
}

/// `**name**`, followed by `rest`.
fn about(name: &String, rest: &str) -> (r: String)
    ensures
        r@ == "**"@ + name@ + rest@,
{
    let mut s = "**".to_owned();
    s.append(name.as_str());
    s.append(rest);
    s
}

impl MinecraftEvent {
    /// Turns an event into the message that is forwarded for it.
    #[must_use]
    pub fn into_discord(self) -> (r: Option<FromMinecraftEvent>)
        ensures
            match r {
                Some(m) => message_for(self@) == Some(m@),
                None => message_for(self@) is None,
            },
    {
        match self {
            MinecraftEvent::Chat { username, message } => Some(
                FromMinecraftEvent { mc_username: username.clone(), username, content: message },
            ),
            MinecraftEvent::Join { username } => Some(
                into_bridge_event("🟢", about(&username, "** joined the game"), username),
            ),
            MinecraftEvent::Leave { username } => Some(
                into_bridge_event("🔴", about(&username, "** left the game"), username),
            ),
            MinecraftEvent::Disconnect { username, reason } => {
                let mut content = about(&username, "** left the game (");
                content.append(reason.as_str());
                content.append(")");
                Some(into_bridge_event("🔴", content, username))
            },
            MinecraftEvent::Death { username, message } => {
                let mut content = about(&username, "** ");
                content.append(message.as_str());
                Some(into_bridge_event("⚰️", content, username))
            },
            MinecraftEvent::Advancement { username, advancement } => {
                let mut content = about(&username, "** has made the advancement [");
                content.append(advancement.as_str());
                content.append("]");
                Some(into_bridge_event("🏆", content, username))
            },
            MinecraftEvent::Command { username, command } => {
                let mut content = about(&username, "** used command: `");
                content.append(command.as_str());
                content.append("`");
                Some(into_bridge_event("⌨️", content, username))
            },
            MinecraftEvent::ServerSay { message } => {
                let mut content = "[Server] ".to_owned();
                content.append(message.as_str());
                Some(into_bridge_event("📢", content, String::new()))
            },
            MinecraftEvent::ServerStart => Some(
                into_bridge_event("🚀", "Server started!".to_owned(), String::new()),
            ),
            MinecraftEvent::ServerStop => Some(
                into_bridge_event("🛑", "Server stopped!".to_owned(), String::new()),
            ),
            MinecraftEvent::SaveComplete => Some(
                into_bridge_event("💾", "World saved!".to_owned(), String::new()),
            ),
            MinecraftEvent::PlayerList { .. } => None,
            MinecraftEvent::UuidResolved { .. } => None,
        }
    }
}

/// Every event of a player is forwarded with the name of that player.
pub proof fn law_messages_name_their_player(e: EventView)
    ensures
        message_for(e) is Some ==> (message_for(e)->0).mc_username == match crate::log_parser::player_of(
            e,
        ) {
            Some(player) => player,
            None => Seq::<char>::empty(),
        },
{
}

} // verus!
