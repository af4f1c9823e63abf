//! What the bot does and replies.

use vvv::bot::commands::{
    code_of, connect, connect_with_code, disconnect, generate_verification_code, help, info,
    is_owner, is_owner_or_admin, is_valid_mc_username, leaderboard, listed_name, mutemention,
    or_default_address, parse_mc_address, parse_player_list, ping, ping_help, playtime, privacy,
    read_privacy_action, start_bridge, stats, stop_bridge, sub, target_player, top_players,
    total_secs, unmutemention, unsub, url_to_hostport, CommandInfo, JavaStatus, PrivacyAction,
    Reply, ServerAddress, ServerStatus,
};
use vvv::bot::handler::{
    channel_is_lost, event_handler, forward_event, link_reply, relay, welcome, DiscordEvent,
    DiscordMessage, Forwarding, Reaction,
};
use vvv::bot::mentions::{process_dc_mentions, process_mc_mentions};
use vvv::bot::types::FromMinecraftEvent;
use vvv::bot::verification::{PendingVerifications, Verdict, CODE_LIFETIME_MS, MAX_ATTEMPTS};
use vvv::log_parser::{parse_log_line, RecentDisconnects};
use vvv::storage::records::PlayerStats;
use vvv::storage::tables::RowWrite;
use vvv::storage::{Outcome, Storage, StorageError, StoredRows};

fn storage_of(links: &[(u64, &str)]) -> Storage {
    Storage::open(
        StoredRows {
            dc_to_mc: links.iter().map(|(id, mc)| (*id, mc.to_string())).collect(),
            join_leave_optout: vec![],
            mute_mention: vec![],
            muted_users: vec![],
            privacy_enabled: None,
            player_profile_enabled: None,
        },
        "mc:1".to_string(),
    )
}

fn text(reply: Reply) -> String {
    match reply {
        Reply::Say { text } => text,
        Reply::Show { embed } => panic!("an embed: {embed:?}"),
    }
}

fn shown(reply: Reply) -> vvv::bot::embed::Embed {
    match reply {
        Reply::Show { embed } => embed,
        Reply::Say { text } => panic!("a text: {text}"),
    }
}

fn fields(embed: &vvv::bot::embed::Embed) -> Vec<(&str, &str, bool)> {
    embed.fields.iter().map(|f| (f.name.as_str(), f.value.as_str(), f.inline)).collect()
}

#[test]
fn ping_is_answered() {
    assert_eq!(text(ping()), "UwU Helloo!");
    assert_eq!(ping_help(), "Use this to check if I'm alive!");
}

#[test]
fn players_in_a_reply() {
    let names = |s: &str| parse_player_list(s);
    assert_eq!(names("There are 2 of a max of 20 players online: a, b"), ["a", "b"]);
    assert_eq!(names("There are 0 of a max of 20 players online:"), Vec::<String>::new());
    assert_eq!(names("players online. : x ,, y"), ["x", "y"]);
    assert_eq!(names("2 online a"), ["a"]);
    assert_eq!(names("Error executing RCON list: Rcon(\"x\")"), Vec::<String>::new());
    assert_eq!(names("online first online: z"), ["z"]);
}

#[test]
fn addresses_of_servers() {
    let address = |host: &str, port: Option<u16>| ServerAddress {
        host: Some(host.to_string()),
        port,
    };
    assert_eq!(parse_mc_address("localhost:25565"), address("localhost", Some(25565)));
    assert_eq!(parse_mc_address("play.example.org"), address("play.example.org", None));
    assert_eq!(parse_mc_address("mc://10.0.0.1:7"), address("10.0.0.1", Some(7)));
    assert_eq!(parse_mc_address("http://a.b:80"), address("a.b", None));
    assert_eq!(parse_mc_address("a:b:c"), address("localhost", Some(25565)));
    assert_eq!(parse_mc_address("bad host://x"), address("localhost", Some(25565)));
    assert_eq!(or_default_address(None), address("localhost", Some(25565)));
    let nowhere = ServerAddress { host: None, port: None };
    assert_eq!(url_to_hostport(&nowhere), "localhost");
    assert_eq!(url_to_hostport(&address("a.b", Some(1))), "a.b:1");
    assert_eq!(url_to_hostport(&address("a.b", None)), "a.b");
    for raw in ["localhost:25565", "[::1]:5", "EXAMPLE.org:1", "a b", "x://", "host:99999"] {
        let url = if raw.contains("://") { raw.to_string() } else { format!("mc://{raw}") };
        let expected = url::Url::parse(&url)
            .unwrap_or_else(|_| url::Url::parse("mc://localhost:25565").unwrap());
        let read = parse_mc_address(raw);
        assert_eq!(read.host.as_deref(), expected.host_str(), "{raw}");
        assert_eq!(read.port, expected.port(), "{raw}");
    }
}

fn status(favicon: Option<&str>, online: i64) -> Option<ServerStatus> {
    Some(ServerStatus {
        latency: "12.3".into(),
        java: Some(JavaStatus {
            description: "My Server".into(),
            favicon: favicon.map(String::from),
            online,
            max: 50,
        }),
    })
}

#[test]
fn info_shows_the_server() {
    let reply = Ok("There are 2 of a max of 50 players online: abel, tess".to_string());
    let (embed, icon) = info(reply, status(Some("data:image/png;base64,aGk="), 2));
    assert_eq!(embed.title, "🎮 My Server");
    assert_eq!(embed.color, 0x9b59b6);
    assert_eq!(
        embed.description.as_deref(),
        Some("👥 **Current Online Players:**\n\n1. `abel`\n2. `tess`\n")
    );
    assert_eq!(
        fields(&embed),
        [("Players Online", "`2/50`", true), ("Latency", "`12.3ms`", true)]
    );
    assert_eq!(embed.thumbnail.as_deref(), Some("attachment://server_icon.png"));
    assert_eq!(icon, Some(b"hi".to_vec()));
}

#[test]
fn info_without_names_or_server() {
    let (embed, icon) = info(Err("Rcon(\"x\")".into()), status(Some("not base64!"), 3));
    assert_eq!(
        embed.description.as_deref(),
        Some("⚠️ *Failed to safely map names via RCON, but players are active.*")
    );
    assert_eq!(icon, None);
    assert_eq!(embed.thumbnail, None);
    let (embed, icon) = info(Err("Rcon(\"x\")".into()), None);
    assert_eq!(embed.title, "🎮 Minecraft Server Status");
    assert_eq!(embed.description.as_deref(), Some("*No players are currently online.*"));
    assert_eq!(
        fields(&embed),
        [("Players Online", "`0/20`", true), ("Latency", "`0.0ms`", true)]
    );
    assert_eq!(icon, None);
    let (_, icon) = info(Ok(String::new()), status(Some("aGk="), 0));
    assert_eq!(icon, Some(b"hi".to_vec()));
}

#[test]
fn bridge_is_bound_and_unbound() {
    let storage = storage_of(&[]);
    let mut bridge = None;
    let (reply, writes) = start_bridge(&mut bridge, &storage, 7, None);
    assert_eq!(bridge, Some(7));
    assert_eq!(
        text(reply),
        "🟢 **Bridge Established!** Minecraft chat will now sync to <#7>."
    );
    assert_eq!(
        writes,
        [RowWrite::PutBridge { channel_id: 7, guild_id: 0, mc_server_address: "mc:1".into() }]
    );
    let (reply, writes) = stop_bridge(&mut bridge, &storage, 8);
    assert_eq!(
        text(reply),
        "❌ This channel (<#8>) isn't currently bound to an active bridge."
    );
    assert_eq!((bridge, writes), (Some(7), None));
    let (reply, writes) = stop_bridge(&mut bridge, &storage, 7);
    let embed = shown(reply);
    assert_eq!(embed.title, "🛑 Bridge Severed!");
    assert_eq!(
        embed.description.as_deref(),
        Some("The live-chat stream to <#7> has been disconnected.")
    );
    assert_eq!((bridge, writes), (None, Some(vec![RowWrite::RemoveBridge])));
}

fn record() -> PlayerStats {
    PlayerStats {
        total_play_time_secs: 100_000,
        first_login_ts: 5,
        last_login_ts: 0,
        last_logout_ts: 9,
        total_logins: 1,
        total_deaths: 2,
        total_advancements: 3,
        total_messages: 4,
        total_commands: 5,
    }
}

#[test]
fn stats_are_shown() {
    assert_eq!(target_player(Some("tess".into()), "me"), "tess");
    assert_eq!(target_player(None, "me"), "me");
    assert_eq!(
        text(stats("tess", Ok(None), Ok(None))),
        "❌ No data found for player `tess`."
    );
    assert_eq!(
        text(stats("tess", Err(StorageError::AlreadyClaimed), Ok(Some(record())))),
        "❌ No data found for player `tess`."
    );
    assert_eq!(
        text(stats("tess", Ok(Some("u".into())), Ok(None))),
        "❌ No stats recorded for player `tess`."
    );
    let embed = shown(stats("tess", Ok(Some("u".into())), Ok(Some(record()))));
    assert_eq!(embed.title, "📊 Stats: tess");
    assert_eq!(
        fields(&embed),
        [
            ("Total Play Time", "`1d 3h 46m`", true),
            ("Total Logins", "`1`", true),
            ("Total Deaths", "`2`", true),
            ("Advancements", "`3`", true),
            ("Messages Sent", "`4`", true),
            ("Commands Used", "`5`", true),
            ("First Login", "<t:5:R>", true),
            ("Last Logout", "<t:9:R>", true),
        ]
    );
}

#[test]
fn play_time_is_shown_by_day() {
    let days = vec![("2026-01-02".to_string(), 3_900), ("2026-01-01".to_string(), 0)];
    assert_eq!(total_secs(&days), Some(3_900));
    let all = vec![("a".to_string(), u64::MAX), ("b".to_string(), 1)];
    assert_eq!(total_secs(&all), None);
    let embed = shown(playtime("tess", Ok(Some("u".into())), Ok(Some(record())), Ok(days)));
    assert_eq!(embed.title, "⏱️ Play Time: tess");
    assert_eq!(embed.color, 0x2ecc71);
    assert_eq!(
        fields(&embed),
        [
            ("Total", "`1d 3h 46m`", false),
            ("This Week", "`1h 5m`", false),
            ("Last 7 Days", "`2026-01-02`: 1h 5m\n`2026-01-01`: —\n", false),
        ]
    );
    assert_eq!(
        text(playtime("tess", Ok(Some("u".into())), Ok(None), Ok(vec![]))),
        "❌ No play time recorded for player `tess`."
    );
    let failed = Err(StorageError::BlockingPanic("x".into()));
    let embed = shown(playtime("tess", Ok(Some("u".into())), Ok(Some(record())), failed));
    assert_eq!(fields(&embed)[2], ("Last 7 Days", "", false));
}

#[test]
fn leaderboard_lists_ten() {
    let rows: Vec<(String, Option<String>, PlayerStats)> =
        (0..12).map(|i| (format!("u-{i}"), Some(format!("player{i}")), record())).collect();
    let top = top_players(Ok(rows));
    assert_eq!(top.len(), 10);
    let listed: Vec<(String, PlayerStats)> = top
        .into_iter()
        .map(|(uuid, name, stats)| (listed_name(name, &uuid).unwrap(), stats))
        .collect();
    let embed = shown(leaderboard(&listed[..2]));
    assert_eq!(embed.title, "🏆 Play Time Leaderboard");
    assert_eq!(
        embed.description.as_deref(),
        Some("1. **player0** — `1d 3h 46m`\n2. **player1** — `1d 3h 46m`\n")
    );
    assert_eq!(text(leaderboard(&[])), "❌ No player stats recorded yet.");
    assert!(top_players(Err(StorageError::AlreadyClaimed)).is_empty());
    assert_eq!(listed_name(Some("tess".into()), "u"), Some("tess".to_string()));
    assert_eq!(listed_name(None, "0ea1daff-54aa"), Some("0ea1daff".to_string()));
    assert_eq!(listed_name(None, "éééé-"), Some("éééé".to_string()));
    assert_eq!(listed_name(None, "short"), None);
    assert_eq!(listed_name(None, "abcdefgé"), None);
}

#[test]
fn codes_are_sixteen_digits() {
    for value in [0, 1, 255, 0x0123_4567_89ab_cdef, u64::MAX] {
        assert_eq!(code_of(value), format!("{value:016X}"));
    }
    let a = generate_verification_code();
    assert_eq!(a.len(), 16);
    assert!(a.chars().all(|c| c.is_ascii_digit() || ('A'..='F').contains(&c)));
    assert!((0..4).any(|_| generate_verification_code() != a));
}

#[test]
fn names_that_players_can_have() {
    assert!(is_valid_mc_username("abc"));
    assert!(is_valid_mc_username("Vodka_not_Rum123"));
    assert!(!is_valid_mc_username("ab"));
    assert!(!is_valid_mc_username("Vodka_not_Rum1234"));
    assert!(!is_valid_mc_username("a b c"));
    assert!(!is_valid_mc_username("áéí"));
}

#[test]
fn connect_is_refused_for_reasons() {
    let mut storage = storage_of(&[(1, "tess")]);
    let mut pending = PendingVerifications::new();
    let mut ask = |storage: &Storage, id: u64, mc: &str| {
        text(connect(storage, &mut pending, id, mc, 0))
    };
    assert!(ask(&storage, 2, "x").starts_with("❌ Invalid Minecraft username."));
    assert!(ask(&storage, 1, "other").starts_with("❌ You are already connected to a Minecraft"));
    assert_eq!(
        ask(&storage, 2, "tess"),
        "❌ The Minecraft account `tess` is already linked to another Discord user."
    );
    let first = ask(&storage, 2, "mona");
    assert!(first.starts_with("🔐 To verify you own `mona`, type this in Minecraft chat"));
    assert!(ask(&storage, 2, "mona").starts_with("❌ You already have a pending verification."));
    storage.set_privacy_enabled(false, Outcome::Done(())).unwrap();
    assert_eq!(
        ask(&storage, 3, "abel"),
        "❌ Privacy features are currently disabled by the bot owner."
    );
}

#[test]
fn typed_code_links_the_accounts() {
    let mut storage = storage_of(&[]);
    let mut pending = PendingVerifications::new();
    let asked = text(connect(&storage, &mut pending, 42, "karambit", 1_000));
    let code = &asked[asked.find("```").unwrap() + 3..asked.rfind("```").unwrap()];
    assert!(code.starts_with("@s CONFIRM-"));
    let line = format!("[12:11:32] [Async Chat Thread - #3/INFO]: [Not Secure] <karambit> {code}");
    let event = parse_log_line(&line, &mut RecentDisconnects::new()).unwrap();
    let message = event.into_discord().unwrap();
    let done = forward_event(&message, Some(7), &mut pending, &storage, 1_000 + CODE_LIFETIME_MS - 1);
    assert_eq!(
        done,
        Forwarding::Link { discord_id: 42, mc_username: "karambit".to_string() }
    );
    storage.set_connection(42, "karambit".into(), Outcome::Done(())).unwrap();
    assert_eq!(storage.get_dc_from_mc("karambit"), Some(42));
    assert_eq!(
        link_reply(42, "karambit", true),
        "✅ <@42> Connected! Your Minecraft account **karambit** is now linked."
    );
    assert_eq!(
        link_reply(42, "karambit", false),
        "❌ <@42> Failed to save connection. Please try again."
    );
    assert!(!pending.has_request_of(42));
}

fn chat(username: &str, content: &str) -> FromMinecraftEvent {
    FromMinecraftEvent {
        username: username.into(),
        content: content.into(),
        mc_username: username.into(),
    }
}

#[test]
fn late_and_wrong_codes() {
    let storage = storage_of(&[]);
    let mut pending = PendingVerifications::new();
    let asked = connect_with_code(&storage, &mut pending, 42, "tess", "00FF".into(), 0);
    assert_eq!(
        text(asked),
        "🔐 To verify you own `tess`, type this in Minecraft chat within **30 seconds**:\n\n```@s CONFIRM-00FF```"
    );
    let by_other = forward_event(&chat("abel", "@s CONFIRM-00FF"), Some(7), &mut pending, &storage, 1);
    assert_eq!(by_other, Forwarding::Nothing);
    let unbridged = forward_event(&chat("tess", "@s CONFIRM-00FF"), None, &mut pending, &storage, 1);
    assert_eq!(unbridged, Forwarding::Nothing);
    let late = forward_event(
        &chat("tess", "@s confirm-00ff"),
        Some(7),
        &mut pending,
        &storage,
        CODE_LIFETIME_MS,
    );
    assert_eq!(
        late,
        Forwarding::Say {
            text: "⏰ <@42> Verification for `tess` expired (took more than 30 seconds). Use `/connect` again.".into()
        }
    );
    connect_with_code(&storage, &mut pending, 42, "tess", "00FF".into(), 0);
    let mut wrong = || forward_event(&chat("tess", "@s confirm-1"), Some(7), &mut pending, &storage, 5);
    assert_eq!(wrong(), Forwarding::Nothing);
    assert_eq!(wrong(), Forwarding::Nothing);
    assert_eq!(
        wrong(),
        Forwarding::Say {
            text: "🚫 <@42> Verification for `tess` locked out after 3 failed attempts. Use `/connect` again.".into()
        }
    );
    assert_eq!(wrong(), Forwarding::Nothing);
}

#[test]
fn requests_are_forgotten_in_time() {
    let mut pending = PendingVerifications::new();
    pending.request("A".into(), 1, "abel".into(), 10);
    pending.request("B".into(), 2, "mona".into(), 20);
    pending.request("C".into(), 3, "tess".into(), 10);
    pending.forget_expired(10);
    assert!(!pending.has_request_of(1));
    assert!(pending.has_request_of(2));
    assert!(!pending.has_request_of(3));
    assert!(matches!(
        pending.confirm("B", "mona", 19),
        Verdict::Confirmed { discord_id: 2, mc_username } if mc_username == "mona"
    ));
    assert_eq!(MAX_ATTEMPTS, 3);
}

#[test]
fn disconnect_undoes_the_link() {
    let mut storage = storage_of(&[(1, "tess")]);
    let reply = disconnect(&mut storage, 2, Outcome::Done(())).unwrap();
    assert!(text(reply).starts_with("❌ You haven't connected a Minecraft account yet."));
    let failed = Outcome::Failed(StorageError::RedbCommit("x".into()));
    assert_eq!(
        disconnect(&mut storage, 1, failed),
        Err(StorageError::RedbCommit("x".into()))
    );
    assert!(storage.is_connected_dc(1));
    let reply = disconnect(&mut storage, 1, Outcome::Done(())).unwrap();
    assert_eq!(
        text(reply),
        "🔓 Disconnected. Your Minecraft account **tess** is no longer linked."
    );
    assert!(!storage.is_connected_dc(1));
}

#[test]
fn preferences_need_a_link_and_privacy() {
    let mut storage = storage_of(&[(1, "tess")]);
    let reply = unsub(&mut storage, 2, Outcome::Done(())).unwrap();
    assert_eq!(text(reply), "❌ You must `/connect` your Minecraft account first.");
    let reply = unsub(&mut storage, 1, Outcome::Done(())).unwrap();
    assert!(text(reply).starts_with("🔇 Your Minecraft activity will no longer be broadcast"));
    assert!(storage.is_join_leave_opted_out(1));
    let reply = sub(&mut storage, 1, Outcome::Done(())).unwrap();
    assert!(text(reply).starts_with("🔊 Your Minecraft activity will now be broadcast"));
    assert!(!storage.is_join_leave_opted_out(1));
    let reply = mutemention(&mut storage, 1, Outcome::Done(())).unwrap();
    assert!(text(reply).starts_with("🔕 You will not be pinged"));
    assert!(storage.is_mention_muted(1));
    let reply = unmutemention(&mut storage, 1, Outcome::Done(())).unwrap();
    assert!(text(reply).starts_with("🔔 You will be pinged"));
    assert!(!storage.is_mention_muted(1));
    let failed = Outcome::Panicked("p".into());
    assert_eq!(
        mutemention(&mut storage, 1, failed),
        Err(StorageError::BlockingPanic("p".into()))
    );
    storage.set_privacy_enabled(false, Outcome::Done(())).unwrap();
    let reply = unsub(&mut storage, 1, Outcome::Done(())).unwrap();
    assert_eq!(text(reply), "❌ Privacy features are currently disabled by the bot owner.");
}

#[test]
fn privacy_is_switched() {
    let mut storage = storage_of(&[]);
    let word = |s: &str| read_privacy_action(&Some(s.to_string()));
    assert_eq!(word("ENABLE"), PrivacyAction::Enable);
    assert_eq!(word("on"), PrivacyAction::Enable);
    assert_eq!(word("Off"), PrivacyAction::Disable);
    assert_eq!(word("disable"), PrivacyAction::Disable);
    assert_eq!(word("disabled"), PrivacyAction::Status);
    assert_eq!(read_privacy_action(&None), PrivacyAction::Status);
    let reply = privacy(&mut storage, PrivacyAction::Disable, Outcome::Done(())).unwrap();
    assert!(text(reply).starts_with("🔓 **Privacy features disabled.**"));
    assert!(!storage.is_privacy_enabled());
    let reply = privacy(&mut storage, PrivacyAction::Status, Outcome::Done(())).unwrap();
    assert_eq!(
        text(reply),
        "**Privacy features** are currently **🔓 disabled**.\n\nUse `/privacy enable` or `/privacy disable` to toggle."
    );
    let failed = Outcome::Failed(StorageError::RedbCommit("x".into()));
    assert!(privacy(&mut storage, PrivacyAction::Enable, failed).is_err());
    assert!(!storage.is_privacy_enabled());
    let reply = privacy(&mut storage, PrivacyAction::Enable, Outcome::Done(())).unwrap();
    assert!(text(reply).starts_with("🔒 **Privacy features enabled.**"));
}

#[test]
fn owners_and_administrators() {
    assert_eq!(is_owner(&[1, 2], 2), None);
    assert_eq!(
        is_owner(&[1, 2], 3).as_deref(),
        Some("❌ **Access Denied:** This command is restricted to the Bot Owner.")
    );
    assert_eq!(is_owner_or_admin(&[1], 1, None), None);
    assert_eq!(is_owner_or_admin(&[1], 3, Some(true)), None);
    let denied = "❌ **Access Denied:** This command is restricted to the Bot Owner and Server Administrators.";
    assert_eq!(is_owner_or_admin(&[1], 3, Some(false)).as_deref(), Some(denied));
    assert_eq!(is_owner_or_admin(&[1], 3, None).as_deref(), Some(denied));
}

#[test]
fn help_lists_commands() {
    let commands = vec![
        CommandInfo {
            name: "ping".into(),
            description: Some("Check".into()),
            help_text: Some("Long".into()),
        },
        CommandInfo { name: "stop".into(), description: None, help_text: None },
    ];
    let mut storage = storage_of(&[(1, "tess")]);
    let embed = shown(help(&commands, &None, &storage, 1));
    assert_eq!(embed.title, "💥 Hello! こんにちは！~\n\n");
    assert_eq!(
        fields(&embed),
        [("`~ping`", "Check", false), ("`~stop`", "No description provided.", false)]
    );
    assert_eq!(
        embed.footer.as_deref(),
        Some("Use ~command or \"hey reze, command\" to use any of these commands")
    );
    let embed = shown(help(&commands, &None, &storage, 2));
    assert!(embed.footer.unwrap().starts_with("💡 Use /connect <mc-username>"));
    storage.set_privacy_enabled(false, Outcome::Done(())).unwrap();
    let embed = shown(help(&commands, &None, &storage, 1));
    assert!(embed.footer.unwrap().starts_with("🔓 Privacy features are disabled"));
    let embed = shown(help(&commands, &Some("ping".into()), &storage, 1));
    assert_eq!(embed.title, "ℹ️ Detailed Help: /ping");
    assert_eq!(embed.description.as_deref(), Some("Long"));
    let embed = shown(help(&commands, &Some("stop".into()), &storage, 1));
    assert_eq!(
        embed.description.as_deref(),
        Some("No detailed documentation available for this command.")
    );
    assert_eq!(
        text(help(&commands, &Some("nope".into()), &storage, 1)),
        "❌ Command `nope` not found."
    );
}

#[test]
fn mentions_of_discord_name_players() {
    let storage = storage_of(&[(123, "tess"), (5, "abel")]);
    let named = |s: &str| process_dc_mentions(s, &storage);
    assert_eq!(named("hi <@123> and <@!5>!"), "hi @tess and @abel!");
    assert_eq!(named("<@123><@5>"), "@tess@abel");
    assert_eq!(named("<@9> <@> <@12a> <@123"), "<@9> <@> <@12a> <@123");
    assert_eq!(named("<@<@123>"), "<@@tess");
    assert_eq!(named("no mention"), "no mention");
    assert_eq!(named("<@00000000000000000000123>"), "@tess");
    assert_eq!(named("<@99999999999999999999999>"), "<@99999999999999999999999>");
    assert_eq!(named("é<@123>é"), "é@tessé");
}

#[test]
fn names_of_players_ping() {
    let mut storage = storage_of(&[(123, "tess"), (5, "abel")]);
    assert_eq!(process_mc_mentions("tess, @abel!", "mona", &storage), "<@123>, @<@5>!");
    assert_eq!(process_mc_mentions("tess", "tess", &storage), "tess");
    assert_eq!(process_mc_mentions("tessa tess_", "mona", &storage), "tessa tess_");
    assert_eq!(process_mc_mentions("é tess é", "mona", &storage), "é <@123> é");
    storage.set_mute_mention(123, true, Outcome::Done(())).unwrap();
    assert_eq!(process_mc_mentions("tess abel", "mona", &storage), "tess <@5>");
}

#[test]
fn messages_from_minecraft_are_passed_on() {
    let mut storage = storage_of(&[(123, "tess"), (5, "abel")]);
    let mut pending = PendingVerifications::new();
    let mut pass = |storage: &Storage, m: &FromMinecraftEvent| {
        forward_event(m, Some(7), &mut pending, storage, 0)
    };
    assert_eq!(
        pass(&storage, &chat("abel", "hi tess")),
        Forwarding::Forward { text: "**abel**: hi <@123>".into() }
    );
    let join = FromMinecraftEvent {
        username: "🟢".into(),
        content: "**tess** joined the game".into(),
        mc_username: "tess".into(),
    };
    assert_eq!(
        pass(&storage, &join),
        Forwarding::Forward { text: "**🟢**: **tess** joined the game".into() }
    );
    storage.set_join_leave_optout(123, true, Outcome::Done(())).unwrap();
    assert_eq!(pass(&storage, &join), Forwarding::Nothing);
    assert_eq!(pass(&storage, &chat("tess", "hi")), Forwarding::Nothing);
    storage.set_privacy_enabled(false, Outcome::Done(())).unwrap();
    assert_eq!(
        pass(&storage, &chat("tess", "hi abel")),
        Forwarding::Forward { text: "**tess**: hi abel".into() }
    );
    assert!(channel_is_lost("HTTP: Unknown Channel"));
    assert!(channel_is_lost("Missing Access"));
    assert!(!channel_is_lost("Unknown Message"));
}

fn message(author_id: u64, content: &str) -> DiscordMessage {
    DiscordMessage {
        channel_id: 7,
        author_id,
        author_name: "author".into(),
        content: content.into(),
        suppress_notifications: false,
    }
}

#[test]
fn messages_of_discord_are_relayed() {
    let mut storage = storage_of(&[(1, "tess"), (2, "abel")]);
    let mut sent = |storage: &mut Storage, m: &DiscordMessage| {
        relay(m, Some(7), 99, storage, 1000).0.map(|e| (e.username, e.content))
    };
    let expected = Some(("author".to_string(), "hi @abel".to_string()));
    assert_eq!(sent(&mut storage, &message(1, "hi <@2>")), expected);
    assert_eq!(sent(&mut storage, &message(3, "hi")), None);
    assert_eq!(sent(&mut storage, &message(99, "hi")), None);
    assert_eq!(sent(&mut storage, &message(1, "@s hi")), None);
    let quiet = DiscordMessage { suppress_notifications: true, ..message(1, "hi") };
    assert_eq!(sent(&mut storage, &quiet), None);
    let elsewhere = DiscordMessage { channel_id: 8, ..message(1, "hi") };
    assert_eq!(sent(&mut storage, &elsewhere), None);
    storage.set_join_leave_optout(1, true, Outcome::Done(())).unwrap();
    assert_eq!(sent(&mut storage, &message(1, "hi")), None);
    storage.set_privacy_enabled(false, Outcome::Done(())).unwrap();
    let expected = Some(("author".to_string(), "hi <@2>".to_string()));
    assert_eq!(sent(&mut storage, &message(3, "hi <@2>")), expected);
    storage.set_muted(3, 60, 950, Outcome::Done(())).unwrap();
    assert_eq!(sent(&mut storage, &message(3, "hi")), None);
    assert_eq!(storage.is_muted(3, 1009).0, Some(1010));
    let (relayed, cleanup) = relay(&message(3, "hi"), Some(7), 99, &mut storage, 1010);
    assert!(relayed.is_some());
    assert_eq!(cleanup, Some(vec![RowWrite::RemoveMutedUser { discord_id: 3 }]));
}

#[test]
fn new_members_are_greeted() {
    assert!(welcome(None, 4).is_none());
    assert!(welcome(Some((None, 10)), 4).is_none());
    let (channel, embed) = welcome(Some((Some(6), 10)), 4).unwrap();
    assert_eq!(channel, 6);
    assert_eq!(embed.title, "💥 A New Target Approaches! 💥");
    assert_eq!(
        embed.description.as_deref(),
        Some("Welcome to the server, <@4>! Let's hope things don't get too... explosive. 🤫")
    );
    assert_eq!(embed.footer.as_deref(), Some("Member Count: #10"));
    let mut storage = storage_of(&[(1, "tess")]);
    let mut react = |event: DiscordEvent| event_handler(&event, Some(7), 99, &mut storage, 0).0;
    let joined = DiscordEvent::MemberJoined { guild: Some((Some(6), 10)), user_id: 4 };
    assert!(matches!(react(joined), Reaction::Greet { channel_id: 6, .. }));
    let written = DiscordEvent::Message { message: message(1, "hi") };
    assert!(matches!(react(written), Reaction::Relay { event } if event.content == "hi"));
    assert!(matches!(react(DiscordEvent::Ready), Reaction::Nothing));
    assert!(matches!(react(DiscordEvent::Other), Reaction::Nothing));
}
