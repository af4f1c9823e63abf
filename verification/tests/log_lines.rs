//! Lines of the server's log, and the events that are read from them.

use vvv::log_parser::{
    confirmation, contains_silent_token, is_private_command, is_silent_message_prefix,
    parse_log_line, uuid_of_line, MinecraftEvent, RecentDisconnects, StatsEvent,
};

#[test]
fn parse_chat_message() {
    let line = r"[12:11:32] [Async Chat Thread - #3/INFO]: [Not Secure] <karambit> I will put them inbox";
    let event = parse_log_line(line, &mut RecentDisconnects::new()).unwrap();
    assert_eq!(
        event,
        MinecraftEvent::Chat {
            username: "karambit".into(),
            message: "I will put them inbox".into()
        }
    );
}

#[test]
fn parse_chat_without_not_secure() {
    let line = r"[12:11:32] [Async Chat Thread - #3/INFO]: <karambit> hello world";
    let event = parse_log_line(line, &mut RecentDisconnects::new()).unwrap();
    assert_eq!(
        event,
        MinecraftEvent::Chat {
            username: "karambit".into(),
            message: "hello world".into()
        }
    );
}

#[test]
fn parse_server_say() {
    let line = r"[10:12:46] [Server thread/INFO]: [Not Secure] [Server] playing still?";
    let event = parse_log_line(line, &mut RecentDisconnects::new()).unwrap();
    assert_eq!(
        event,
        MinecraftEvent::ServerSay {
            message: "playing still?".into()
        }
    );
}

#[test]
fn parse_join() {
    let line = r"[02:20:03] [Server thread/INFO]: Vodka_not_Rum joined the game";
    let event = parse_log_line(line, &mut RecentDisconnects::new()).unwrap();
    assert_eq!(
        event,
        MinecraftEvent::Join {
            username: "Vodka_not_Rum".into()
        }
    );
}

#[test]
fn parse_leave() {
    let line = r"[02:19:55] [Server thread/INFO]: Vodka_not_Rum left the game";
    let event = parse_log_line(line, &mut RecentDisconnects::new()).unwrap();
    assert_eq!(
        event,
        MinecraftEvent::Leave {
            username: "Vodka_not_Rum".into()
        }
    );
}

#[test]
fn parse_disconnect() {
    let line = r"[00:52:15] [Server thread/INFO]: atamaka lost connection: Timed out";
    let event = parse_log_line(line, &mut RecentDisconnects::new()).unwrap();
    assert_eq!(
        event,
        MinecraftEvent::Disconnect {
            username: "atamaka".into(),
            reason: "Timed out".into()
        }
    );
}

#[test]
fn parse_disconnect_multiple_ips() {
    let line = r"[12:00:01] [Server thread/INFO]: test_user lost connection: Login timeout exceeded, you have been kicked from the server, please try again!";
    let event = parse_log_line(line, &mut RecentDisconnects::new()).unwrap();
    assert!(matches!(event, MinecraftEvent::Disconnect { .. }));
    if let MinecraftEvent::Disconnect { username, reason } = event {
        assert_eq!(username, "test_user");
        assert!(reason.contains("Login timeout"));
    }
}

#[test]
fn parse_disconnect_same_username() {
    let line = r"[12:00:01] [Server thread/INFO]: test_user lost connection: The same username is already playing on the server!";
    let event = parse_log_line(line, &mut RecentDisconnects::new()).unwrap();
    assert!(matches!(event, MinecraftEvent::Disconnect { .. }));
}

#[test]
fn parse_leave_after_disconnect_is_suppressed() {
    let mut recent = RecentDisconnects::new();

    let dc_line = r"[00:52:15] [Server thread/INFO]: dedup_user lost connection: Test reason";
    let event = parse_log_line(dc_line, &mut recent).unwrap();
    assert!(matches!(event, MinecraftEvent::Disconnect { .. }));

    let leave_line = r"[00:52:16] [Server thread/INFO]: dedup_user left the game";
    assert!(parse_log_line(leave_line, &mut recent).is_none());
}

#[test]
fn parse_death_slain() {
    let line = r"[02:22:16] [Server thread/INFO]: tess was slain by Vodka_not_Rum";
    let event = parse_log_line(line, &mut RecentDisconnects::new()).unwrap();
    assert_eq!(
        event,
        MinecraftEvent::Death {
            username: "tess".into(),
            message: "was slain by Vodka_not_Rum".into()
        }
    );
}

#[test]
fn parse_death_kinetic_energy() {
    let line = r"[04:42:23] [Server thread/INFO]: karambit experienced kinetic energy while trying to escape Endermite";
    let event = parse_log_line(line, &mut RecentDisconnects::new()).unwrap();
    assert_eq!(
        event,
        MinecraftEvent::Death {
            username: "karambit".into(),
            message: "experienced kinetic energy while trying to escape Endermite".into()
        }
    );
}

#[test]
fn parse_death_froze() {
    let line = r"[14:13:56] [Server thread/INFO]: karambit froze to death";
    let event = parse_log_line(line, &mut RecentDisconnects::new()).unwrap();
    assert_eq!(
        event,
        MinecraftEvent::Death {
            username: "karambit".into(),
            message: "froze to death".into()
        }
    );
}

#[test]
fn parse_death_burned_to_crisp() {
    let line = r"[02:46:06] [Server thread/INFO]: Vodka_not_Rum was burned to a crisp while fighting Nami";
    let event = parse_log_line(line, &mut RecentDisconnects::new()).unwrap();
    assert_eq!(
        event,
        MinecraftEvent::Death {
            username: "Vodka_not_Rum".into(),
            message: "was burned to a crisp while fighting Nami".into()
        }
    );
}

#[test]
fn parse_death_drowned() {
    let line = r"[12:00:01] [Server thread/INFO]: TestPlayer drowned";
    let event = parse_log_line(line, &mut RecentDisconnects::new()).unwrap();
    assert_eq!(
        event,
        MinecraftEvent::Death {
            username: "TestPlayer".into(),
            message: "drowned".into()
        }
    );
}

#[test]
fn parse_death_fell_from_high_place() {
    let line = r"[12:00:01] [Server thread/INFO]: TestPlayer fell from a high place";
    let event = parse_log_line(line, &mut RecentDisconnects::new()).unwrap();
    assert_eq!(
        event,
        MinecraftEvent::Death {
            username: "TestPlayer".into(),
            message: "fell from a high place".into()
        }
    );
}

#[test]
fn parse_death_impaled_on_stalagmite() {
    let line = r"[12:00:01] [Server thread/INFO]: TestPlayer was impaled on a stalagmite";
    let event = parse_log_line(line, &mut RecentDisconnects::new()).unwrap();
    assert_eq!(
        event,
        MinecraftEvent::Death {
            username: "TestPlayer".into(),
            message: "was impaled on a stalagmite".into()
        }
    );
}

#[test]
fn parse_death_blew_up() {
    let line = r"[12:00:01] [Server thread/INFO]: TestPlayer blew up";
    let event = parse_log_line(line, &mut RecentDisconnects::new()).unwrap();
    assert_eq!(
        event,
        MinecraftEvent::Death {
            username: "TestPlayer".into(),
            message: "blew up".into()
        }
    );
}

#[test]
fn parse_death_fireballed() {
    let line = r"[12:00:01] [Server thread/INFO]: TestPlayer was fireballed by Ghast";
    let event = parse_log_line(line, &mut RecentDisconnects::new()).unwrap();
    assert_eq!(
        event,
        MinecraftEvent::Death {
            username: "TestPlayer".into(),
            message: "was fireballed by Ghast".into()
        }
    );
}

#[test]
fn parse_death_speared() {
    let line = r"[12:00:01] [Server thread/INFO]: TestPlayer was speared by Zombie";
    let event = parse_log_line(line, &mut RecentDisconnects::new()).unwrap();
    assert_eq!(
        event,
        MinecraftEvent::Death {
            username: "TestPlayer".into(),
            message: "was speared by Zombie".into()
        }
    );
}

#[test]
fn parse_death_stung() {
    let line = r"[12:00:01] [Server thread/INFO]: TestPlayer was stung to death";
    let event = parse_log_line(line, &mut RecentDisconnects::new()).unwrap();
    assert_eq!(
        event,
        MinecraftEvent::Death {
            username: "TestPlayer".into(),
            message: "was stung to death".into()
        }
    );
}

#[test]
fn parse_death_obliterated() {
    let line = r"[12:00:01] [Server thread/INFO]: TestPlayer was obliterated by a sonically-charged shriek";
    let event = parse_log_line(line, &mut RecentDisconnects::new()).unwrap();
    assert_eq!(
        event,
        MinecraftEvent::Death {
            username: "TestPlayer".into(),
            message: "was obliterated by a sonically-charged shriek".into()
        }
    );
}

#[test]
fn parse_death_roasted() {
    let line = r"[12:00:01] [Server thread/INFO]: TestPlayer was roasted in dragon's breath";
    let event = parse_log_line(line, &mut RecentDisconnects::new()).unwrap();
    assert_eq!(
        event,
        MinecraftEvent::Death {
            username: "TestPlayer".into(),
            message: "was roasted in dragon's breath".into()
        }
    );
}

#[test]
fn parse_death_went_off_with_a_bang() {
    let line = r"[12:00:01] [Server thread/INFO]: TestPlayer went off with a bang";
    let event = parse_log_line(line, &mut RecentDisconnects::new()).unwrap();
    assert_eq!(
        event,
        MinecraftEvent::Death {
            username: "TestPlayer".into(),
            message: "went off with a bang".into()
        }
    );
}

#[test]
fn parse_death_floor_is_lava() {
    let line =
        r"[12:00:01] [Server thread/INFO]: TestPlayer died because not just the floor is lava";
    let event = parse_log_line(line, &mut RecentDisconnects::new()).unwrap();
    assert_eq!(
        event,
        MinecraftEvent::Death {
            username: "TestPlayer".into(),
            message: "died because not just the floor is lava".into()
        }
    );
}

#[test]
fn parse_death_was_killed() {
    let line = r"[12:00:01] [Server thread/INFO]: TestPlayer was killed";
    let event = parse_log_line(line, &mut RecentDisconnects::new()).unwrap();
    assert_eq!(
        event,
        MinecraftEvent::Death {
            username: "TestPlayer".into(),
            message: "was killed".into()
        }
    );
}

#[test]
fn parse_death_fell_while_climbing() {
    let line = r"[12:00:01] [Server thread/INFO]: TestPlayer fell while climbing";
    let event = parse_log_line(line, &mut RecentDisconnects::new()).unwrap();
    assert_eq!(
        event,
        MinecraftEvent::Death {
            username: "TestPlayer".into(),
            message: "fell while climbing".into()
        }
    );
}

#[test]
fn parse_death_fell_off_scaffolding() {
    let line = r"[12:00:01] [Server thread/INFO]: TestPlayer fell off scaffolding";
    let event = parse_log_line(line, &mut RecentDisconnects::new()).unwrap();
    assert_eq!(
        event,
        MinecraftEvent::Death {
            username: "TestPlayer".into(),
            message: "fell off scaffolding".into()
        }
    );
}

#[test]
fn parse_death_walked_into_fire() {
    let line =
        r"[12:00:01] [Server thread/INFO]: TestPlayer walked into fire while fighting Zombie";
    let event = parse_log_line(line, &mut RecentDisconnects::new()).unwrap();
    assert_eq!(
        event,
        MinecraftEvent::Death {
            username: "TestPlayer".into(),
            message: "walked into fire while fighting Zombie".into()
        }
    );
}

#[test]
fn parse_death_walked_into_cactus() {
    let line = r"[12:00:01] [Server thread/INFO]: TestPlayer walked into a cactus while trying to escape Zombie";
    let event = parse_log_line(line, &mut RecentDisconnects::new()).unwrap();
    assert_eq!(
        event,
        MinecraftEvent::Death {
            username: "TestPlayer".into(),
            message: "walked into a cactus while trying to escape Zombie".into()
        }
    );
}

#[test]
fn parse_command() {
    let line = r"[12:00:01] [Server thread/INFO]: atamaka issued server command: /tp nava39";
    let event = parse_log_line(line, &mut RecentDisconnects::new()).unwrap();
    assert_eq!(
        event,
        MinecraftEvent::Command {
            username: "atamaka".into(),
            command: "/tp nava39".into()
        }
    );
}

#[test]
fn parse_advancement() {
    let line =
        r"[12:00:01] [Server thread/INFO]: TestPlayer has made the advancement [Stone Age]";
    let event = parse_log_line(line, &mut RecentDisconnects::new()).unwrap();
    assert_eq!(
        event,
        MinecraftEvent::Advancement {
            username: "TestPlayer".into(),
            advancement: "Stone Age".into()
        }
    );
}

#[test]
fn parse_advancement_challenge() {
    let line = r"[12:00:01] [Server thread/INFO]: TestPlayer has completed the challenge [Cover Me in Debris]";
    let event = parse_log_line(line, &mut RecentDisconnects::new()).unwrap();
    assert_eq!(
        event,
        MinecraftEvent::Advancement {
            username: "TestPlayer".into(),
            advancement: "Cover Me in Debris".into()
        }
    );
}

#[test]
fn parse_player_list() {
    let line = r"[12:00:01] [Server thread/INFO]: There are 2 of a max of 10 players online: atamaka, nava39";
    let event = parse_log_line(line, &mut RecentDisconnects::new()).unwrap();
    assert_eq!(
        event,
        MinecraftEvent::PlayerList {
            current: 2,
            max: 10,
            players: vec!["atamaka".into(), "nava39".into()]
        }
    );
}

#[test]
fn parse_player_list_empty() {
    let line = r"[12:00:01] [Server thread/INFO]: There are 0 of a max of 10 players online:";
    let event = parse_log_line(line, &mut RecentDisconnects::new()).unwrap();
    assert_eq!(
        event,
        MinecraftEvent::PlayerList {
            current: 0,
            max: 10,
            players: vec![]
        }
    );
}

#[test]
fn parse_player_list_empty_no_colon() {
    let line = r"[12:00:01] [Server thread/INFO]: There are 0 of a max of 10 players online";
    let event = parse_log_line(line, &mut RecentDisconnects::new()).unwrap();
    assert_eq!(
        event,
        MinecraftEvent::PlayerList {
            current: 0,
            max: 10,
            players: vec![]
        }
    );
}

#[test]
fn parse_server_start() {
    let line = r"[12:58:05] [Server thread/INFO]: Starting minecraft server version 1.21.11";
    let event = parse_log_line(line, &mut RecentDisconnects::new()).unwrap();
    assert_eq!(event, MinecraftEvent::ServerStart);
}

#[test]
fn parse_server_stop() {
    let line = r"[19:55:43] [Server thread/INFO]: Stopping the server";
    let event = parse_log_line(line, &mut RecentDisconnects::new()).unwrap();
    assert_eq!(event, MinecraftEvent::ServerStop);
}

#[test]
fn parse_server_stop_variant() {
    let line = r"[19:55:44] [Server thread/INFO]: Stopping server";
    let event = parse_log_line(line, &mut RecentDisconnects::new()).unwrap();
    assert_eq!(event, MinecraftEvent::ServerStop);
}

#[test]
fn parse_save_complete() {
    let line = r"[12:00:01] [Server thread/INFO]: Saved the game";
    let event = parse_log_line(line, &mut RecentDisconnects::new()).unwrap();
    assert_eq!(event, MinecraftEvent::SaveComplete);
}

#[test]
fn ignore_rcon_command() {
    let line = r"[10:17:33] [Server thread/INFO]: [Rcon: Saved the game]";
    assert!(parse_log_line(line, &mut RecentDisconnects::new()).is_none());
}

#[test]
fn ignore_bootstrap() {
    let line = r"[12:57:38] [ServerMain/INFO]: [bootstrap] Running Java 25 on Linux 7.0.4+deb13-amd64 (amd64)";
    assert!(parse_log_line(line, &mut RecentDisconnects::new()).is_none());
}

#[test]
fn ignore_plugins() {
    let line =
        r"[12:57:53] [ServerMain/INFO]: [PluginInitializerManager] Initialized 7 plugins";
    assert!(parse_log_line(line, &mut RecentDisconnects::new()).is_none());
}

#[test]
fn ignore_uuid_lookup() {
    let line = r"[02:20:02] [User Authenticator #206/INFO]: UUID of player Vodka_not_Rum is 9e78961d-0a81-3dd7-b80f-d1abf718d3e8";
    assert!(parse_log_line(line, &mut RecentDisconnects::new()).is_none());
}

#[test]
fn ignore_entity_login() {
    let line = r"[02:20:03] [Server thread/INFO]: Vodka_not_Rum[/[2401:9640:...]:9570] logged in with entity id 1624273 at ([world_nether]462.2, 128.0, 275.2)";
    assert!(parse_log_line(line, &mut RecentDisconnects::new()).is_none());
}

#[test]
fn ignore_saving_chunks() {
    let line = r"[Server thread/INFO]: Saving chunks for level 'ServerLevel[world]'/minecraft:overworld";
    assert!(parse_log_line(line, &mut RecentDisconnects::new()).is_none());
}

#[test]
fn ignore_done_startup() {
    let line = "[12:58:16] [Server thread/INFO]: Done (39.180s)! For help, type \"help\"";
    assert!(parse_log_line(line, &mut RecentDisconnects::new()).is_none());
}

#[test]
fn ignore_warning_moved_wrongly() {
    let line = r"[00:00:58] [Server thread/WARN]: atamaka moved wrongly!";
    assert!(parse_log_line(line, &mut RecentDisconnects::new()).is_none());
}

#[test]
fn ignore_server_command_say() {
    let line = r"[Server thread/INFO]: SERVER issued server command: /say hi";
    assert!(parse_log_line(line, &mut RecentDisconnects::new()).is_none());
}

#[test]
fn ignore_arbitrary_line() {
    assert!(parse_log_line("garbage", &mut RecentDisconnects::new()).is_none());
}

fn read(line: &str) -> Option<MinecraftEvent> {
    parse_log_line(line, &mut RecentDisconnects::new())
}

#[test]
fn leave_is_passed_over_once_after_disconnect() {
    let mut recent = RecentDisconnects::new();
    let lost = "[00:52:15] [Server thread/INFO]: dedup_user lost connection: Timed out";
    let other = "[00:52:15] [Server thread/INFO]: someone left the game";
    let left = "[00:52:16] [Server thread/INFO]: dedup_user left the game";
    assert!(parse_log_line(lost, &mut recent).is_some());
    assert_eq!(
        parse_log_line(other, &mut recent),
        Some(MinecraftEvent::Leave { username: "someone".into() })
    );
    assert!(parse_log_line("garbage", &mut recent).is_none());
    assert!(parse_log_line(left, &mut recent).is_none());
    assert_eq!(
        parse_log_line(left, &mut recent),
        Some(MinecraftEvent::Leave { username: "dedup_user".into() })
    );
}

#[test]
fn names_of_other_lengths_are_not_players() {
    assert!(read("[12:00:01] [Server thread/INFO]: ab joined the game").is_none());
    assert!(read("[12:00:01] [Server thread/INFO]: abcdefghijklmnopq joined the game").is_none());
    assert!(read("[12:00:01] [Server thread/INFO]: abc joined the game").is_some());
    assert!(read("[12:00:01] [Server thread/INFO]: abcdefghijklmnop joined the game").is_some());
    assert!(read("[12:00:01] [Server thread/INFO]: a-b-c joined the game").is_none());
}

#[test]
fn private_commands_are_not_reported() {
    for command in ["/msg a hi", "/tell a hi", "/w a hi", "/whisper a", "/reply x", "/r", "/tm x", "/me"] {
        assert!(is_private_command(command), "{command}");
        let line =
            format!("[12:00:01] [Server thread/INFO]: atamaka issued server command: {command}");
        assert!(read(&line).is_none(), "{command}");
    }
    for command in ["/msgs a", "/tp a", "/rr", "/MSG a", "/meow"] {
        assert!(!is_private_command(command), "{command}");
    }
}

#[test]
fn silent_chat_is_not_reported() {
    assert!(read("[12:11:32] [Async Chat Thread - #3/INFO]: <karambit> @s hello").is_none());
    assert!(read("[12:11:32] [Async Chat Thread - #3/INFO]: <karambit> hello @S there").is_none());
    assert!(read("[12:11:32] [Async Chat Thread - #3/INFO]: <karambit> mail me @home").is_some());
    assert!(contains_silent_token("a\t@s"));
    assert!(contains_silent_token("@s\u{3000}a"));
    assert!(!contains_silent_token("a@s"));
    assert!(!contains_silent_token("@silent"));
    assert!(!contains_silent_token(""));
}

#[test]
fn silent_prefix_of_discord_messages() {
    assert!(is_silent_message_prefix("@s"));
    assert!(is_silent_message_prefix("@S hi"));
    assert!(is_silent_message_prefix("@silent"));
    assert!(is_silent_message_prefix("@SILENT hi"));
    assert!(!is_silent_message_prefix("@sam hi"));
    assert!(!is_silent_message_prefix("@s\thi"));
    assert!(!is_silent_message_prefix(" @s"));
    assert!(!is_silent_message_prefix(""));
}

#[test]
fn codes_are_reported_and_read() {
    let line = "[12:11:32] [Async Chat Thread - #3/INFO]: [Not Secure] <karambit> @s CONFIRM-0123456789ABCDEF";
    assert_eq!(
        read(line),
        Some(MinecraftEvent::Chat {
            username: "karambit".into(),
            message: "@s CONFIRM-0123456789ABCDEF".into()
        })
    );
    assert_eq!(
        confirmation("@s CONFIRM-0123456789ABCDEF"),
        Some("0123456789ABCDEF".to_string())
    );
    assert_eq!(confirmation("@S confirm-  00ff "), Some("00FF".to_string()));
    assert_eq!(confirmation("@s confirm"), None);
    assert_eq!(confirmation("please @s confirm-1"), None);
}

#[test]
fn heads_with_digits_of_other_scripts() {
    let line = "[\u{661}\u{662}:00:01] [Server thread/INFO]: TestPlayer drowned";
    let pattern = regex::Regex::new(r"^\[\d{2}:\d{2}:\d{2}\]\s\[[^\]]+/INFO\]:\s(?P<payload>.+)$");
    assert!(pattern.unwrap().is_match(line));
    assert!(read(line).is_some());
    assert!(read("[\u{2170}2:00:01] [Server thread/INFO]: TestPlayer drowned").is_none());
    assert!(read("[1:00:01] [Server thread/INFO]: TestPlayer drowned").is_none());
    assert!(read("[12:00:01] [/INFO]: TestPlayer drowned").is_none());
    assert!(read("[12:00:01] [x/INFO]: TestPlayer drowned").is_some());
    assert!(read("[12:00:01] [x]/INFO]: TestPlayer drowned").is_none());
    assert!(read("[12:00:01]  [x/INFO]: TestPlayer drowned").is_none());
}

#[test]
fn heads_are_read_as_the_pattern_says() {
    let pattern =
        regex::Regex::new(r"^\[\d{2}:\d{2}:\d{2}\]\s\[[^\]]+/INFO\]:\s(?P<payload>.+)$").unwrap();
    let heads = ["[12:00:01]", "[12:00:0]", "[1:00:01]", "12:00:01", "[\u{661}0:00:01]"];
    let spaces = [" ", "\t", "", "\u{a0}", "\u{200b}", "\u{85}", "\u{3000}"];
    let threads = ["[x/INFO]:", "[/INFO]:", "[x/WARN]:", "[a/b/INFO]:", "[a]b/INFO]:", "[\n/INFO]:"];
    for head in heads {
        for a in spaces {
            for thread in threads {
                for b in spaces {
                    let line = format!("{head}{a}{thread}{b}Saved the game");
                    let expected = pattern
                        .captures(&line)
                        .is_some_and(|c| c.name("payload").unwrap().as_str() == "Saved the game");
                    let event = read(&line);
                    assert_eq!(event == Some(MinecraftEvent::SaveComplete), expected, "{line:?}");
                }
            }
        }
    }
}

#[test]
fn player_lists_are_read_as_the_pattern_says() {
    let pattern = regex::Regex::new(
        r"^There are (?P<current>\d+) of a max of (?P<max>\d+) players online:?\s*(?P<players>.+)?$",
    )
    .unwrap();
    let payloads = [
        "There are 2 of a max of 10 players online: a, b",
        "There are 2 of a max of 10 players online:a,,b , ",
        "There are 2 of a max of 10 players online",
        "There are 2 of a max of 10 players online::",
        "There are 2 of a max of 10 players onlinex",
        "There are 2 of a max of 10 players  online",
        "There are  2 of a max of 10 players online",
        "There are 4294967295 of a max of 10 players online: a",
        "There are 4294967296 of a max of 10 players online: a",
        "There are \u{661} of a max of 10 players online: a",
        "There are 2 of a max of x players online: a",
    ];
    for payload in payloads {
        let expected = pattern.captures(payload).and_then(|c| {
            let current: u32 = c.name("current")?.as_str().parse().ok()?;
            let max: u32 = c.name("max")?.as_str().parse().ok()?;
            let players: Vec<String> = c
                .name("players")
                .map(|m| {
                    m.as_str()
                        .split(',')
                        .map(str::trim)
                        .filter(|s| !s.is_empty())
                        .map(str::to_owned)
                        .collect()
                })
                .unwrap_or_default();
            Some(MinecraftEvent::PlayerList { current, max, players })
        });
        let line = format!("[12:00:01] [Server thread/INFO]: {payload}");
        assert_eq!(read(&line), expected, "{payload}");
    }
}

#[test]
fn advancements_are_read_as_the_pattern_says() {
    let pattern = regex::Regex::new(
        r"^(?P<username>[a-zA-Z0-9_]{3,16})\shas (?:made the advancement|completed the challenge)\s\[(?P<advancement>.+)\]$",
    )
    .unwrap();
    let payloads = [
        "abc has made the advancement [x]",
        "abc has made the advancement []",
        "abc has made the advancement []]",
        "abc has made the advancement [x] ",
        "abc has made the advancement x]",
        "abc  has made the advancement [x]",
        "abc has made the advancement  [x]",
        "abc has completed the challenge [[x]]",
        "abc has completed the advancement [x]",
    ];
    for payload in payloads {
        let expected = pattern.captures(payload).map(|c| MinecraftEvent::Advancement {
            username: c["username"].to_string(),
            advancement: c["advancement"].to_string(),
        });
        let line = format!("[12:00:01] [Server thread/INFO]: {payload}");
        assert_eq!(read(&line), expected, "{payload}");
    }
}

#[test]
fn statistics_are_told_of_players() {
    let event = MinecraftEvent::Death { username: "tess".into(), message: "drowned".into() };
    assert_eq!(event.to_stats_event(), Some(StatsEvent::Death { username: "tess".into() }));
    let event = MinecraftEvent::UuidResolved { username: "tess".into(), uuid: "u".into() };
    assert_eq!(
        event.to_stats_event(),
        Some(StatsEvent::UuidResolved { username: "tess".into(), uuid: "u".into() })
    );
    assert_eq!(MinecraftEvent::ServerStop.to_stats_event(), Some(StatsEvent::ServerStop));
    assert_eq!(MinecraftEvent::SaveComplete.to_stats_event(), None);
    assert_eq!(MinecraftEvent::ServerSay { message: "x".into() }.to_stats_event(), None);
}

#[test]
fn events_become_messages() {
    let chat = MinecraftEvent::Chat { username: "tess".into(), message: "hi".into() };
    let m = chat.into_discord().unwrap();
    assert_eq!((m.username.as_str(), m.content.as_str()), ("tess", "hi"));
    assert_eq!(m.mc_username, "tess");
    let lost = MinecraftEvent::Disconnect { username: "tess".into(), reason: "Timed out".into() };
    let m = lost.into_discord().unwrap();
    assert_eq!(m.username, "🔴");
    assert_eq!(m.content, "**tess** left the game (Timed out)");
    assert_eq!(m.mc_username, "tess");
    let command = MinecraftEvent::Command { username: "tess".into(), command: "/tp a".into() };
    let m = command.into_discord().unwrap();
    assert_eq!((m.username.as_str(), m.content.as_str()), ("⌨️", "**tess** used command: `/tp a`"));
    let m = MinecraftEvent::SaveComplete.into_discord().unwrap();
    assert_eq!((m.username.as_str(), m.content.as_str()), ("💾", "World saved!"));
    assert_eq!(m.mc_username, "");
    let list = MinecraftEvent::PlayerList { current: 0, max: 1, players: vec![] };
    assert!(list.into_discord().is_none());
}

#[test]
fn uuids_are_read_from_the_log() {
    let head = "[02:20:02] [User Authenticator #206/INFO]: ";
    let read = |body: &str| uuid_of_line(&format!("{head}{body}"));
    assert_eq!(
        read("UUID of player Vodka_not_Rum is 9e78961d-0a81-3dd7-b80f-d1abf718d3e8"),
        Some(StatsEvent::UuidResolved {
            username: "Vodka_not_Rum".into(),
            uuid: "9e78961d-0a81-3dd7-b80f-d1abf718d3e8".into(),
        })
    );
    assert_eq!(read("UUID of player ab is 9e78961d"), None);
    assert_eq!(read("UUID of player a_name_of_too_many_characters is 9e78961d"), None);
    assert_eq!(read("UUID of player tess is "), None);
    assert_eq!(read("UUID of player tess was 9e78961d"), None);
    assert_eq!(read("<tess> UUID of player abel is 9e78961d"), None);
    assert_eq!(uuid_of_line("UUID of player tess is 9e78961d"), None);
    assert_eq!(
        uuid_of_line("[02:20:02] [User Authenticator #206/WARN]: UUID of player tess is 9e78961d"),
        None
    );
}
