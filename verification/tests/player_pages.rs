//! What the server's files tell of players, and the pages that show it.

use vvv::decimal::{percent, push_one_decimal};
use vvv::playerdata::{
    advancements_path, build_advancements_embed, build_overview_embed, build_profile_embeds,
    build_stats_embed, compute_advancements, daily_bar, extract_text_from_json, fmt_num,
    format_advancement_name, format_dimension, format_distance, format_play_time, game_type_name,
    inventory_items, item_display_name, load_advancements, load_nbt_player_data,
    load_player_profile, load_stats, parse_advancement_map, player_data_path, progress_bar,
    read_error, sort_stats, stats_path, top_entries, transform_stats, world_dir_from_config,
    AdvancementEntry, InventoryItem, ItemComponents, NbtPlayerData, PlayerDataError,
    PlayerProfile, RawStats, RawStatsJson,
};
use vvv::storage::records::PlayerStats;

#[test]
fn format_play_time_outputs() {
    assert_eq!(format_play_time(0), "0m");
    assert_eq!(format_play_time(90), "1m");
    assert_eq!(format_play_time(3661), "1h 1m");
    assert_eq!(format_play_time(90061), "1d 1h 1m");
}

#[test]
fn format_distance_outputs() {
    assert_eq!(format_distance(0), "0m");
    assert_eq!(format_distance(5000), "50m");
    assert_eq!(format_distance(150_000), "1.5km");
}

#[test]
fn item_display_name_from_id() {
    let name = item_display_name("minecraft:diamond_pickaxe", None);
    assert_eq!(name, "diamond pickaxe");
}

#[test]
fn advancement_name_formatting() {
    let name = format_advancement_name("minecraft:story/mine_stone");
    assert_eq!(name, "mine stone");
    let name = format_advancement_name("blazeandcave:animal/which_came_first");
    assert_eq!(name, "[BACAP] which came first");
}

#[test]
fn missing_player_returns_none() {
    let path = player_data_path("playerdata", "00000000-0000-0000-0000-000000000000");
    let result = load_nbt_player_data(Err(read_error(path, true, "not found".into())));
    let data = result.expect("should succeed");
    assert!(data.is_none(), "missing player should return None");
}

#[test]
fn advancement_names_without_parts() {
    assert_eq!(format_advancement_name("minecraft:root"), "root");
    assert_eq!(format_advancement_name("minecraft:a/b_c/d"), "b c");
    assert_eq!(format_advancement_name("blazeandcave:root_one"), "[BACAP] root one");
    assert_eq!(format_advancement_name("mod:a/b_c"), "mod:a/b c");
}

#[test]
fn distances_and_numbers_are_written_as_doubles_are() {
    let mut values: Vec<u64> = vec![
        0, 1, 99, 100, 999, 1000, 1049, 1050, 1051, 1149, 1150, 1250, 1350, 1450, 99_949, 99_950,
        99_951, 999_949, 999_950, 999_999, 1_000_000, 1_049_999, 1_050_000, 1_150_000, 1_250_000,
        (1 << 53) - 1, 1 << 53, (1 << 53) + 1, (1 << 60) + 12_345, u64::MAX - 1, u64::MAX,
    ];
    let mut x: u64 = 88_172_645_463_325_252;
    for i in 0..4000 {
        x ^= x << 13;
        x ^= x >> 7;
        x ^= x << 17;
        values.push(x >> (i % 60));
    }
    for n in values {
        let expected = if n >= 1_000_000 {
            format!("{:.1}M", n as f64 / 1_000_000.0)
        } else if n >= 1_000 {
            format!("{:.1}K", n as f64 / 1_000.0)
        } else {
            n.to_string()
        };
        assert_eq!(fmt_num(n), expected, "{n}");
        let meters = n / 100;
        let expected = if meters >= 1000 {
            format!("{:.1}km", meters as f64 / 1000.0)
        } else {
            format!("{meters}m")
        };
        assert_eq!(format_distance(n), expected, "{n}");
    }
}

#[test]
fn one_decimal_of_a_quotient() {
    let mut s = String::from("x");
    push_one_decimal(&mut s, 1250, 1000);
    assert_eq!(s, "x1.2");
    let mut s = String::new();
    push_one_decimal(&mut s, 1350, 1000);
    assert_eq!(s, format!("{:.1}", 1350.0 / 1000.0));
}

#[test]
fn percentages_are_those_of_doubles() {
    assert_eq!(percent(0, 0), 0);
    assert_eq!(percent(29, 100), (29.0_f64 / 100.0 * 100.0) as u32);
    assert_eq!(percent(57, 100), (57.0_f64 / 100.0 * 100.0) as u32);
    assert_eq!(percent(7, 7), 100);
    for d in 1u64..300 {
        for n in 0..=d {
            let expected = (n as f64 / d as f64 * 100.0) as u32;
            assert_eq!(percent(n, d), expected, "{n}/{d}");
        }
    }
    let mut x: u64 = 1_234_567_890_123_456_789;
    for i in 0..3000 {
        x ^= x << 13;
        x ^= x >> 7;
        x ^= x << 17;
        let d = (x >> (i % 63)).max(1);
        let n = (x.rotate_left(17)) % d;
        let expected = (n as f64 / d as f64 * 100.0) as u32;
        assert_eq!(percent(n, d), expected, "{n}/{d}");
    }
}

#[test]
fn bars_of_days_are_those_of_doubles() {
    for secs in 0u64..4000 {
        let expected = if secs == 0 {
            "        —".to_string()
        } else {
            let filled = ((secs.min(3600) as f64 / 3600.0) * 8.0).ceil() as usize;
            let mut bar = format_play_time(secs);
            while bar.len() < 8 {
                bar.push(' ');
            }
            bar.push(' ');
            bar.push_str(&"█".repeat(filled));
            bar.push_str(&"░".repeat(8 - filled));
            bar
        };
        assert_eq!(daily_bar(secs), expected, "{secs}");
    }
    assert_eq!(daily_bar(90_061), "1d 1h 1m ████████");
}

#[test]
fn progress_bars() {
    assert_eq!(progress_bar(0, 4), "░░░░");
    assert_eq!(progress_bar(1, 4), "█░░░");
    assert_eq!(progress_bar(2, 4), "█▌░░");
    assert_eq!(progress_bar(4, 4), "███▌");
}

#[test]
fn dimensions_and_modes() {
    assert_eq!(format_dimension("minecraft:overworld"), "Overworld");
    assert_eq!(format_dimension("minecraft:the_nether"), "The Nether");
    assert_eq!(format_dimension("minecraft:the_end"), "The End");
    assert_eq!(format_dimension("mod:moon"), "mod:moon");
    assert_eq!(game_type_name(0), "Survival");
    assert_eq!(game_type_name(1), "Creative");
    assert_eq!(game_type_name(2), "Adventure");
    assert_eq!(game_type_name(3), "Spectator");
    assert_eq!(game_type_name(-1), "Unknown");
}

#[test]
fn custom_names_of_items() {
    assert_eq!(extract_text_from_json("{\"text\":\"Excalibur\"}"), "Excalibur");
    assert_eq!(extract_text_from_json(" {\"bold\":true,\"text\" : \"A \"} "), "A ");
    assert_eq!(extract_text_from_json("\"Plain\""), "\"Plain\"");
    assert_eq!(extract_text_from_json("{\"text\":1}"), "{\"text\":1}");
    assert_eq!(extract_text_from_json("{\"text\":\"open"), "{\"text\":\"open");
    let named = ItemComponents { custom_name: Some("{\"text\":\"Bob\"}".into()) };
    assert_eq!(item_display_name("minecraft:stick", Some(&named)), "Bob");
    let unnamed = ItemComponents { custom_name: None };
    assert_eq!(item_display_name("mod:iron_rod", Some(&unnamed)), "mod:iron rod");
}

fn item(slot: i8, id: &str, count: i32) -> InventoryItem {
    InventoryItem { slot, id: id.into(), count, components: None }
}

#[test]
fn inventory_is_shown_item_by_item() {
    let items = vec![item(0, "minecraft:iron_sword", 1), item(5, "minecraft:dirt", 64)];
    let shown = inventory_items(&items);
    assert_eq!(shown.len(), 2);
    assert_eq!(shown[1].slot, 5);
    assert_eq!(shown[1].item_id, "minecraft:dirt");
    assert_eq!(shown[1].count, 64);
    assert_eq!(shown[0].display_name, "iron sword");
}

#[test]
fn first_entries_of_counts() {
    let list = vec![("minecraft:a_b".to_string(), 5), ("x".to_string(), 2), ("y".to_string(), 1)];
    assert_eq!(top_entries(&list, 2, "Nothing"), "a b (5), x (2)");
    assert_eq!(top_entries(&list, 5, "Nothing"), "a b (5), x (2), y (1)");
    assert_eq!(top_entries(&[], 5, "Nothing"), "Nothing");
    assert_eq!(top_entries(&list, 0, "Nothing"), "");
}

#[test]
fn counts_are_sorted_by_size() {
    let sorted = sort_stats(vec![
        ("a".to_string(), 1),
        ("b".to_string(), 3),
        ("c".to_string(), 3),
        ("d".to_string(), 2),
    ]);
    let names: Vec<&str> = sorted.iter().map(|e| e.0.as_str()).collect();
    assert_eq!(names, ["b", "c", "d", "a"]);
}

fn raw_stats() -> RawStats {
    RawStats {
        mined: Some(vec![("minecraft:stone".into(), 3), ("minecraft:oak_log".into(), 7)]),
        picked_up: None,
        used: None,
        dropped: None,
        crafted: None,
        broken: None,
        killed: Some(vec![("minecraft:zombie".into(), 12)]),
        killed_by: None,
        custom: Some(vec![
            ("minecraft:play_time".into(), 72_019),
            ("minecraft:deaths".into(), 4),
            ("minecraft:mob_kills".into(), 12),
            ("minecraft:damage_dealt".into(), 12_345),
            ("minecraft:damage_taken".into(), 999),
            ("minecraft:walk_one_cm".into(), 250_000),
            ("minecraft:jump".into(), 1500),
        ]),
    }
}

#[test]
fn statistics_of_the_file() {
    let stats = transform_stats(raw_stats());
    assert_eq!(stats.play_time_ticks, 72_019);
    assert_eq!(stats.play_time_secs, 3600);
    assert_eq!(stats.deaths, 4);
    assert_eq!(stats.damage_dealt, 1234);
    assert_eq!(stats.damage_taken, 99);
    assert_eq!(stats.distance_swum_cm, 0);
    assert_eq!(stats.mined[0], ("minecraft:oak_log".to_string(), 7));
    assert!(stats.used.is_empty());
}

fn entry(done: bool, times: &[&str]) -> AdvancementEntry {
    AdvancementEntry {
        done,
        criteria: times.iter().map(|t| ("c".to_string(), t.to_string())).collect(),
    }
}

#[test]
fn advancements_are_counted() {
    let raw = vec![
        ("DataVersion".to_string(), Some(entry(true, &[]))),
        ("minecraft:recipes/x".to_string(), Some(entry(true, &["9"]))),
        ("minecraft:story/a".to_string(), Some(entry(true, &["2026-01-02", "2026-01-01"]))),
        ("broken".to_string(), None),
        ("mod:b".to_string(), Some(entry(true, &["2026-02-01"]))),
        ("minecraft:story/c".to_string(), Some(entry(false, &["2026-01-01", "2026-01-03"]))),
        ("mod:d".to_string(), Some(entry(false, &[]))),
    ];
    let map = parse_advancement_map(raw);
    assert_eq!(map.len(), 5);
    let a = compute_advancements(&map);
    assert_eq!((a.total, a.earned), (4, 2));
    assert_eq!((a.vanilla_total, a.vanilla_earned), (2, 1));
    assert_eq!((a.modded_total, a.modded_earned), (2, 1));
    assert_eq!(
        a.earned_list,
        [
            ("mod:b".to_string(), "2026-02-01".to_string()),
            ("minecraft:story/a".to_string(), "2026-01-02".to_string()),
        ]
    );
    assert_eq!(a.in_progress, [("minecraft:story/c".to_string(), 2, 1)]);
}

#[test]
fn files_that_fail_are_told_apart() {
    let io = read_error("p".into(), false, "denied".into());
    assert_eq!(io, PlayerDataError::ReadFile { path: "p".into(), source: "denied".into() });
    assert_eq!(io.message(), "failed to read file `p`: denied");
    assert_eq!(
        read_error("p".into(), true, "gone".into()).message(),
        "player data file not found: p"
    );
    let json = PlayerDataError::JsonParse { path: "p".into(), source: "bad".into() };
    assert_eq!(json.message(), "failed to parse JSON from `p`: bad");
    let nbt = PlayerDataError::NbtParse { path: "p".into(), source: "bad".into() };
    assert_eq!(nbt.message(), "failed to parse NBT data from `p`: bad");
    assert_eq!(load_stats(Err(json)).unwrap_err().message(), "failed to parse JSON from `p`: bad");
    assert!(load_stats(Ok(RawStatsJson { stats: None })).unwrap().is_none());
    assert!(load_stats(Ok(RawStatsJson { stats: Some(raw_stats()) })).unwrap().is_some());
    assert!(load_advancements(Err(read_error("p".into(), true, "".into()))).unwrap().is_none());
    assert!(load_advancements(Ok(vec![])).unwrap().is_some());
    assert!(load_nbt_player_data(Err(nbt)).is_err());
}

#[test]
fn paths_of_the_files() {
    assert_eq!(player_data_path("/w", "u"), "/w/playerdata/u.dat");
    assert_eq!(stats_path("/w/", "u"), "/w/stats/u.json");
    assert_eq!(advancements_path("w", "u"), "w/advancements/u.json");
    assert_eq!(world_dir_from_config(Some(&"/w".to_string())), Some("/w".to_string()));
    assert_eq!(world_dir_from_config(None), None);
}

fn player(inventory: Vec<InventoryItem>) -> NbtPlayerData {
    NbtPlayerData {
        data_version: 4000,
        dimension: "minecraft:the_nether".into(),
        position: Some("1.0, 64.5, -3.2".into()),
        health: 19,
        health_filled: 19,
        absorption: None,
        food_level: 25,
        xp_level: 30,
        xp_percent: 50,
        xp_total: 1395,
        score: -7,
        game_type: 0,
        inventory,
        ender_items: vec![],
    }
}

fn record() -> PlayerStats {
    PlayerStats {
        total_play_time_secs: 90_061,
        first_login_ts: 100,
        last_login_ts: 0,
        last_logout_ts: 0,
        total_logins: 3,
        total_deaths: 2,
        total_advancements: 5,
        total_messages: 7,
        total_commands: 1,
    }
}

#[test]
fn profile_keeps_what_was_loaded() {
    let failed = Err(PlayerDataError::JsonParse { path: "p".into(), source: "s".into() });
    let profile = load_player_profile(Ok(None), failed, load_advancements(Ok(vec![])), "u", "TestPlayer");
    assert_eq!(profile.username, "TestPlayer");
    assert_eq!(profile.uuid, "u");
    assert!(profile.player_data.is_none());
    assert!(profile.stats.is_none());
    assert!(profile.advancements.is_some());
}

#[test]
fn overview_of_a_player() {
    let profile = load_player_profile(
        Ok(Some(player(vec![item(0, "minecraft:stone", 64), item(1, "minecraft:bow", 1)]))),
        Ok(None),
        Ok(None),
        "u",
        "tess",
    );
    let embed = build_overview_embed(&profile, Some(&record()));
    assert_eq!(embed.title, "🎮 tess");
    assert_eq!(embed.color, 0x00aa00);
    let expected = "❤️ **Health:** 19/20\n\
        ```██████████████████▌░```\n\
        🍖 **Hunger:** 25/20\n\
        ```███████████████████▌```\n\
        ⭐ **Level:** 30  •  50% to next  •  1395 total XP\n\
        🎯 **Mode:** Survival\n\
        🗺️ **Dimension:** The Nether\n\
        📍 **Position:** 1.0, 64.5, -3.2\n\
        💯 **Score:** -7\n\
        \n\
        📋 **Activity (tracked):**\n\
        🔑 Logins: 3  •  💬 Messages: 7  •  ⌨️ Commands: 1\n\
        🕐 First seen: <t:100:R>\n\
        \n\
        🎒 **Inventory:** 2/41 slots used\n\
        ```\n\
        64x stone\n\
        bow\n\
        ```\n";
    assert_eq!(embed.description.as_deref(), Some(expected));
}

#[test]
fn overview_shows_eight_items() {
    let items: Vec<InventoryItem> = (0..10).map(|i| item(i, "minecraft:stick", 1)).collect();
    let profile = load_player_profile(Ok(Some(player(items))), Ok(None), Ok(None), "u", "tess");
    let text = build_overview_embed(&profile, None).description.unwrap();
    assert_eq!(text.matches("stick\n").count(), 8);
    assert!(text.ends_with("stick\n... and 2 more\n```\n"));
    assert!(!text.contains("Activity"));
    let empty = load_player_profile(Ok(None), Ok(None), Ok(None), "u", "tess");
    assert_eq!(
        build_overview_embed(&empty, None).description.unwrap(),
        "Player data file not yet available for **tess**.\nJoin the server to generate it."
    );
}

#[test]
fn statistics_of_a_player() {
    let stats = load_stats(Ok(RawStatsJson { stats: Some(raw_stats()) }));
    let profile = load_player_profile(Ok(None), stats, Ok(None), "u", "tess");
    let days = vec![("2026-01-01".to_string(), 0), ("2026-01-02".to_string(), 1800)];
    let embed = build_stats_embed(&profile, Some(&record()), &days);
    assert_eq!(embed.title, "📊 Statistics — tess");
    assert_eq!(embed.color, 0x3498db);
    let expected = "⏱️ **Play Time:** 1d 1h 1m\n\
        💀 **Deaths:** 2  •  ⚔️ **Mob Kills:** 12  •  🔑 **Logins:** 3\n\
        💬 **Messages:** 7  •  ⌨️ **Commands:** 1  •  🏆 **Advancements:** 5\n\
        \n\
        **Movement (from stats):**\n\
        👣 Walked: 2.5km  •  ✈️ Flown: 0m  •  🏊 Swum: 0m\n\
        🦘 Jumps: 1.5K\n\
        🗡️ **Damage Dealt:** 1.2K  •  💥 **Damage Taken:** 99\n\
        \n\
        🔝 **Top Killed:** zombie (12)\n\
        ⛏️ **Top Mined:** oak log (7), stone (3)\n\
        \n\
        📅 **This Week:** 30m\n\
        ```\n\
        2026-01-01          —\n\
        2026-01-02  30m      ████░░░░\n\
        ```\n";
    assert_eq!(embed.description.as_deref(), Some(expected));
    let without = build_stats_embed(&profile, None, &[]).description.unwrap();
    assert!(without.starts_with(
        "⏱️ **Play Time:** 1h 0m\n💀 **Deaths:** 4  •  ⚔️ **Mob Kills:** 12\n\n**Movement"
    ));
    let nothing = load_player_profile(Ok(None), Ok(None), Ok(None), "u", "tess");
    assert_eq!(
        build_stats_embed(&nothing, None, &[]).description.unwrap(),
        "No statistics data available for this player."
    );
}

#[test]
fn advancements_of_a_player() {
    let raw = vec![
        ("minecraft:story/mine_stone".to_string(), Some(entry(true, &["2026-01-01"]))),
        ("minecraft:story/smelt_iron".to_string(), Some(entry(false, &["2026-01-01"]))),
        ("minecraft:story/c".to_string(), Some(entry(false, &[]))),
        ("blazeandcave:animal/which_came_first".to_string(), Some(entry(true, &["2026-02-01"]))),
    ];
    let profile = load_player_profile(Ok(None), Ok(None), load_advancements(Ok(raw)), "u", "tess");
    let embed = build_advancements_embed(&profile);
    assert_eq!(embed.title, "🏆 Advancements — tess");
    assert_eq!(embed.color, 0xe67e22);
    let expected = "📈 **Overall:** 2/4 (50%)\n\
        🧱 **Vanilla:** 1/3 (33%)\n\
        ✨ **Modded:** 1/1 (100%)\n\
        \n\
        ⭐ **Recently Earned:**\n\
        • [BACAP] which came first\n\
        • mine stone\n\
        \n\
        📋 **In Progress:**\n\
        • smelt iron — 1/1\n";
    assert_eq!(embed.description.as_deref(), Some(expected));
    let nothing = load_player_profile(Ok(None), Ok(None), Ok(None), "u", "tess");
    assert_eq!(
        build_advancements_embed(&nothing).description.unwrap(),
        "No advancement data available for this player."
    );
}

#[test]
fn pages_of_a_profile() {
    let profile = load_player_profile(Ok(None), Ok(None), Ok(None), "u", "tess");
    assert_eq!(build_profile_embeds(&profile, None, &[]).len(), 2);
    let profile: PlayerProfile =
        load_player_profile(Ok(None), Ok(None), load_advancements(Ok(vec![])), "u", "tess");
    let pages = build_profile_embeds(&profile, None, &[]);
    assert_eq!(pages.len(), 3);
    assert_eq!(pages[2].title, "🏆 Advancements — tess");
    assert_eq!(
        pages[2].description.as_deref(),
        Some("📈 **Overall:** 0/0 (0%)\n🧱 **Vanilla:** 0/0 (0%)\n")
    );
}
