//! The configuration and its sources.

use vvv::consts::{
    config_paths, default_db_path, home_dir, home_vvv_path, resolve_db_path, xdg_config_home,
    xdg_config_path, xdg_state_home, Config, ConfigError, EnvConfig, EnvPaths, FileConfig,
    FileRead,
};

fn no_env() -> EnvConfig {
    EnvConfig {
        token: None,
        old_token: None,
        log_path: None,
        old_log_path: None,
        rcon_address: None,
        old_rcon_address: None,
        rcon_password: None,
        old_rcon_password: None,
        server_address: None,
        old_server_address: None,
        world_directory: None,
        owner_id: None,
        guild_id: None,
        database_path: None,
        timezone: None,
    }
}

fn file() -> FileConfig {
    FileConfig {
        token: "token".into(),
        rcon_address: None,
        rcon_password: "password".into(),
        server_address: None,
        world_directory: None,
        owner_id: 1,
        guild_id: None,
        log_path: "/log".into(),
        database_path: None,
        timezone: None,
    }
}

fn paths(home: Option<&str>, config: Option<&str>, state: Option<&str>) -> EnvPaths {
    EnvPaths {
        home: home.map(String::from),
        xdg_config_home: config.map(String::from),
        xdg_state_home: state.map(String::from),
    }
}

#[test]
fn defaults_are_filled_in() {
    let config = Config::load(vec![FileRead::Read(file())], &no_env()).unwrap();
    assert_eq!(config.discord.token, "token");
    assert_eq!(config.rcon.address, "localhost:25575");
    assert_eq!(config.rcon.password, "password");
    assert_eq!(config.minecraft.server_address, "localhost:25565");
    assert_eq!(config.minecraft.world_directory, None);
    assert_eq!(config.bot.owner_id, 1);
    assert_eq!(config.bot.guild_id, None);
    assert_eq!(config.log.path, "/log");
    assert_eq!(config.storage.database_path, None);
    assert_eq!(config.stats.timezone, "UTC");
}

#[test]
fn later_files_win() {
    let first = FileConfig {
        rcon_address: Some("one:1".into()),
        server_address: Some("mc:1".into()),
        guild_id: Some(9),
        database_path: Some("/db".into()),
        timezone: Some("Asia/Kolkata".into()),
        world_directory: Some("/world".into()),
        ..file()
    };
    let second = FileConfig {
        token: "".into(),
        rcon_password: "other".into(),
        owner_id: 0,
        log_path: "/other".into(),
        server_address: Some("mc:2".into()),
        ..file()
    };
    let files = vec![FileRead::Read(first), FileRead::Missing, FileRead::Read(second)];
    let config = Config::load(files, &no_env()).unwrap();
    assert_eq!(config.discord.token, "token");
    assert_eq!(config.rcon.address, "one:1");
    assert_eq!(config.rcon.password, "other");
    assert_eq!(config.minecraft.server_address, "mc:2");
    assert_eq!(config.minecraft.world_directory.as_deref(), Some("/world"));
    assert_eq!(config.bot.owner_id, 1);
    assert_eq!(config.bot.guild_id, Some(9));
    assert_eq!(config.log.path, "/other");
    assert_eq!(config.storage.database_path.as_deref(), Some("/db"));
    assert_eq!(config.stats.timezone, "Asia/Kolkata");
}

#[test]
fn environment_wins() {
    let env = EnvConfig {
        token: Some("new".into()),
        old_token: Some("old".into()),
        old_log_path: Some("/old-log".into()),
        old_rcon_address: Some("old:1".into()),
        rcon_password: Some("secret".into()),
        server_address: Some("mc:9".into()),
        world_directory: Some("/w".into()),
        owner_id: Some("+77".into()),
        guild_id: Some("5".into()),
        database_path: Some("/x".into()),
        timezone: Some("Europe/Berlin".into()),
        ..no_env()
    };
    let config = Config::load(vec![FileRead::Read(file())], &env).unwrap();
    assert_eq!(config.discord.token, "new");
    assert_eq!(config.log.path, "/old-log");
    assert_eq!(config.rcon.address, "old:1");
    assert_eq!(config.rcon.password, "secret");
    assert_eq!(config.minecraft.server_address, "mc:9");
    assert_eq!(config.minecraft.world_directory.as_deref(), Some("/w"));
    assert_eq!(config.bot.owner_id, 77);
    assert_eq!(config.bot.guild_id, Some(5));
    assert_eq!(config.storage.database_path.as_deref(), Some("/x"));
    assert_eq!(config.stats.timezone, "Europe/Berlin");
}

#[test]
fn numbers_that_cannot_be_read_are_not_given() {
    for text in ["", "x", "-1", "1 ", "++1", "+", "18446744073709551616"] {
        assert!(text.parse::<u64>().is_err());
        let env = EnvConfig { owner_id: Some(text.into()), ..no_env() };
        let config = Config::load(vec![FileRead::Read(file())], &env).unwrap();
        assert_eq!(config.bot.owner_id, 1, "{text:?}");
    }
    for text in ["0", "007", "+7", "18446744073709551615"] {
        let env = EnvConfig { guild_id: Some(text.into()), ..no_env() };
        let config = Config::load(vec![FileRead::Read(file())], &env).unwrap();
        assert_eq!(config.bot.guild_id, text.parse::<u64>().ok(), "{text:?}");
    }
}

#[test]
fn fields_that_must_be_given() {
    let missing = |f: FileConfig| Config::load(vec![FileRead::Read(f)], &no_env()).unwrap_err();
    assert_eq!(
        missing(FileConfig { token: "".into(), ..file() }),
        ConfigError::MissingField("discord.token / VVV_DISCORD_TOKEN")
    );
    assert_eq!(
        missing(FileConfig { log_path: "".into(), ..file() }),
        ConfigError::MissingField("log.path / VVV_LOG_PATH")
    );
    assert_eq!(
        missing(FileConfig { rcon_password: "".into(), ..file() }),
        ConfigError::MissingField("rcon.password / VVV_RCON_PASSWORD")
    );
    let e = missing(FileConfig { owner_id: 0, ..file() });
    assert_eq!(
        e.message(),
        "required field missing from all config sources: bot.owner_id / VVV_OWNER_ID"
    );
    assert_eq!(
        Config::load(vec![], &no_env()).unwrap_err(),
        ConfigError::MissingField("discord.token / VVV_DISCORD_TOKEN")
    );
}

#[test]
fn first_file_that_fails_ends_the_attempt() {
    let read = ConfigError::ReadFile { path: "/a".into(), source: "denied".into() };
    let parse = ConfigError::ParseToml { path: "/b".into(), source: "bad".into() };
    assert_eq!(read.message(), "failed to read config file `/a`: denied");
    assert_eq!(parse.message(), "invalid TOML in `/b`: bad");
    let files = vec![FileRead::Read(file()), FileRead::Failed(parse), FileRead::Failed(read)];
    let e = Config::load(files, &no_env()).unwrap_err();
    assert_eq!(e, ConfigError::ParseToml { path: "/b".into(), source: "bad".into() });
}

#[test]
fn paths_come_from_the_environment() {
    let env = paths(Some("/home/me"), None, None);
    assert_eq!(home_dir(&env), "/home/me");
    assert_eq!(xdg_config_home(&env), "/home/me/.config");
    assert_eq!(xdg_state_home(&env), "/home/me/.local/state");
    assert_eq!(xdg_config_path(&env), "/home/me/.config/vvv.toml");
    assert_eq!(home_vvv_path(&env), "/home/me/.vvv.toml");
    assert_eq!(default_db_path(&env), "/home/me/.local/state/vvv/vvv.redb");
    assert_eq!(
        config_paths(&env),
        ["/etc/vvv.toml", "/home/me/.config/vvv.toml", "/home/me/.vvv.toml"]
    );
    let env = paths(None, Some("/c/"), Some("/s"));
    assert_eq!(home_dir(&env), "/home");
    assert_eq!(xdg_config_path(&env), "/c/vvv.toml");
    assert_eq!(default_db_path(&env), "/s/vvv/vvv.redb");
    for base in ["", "/", "/a", "/a/", "a"] {
        let env = paths(Some(base), None, None);
        let expected = std::path::PathBuf::from(base).join(".vvv.toml");
        assert_eq!(home_vvv_path(&env), expected.to_string_lossy());
    }
}

#[test]
fn database_lies_where_the_configuration_says() {
    let env = paths(Some("/h"), None, None);
    let mut config = Config::load(vec![FileRead::Read(file())], &no_env()).unwrap();
    assert_eq!(resolve_db_path(&config, &env), "/h/.local/state/vvv/vvv.redb");
    config.storage.database_path = Some("/my/db".into());
    assert_eq!(resolve_db_path(&config, &env), "/my/db");
}
