//! The configuration, and the places that it comes from.
//!
//! What a later source gives takes the place of what an earlier one gave: first the system's file,
//! then the user's file among the user's configuration, then the one in the home directory, and
//! last the environment.

use crate::text;
use crate::text::{chars_of, parse_number, tail};
use vstd::prelude::*;
use vstd::string::*;

verus! {

/// The configuration.
#[derive(Debug)]
pub struct Config {
    pub discord: DiscordConfig,
    pub rcon: RconConfig,
    pub minecraft: MinecraftConfig,
    pub bot: BotConfig,
    pub log: LogConfig,
    pub storage: StorageConfig,
    pub stats: StatsConfig,
}

#[derive(Debug)]
pub struct DiscordConfig {
    pub token: String,
}

#[derive(Debug)]
pub struct RconConfig {
    pub address: String,
    pub password: String,
}

#[derive(Debug)]
pub struct MinecraftConfig {
    pub server_address: String,
    /// Where the world lies, with the players' data.
    pub world_directory: Option<String>,
}

#[derive(Debug)]
pub struct BotConfig {
    pub owner_id: u64,
    /// The guild in which the commands are registered at once.
    pub guild_id: Option<u64>,
}

#[derive(Debug)]
pub struct LogConfig {
    pub path: String,
}

#[derive(Debug)]
pub struct StorageConfig {
    /// Where the database lies, if not at the default place.
    pub database_path: Option<String>,
}

#[derive(Debug)]
pub struct StatsConfig {
    /// The time zone whose days the play time is counted by.
    pub timezone: String,
}

/// What a file gives of the configuration.
#[derive(Debug)]
pub struct FileConfig {
    pub token: String,
    pub rcon_address: Option<String>,
    pub rcon_password: String,
    pub server_address: Option<String>,
    pub world_directory: Option<String>,
    pub owner_id: u64,
    pub guild_id: Option<u64>,
    pub log_path: String,
    pub database_path: Option<String>,
    pub timezone: Option<String>,
}

/// What the environment gives of the configuration. Some variables had other names once, which are
/// still read where the variable is not set.
#[derive(Debug)]
pub struct EnvConfig {
    /// `VVV_DISCORD_TOKEN`, once `DISCORD_TOKEN`.
    pub token: Option<String>,
    pub old_token: Option<String>,
    /// `VVV_LOG_PATH`, once `LOG_PATH`.
    pub log_path: Option<String>,
    pub old_log_path: Option<String>,
    /// `VVV_RCON_ADDRESS`, once `RCON_SERVER_ADDRESS`.
    pub rcon_address: Option<String>,
    pub old_rcon_address: Option<String>,
    /// `VVV_RCON_PASSWORD`, once `RCON_PASSWORD`.
    pub rcon_password: Option<String>,
    pub old_rcon_password: Option<String>,
    /// `VVV_MC_SERVER_ADDRESS`, once `MC_SERVER_QUERY_ADDRESS`.
    pub server_address: Option<String>,
    pub old_server_address: Option<String>,
    /// `VVV_MC_WORLD_DIRECTORY`.
    pub world_directory: Option<String>,
    /// `VVV_OWNER_ID`.
    pub owner_id: Option<String>,
    /// `VVV_GUILD_ID`.
    pub guild_id: Option<String>,
    /// `VVV_DATABASE_PATH`.
    pub database_path: Option<String>,
    /// `VVV_STATS_TIMEZONE`.
    pub timezone: Option<String>,
}

/// Why there is no configuration.
#[derive(Debug, PartialEq)]
pub enum ConfigError {
    /// No source gives a field that must be given.
    MissingField(&'static str),
    /// A file cannot be read.
    ReadFile { path: String, source: String },
    /// A file is not valid TOML.
    ParseToml { path: String, source: String },
}

impl ConfigError {
    /// What is said of the error.
    pub open spec fn text(self) -> Seq<char> {
        match self {
            ConfigError::MissingField(field) => {
                "required field missing from all config sources: "@ + field@
            },
            ConfigError::ReadFile { path, source } => {
                "failed to read config file `"@ + path@ + "`: "@ + source@
            },
            ConfigError::ParseToml { path, source } => {
                "invalid TOML in `"@ + path@ + "`: "@ + source@
            },
        }
    }

    /// Says what the error is.
    pub fn message(&self) -> (r: String)
        ensures
            r@ == self.text(),
    {
        match self {
            ConfigError::MissingField(field) => {
                let mut s = "required field missing from all config sources: ".to_owned();
                s.append(field);
                s
            },
            ConfigError::ReadFile { path, source } => {
                let mut s = "failed to read config file `".to_owned();
                s.append(path.as_str());
                s.append("`: ");
                s.append(source.as_str());
                s
            },
            ConfigError::ParseToml { path, source } => {
                let mut s = "invalid TOML in `".to_owned();
                s.append(path.as_str());
                s.append("`: ");
                s.append(source.as_str());
                s
            },
        }
    }
}

/// The configuration with its texts as sequences of characters.
pub struct ConfigView {
    pub token: Seq<char>,
    pub rcon_address: Seq<char>,
    pub rcon_password: Seq<char>,
    pub server_address: Seq<char>,
    pub world_directory: Option<Seq<char>>,
    pub owner_id: u64,
    pub guild_id: Option<u64>,
    pub log_path: Seq<char>,
    pub database_path: Option<Seq<char>>,
    pub timezone: Seq<char>,
}

impl View for Config {
    type V = ConfigView;

    open spec fn view(&self) -> ConfigView {
        ConfigView {
            token: self.discord.token@,
            rcon_address: self.rcon.address@,
            rcon_password: self.rcon.password@,
            server_address: self.minecraft.server_address@,
            world_directory: text::text_view(self.minecraft.world_directory),
            owner_id: self.bot.owner_id,
            guild_id: self.bot.guild_id,
            log_path: self.log.path@,
            database_path: text::text_view(self.storage.database_path),
            timezone: self.stats.timezone@,
        }
    }
}

/// The configuration before any source is read.
pub open spec fn empty_config() -> ConfigView {
    ConfigView {
        token: ""@,
        rcon_address: "localhost:25575"@,
        rcon_password: ""@,
        server_address: "localhost:25565"@,
        world_directory: None,
        owner_id: 0,
        guild_id: None,
        log_path: ""@,
        database_path: None,
        timezone: "UTC"@,
    }
}

/// The text that a later source gives, or else the earlier one.
pub open spec fn given(later: Option<String>, earlier: Seq<char>) -> Seq<char> {
    match later {
        Some(s) => s@,
        None => earlier,
    }
}

/// The optional text that a later source gives, or else the earlier one.
pub open spec fn given_option(later: Option<String>, earlier: Option<Seq<char>>) -> Option<Seq<char>> {
    match later {
        Some(s) => Some(s@),
        None => earlier,
    }
}

/// The text that a later source gives, or else the earlier one; to give an empty text is to give
/// none.
pub open spec fn given_nonempty(later: String, earlier: Seq<char>) -> Seq<char> {
    if later@.len() > 0 {
        later@
    } else {
        earlier
    }
}

/// The configuration with what a file gives.
pub open spec fn merged(c: ConfigView, f: FileConfig) -> ConfigView {
    ConfigView {
        token: given_nonempty(f.token, c.token),
        rcon_address: given(f.rcon_address, c.rcon_address),
        rcon_password: given_nonempty(f.rcon_password, c.rcon_password),
        server_address: given(f.server_address, c.server_address),
        world_directory: given_option(f.world_directory, c.world_directory),
        owner_id: if f.owner_id != 0 {
            f.owner_id
        } else {
            c.owner_id
        },
        guild_id: if f.guild_id is Some {
            f.guild_id
        } else {
            c.guild_id
        },
        log_path: f.log_path@,
        database_path: given_option(f.database_path, c.database_path),
        timezone: given(f.timezone, c.timezone),
    }
}

/// The number that a text of an environment variable stands for: digits, perhaps after a plus sign.
pub open spec fn env_number(s: Seq<char>) -> Option<nat> {
    if s.len() > 0 && s[0] == '+' {
        text::number(s.skip(1), u64::MAX as nat)
    } else {
        text::number(s, u64::MAX as nat)
    }
}

/// Reads a number out of an environment variable.
fn read_env_number(s: &str) -> (r: Option<u64>)
    ensures
        match r {
            Some(n) => env_number(s@) == Some(n as nat),
            None => env_number(s@) is None,
        },
{
    let v = chars_of(s);
    if v.len() > 0 && v[0] == '+' {
        parse_number(tail(v.as_slice(), 1), 0xffff_ffff_ffff_ffff)
    } else {
        parse_number(v.as_slice(), 0xffff_ffff_ffff_ffff)
    }
}

/// The text of a variable, or else of the one by its old name, or else the earlier one.
pub open spec fn given_by_env(
    new: Option<String>,
    old_name: Option<String>,
    earlier: Seq<char>,
) -> Seq<char> {
    match new {
        Some(s) => s@,
        None => given(old_name, earlier),
    }
}

/// The configuration with what the environment gives. A number that cannot be read is not given.
pub open spec fn overlaid(c: ConfigView, e: EnvConfig) -> ConfigView {
    ConfigView {
        token: given_by_env(e.token, e.old_token, c.token),
        rcon_address: given_by_env(e.rcon_address, e.old_rcon_address, c.rcon_address),
        rcon_password: given_by_env(e.rcon_password, e.old_rcon_password, c.rcon_password),
        server_address: given_by_env(e.server_address, e.old_server_address, c.server_address),
        world_directory: given_option(e.world_directory, c.world_directory),
        owner_id: match e.owner_id {
            Some(s) => match env_number(s@) {
                Some(n) => n as u64,
                None => c.owner_id,
            },
            None => c.owner_id,
        },
        guild_id: match e.guild_id {
            Some(s) => match env_number(s@) {
                Some(n) => Some(n as u64),
                None => c.guild_id,
            },
            None => c.guild_id,
        },
        log_path: given_by_env(e.log_path, e.old_log_path, c.log_path),
        database_path: given_option(e.database_path, c.database_path),
        timezone: given(e.timezone, c.timezone),
    }
}

/// The first field that must be given and is not.
pub open spec fn missing_field(c: ConfigView) -> Option<Seq<char>> {
    if c.token.len() == 0 {
        Some("discord.token / VVV_DISCORD_TOKEN"@)
    } else if c.log_path.len() == 0 {
        Some("log.path / VVV_LOG_PATH"@)
    } else if c.rcon_password.len() == 0 {
        Some("rcon.password / VVV_RCON_PASSWORD"@)
    } else if c.owner_id == 0 {
        Some("bot.owner_id / VVV_OWNER_ID"@)
    } else {
        None
    }
}

/// What came of reading a file.
#[derive(Debug)]
pub enum FileRead {
    /// There is no such file.
    Missing,
    /// This is what it gives.
    Read(FileConfig),
    /// It cannot be read or understood.
    Failed(ConfigError),
}

/// The configuration with what the files give, in order.
pub open spec fn merged_all(files: Seq<FileRead>) -> ConfigView
    decreases files.len(),
{
    if files.len() == 0 {
        empty_config()
    } else {
        match files.last() {
            FileRead::Read(f) => merged(merged_all(files.drop_last()), f),
            _ => merged_all(files.drop_last()),
        }
    }
}

/// `i` is the first file that cannot be read or understood.
pub open spec fn first_failure(files: Seq<FileRead>, i: int) -> bool {
    &&& 0 <= i < files.len()
    &&& files[i] is Failed
    &&& forall|j: int| 0 <= j < i ==> !(#[trigger] files[j] is Failed)
}

/// Takes the later text, or else the earlier one.
fn or_earlier(later: &Option<String>, earlier: &String) -> (r: String)
    ensures
        r@ == given(*later, earlier@),
{
    match later {
        Some(s) => s.clone(),
        None => earlier.clone(),
    }
}

/// Takes the later optional text, or else the earlier one.
fn or_earlier_option(later: &Option<String>, earlier: &Option<String>) -> (r: Option<String>)
    ensures
        text::text_view(r) == given_option(*later, text::text_view(*earlier)),
{
    match later {
        Some(s) => Some(s.clone()),
        None => match earlier {
            Some(s) => Some(s.clone()),
            None => None,
        },
    }
}

/// Takes the later text unless it is empty.
fn nonempty_or(later: &String, earlier: &String) -> (r: String)
    ensures
        r@ == given_nonempty(*later, earlier@),
{
    if later.as_str().unicode_len() > 0 {
        later.clone()
    } else {
        earlier.clone()
    }
}

/// Takes the text of a variable, or else of the one by its old name, or else the earlier one.
fn env_or(new: &Option<String>, old_name: &Option<String>, earlier: &String) -> (r: String)
    ensures
        r@ == given_by_env(*new, *old_name, earlier@),
{
    match new {
        Some(s) => s.clone(),
        None => or_earlier(old_name, earlier),
    }
}

impl Config {
    /// The configuration before any source is read.
    pub fn empty() -> (r: Self)
        ensures
            r@ == empty_config(),
    {
        Config {
            discord: DiscordConfig { token: "".to_owned() },
            rcon: RconConfig {
                address: "localhost:25575".to_owned(),
                password: "".to_owned(),
            },
            minecraft: MinecraftConfig {
                server_address: "localhost:25565".to_owned(),
                world_directory: None,
            },
            bot: BotConfig { owner_id: 0, guild_id: None },
            log: LogConfig { path: "".to_owned() },
            storage: StorageConfig { database_path: None },
            stats: StatsConfig { timezone: "UTC".to_owned() },
        }
    }

    /// Takes in what a file gives.
    pub fn merge_into(target: &mut Self, source: &FileConfig)
        ensures
            final(target)@ == merged(old(target)@, *source),
    {
        let merged = Config {
            discord: DiscordConfig { token: nonempty_or(&source.token, &target.discord.token) },
            rcon: RconConfig {
                address: or_earlier(&source.rcon_address, &target.rcon.address),
                password: nonempty_or(&source.rcon_password, &target.rcon.password),
            },
            minecraft: MinecraftConfig {
                server_address: or_earlier(
                    &source.server_address,
                    &target.minecraft.server_address,
                ),
                world_directory: or_earlier_option(
                    &source.world_directory,
                    &target.minecraft.world_directory,
                ),
            },
            bot: BotConfig {
                owner_id: if source.owner_id != 0 {
                    source.owner_id
                } else {
                    target.bot.owner_id
                },
                guild_id: if source.guild_id.is_some() {
                    source.guild_id
                } else {
                    target.bot.guild_id
                },
            },
            log: LogConfig { path: source.log_path.clone() },
            storage: StorageConfig {
                database_path: or_earlier_option(
                    &source.database_path,
                    &target.storage.database_path,
                ),
            },
            stats: StatsConfig { timezone: or_earlier(&source.timezone, &target.stats.timezone) },
        };
        *target = merged;
    }

    /// Takes in what the environment gives.
    pub fn overlay_env(config: &mut Self, env: &EnvConfig)
        ensures
            final(config)@ == overlaid(old(config)@, *env),
    {
        let owner_id: u64 = match &env.owner_id {
            Some(s) => match read_env_number(s.as_str()) {
                Some(n) => n,
                None => config.bot.owner_id,
            },
            None => config.bot.owner_id,
        };
        let guild_id: Option<u64> = match &env.guild_id {
            Some(s) => match read_env_number(s.as_str()) {
                Some(n) => Some(n),
                None => config.bot.guild_id,
            },
            None => config.bot.guild_id,
        };
        let overlaid = Config {
            discord: DiscordConfig {
                token: env_or(&env.token, &env.old_token, &config.discord.token),
            },
            rcon: RconConfig {
                address: env_or(&env.rcon_address, &env.old_rcon_address, &config.rcon.address),
                password: env_or(
                    &env.rcon_password,
                    &env.old_rcon_password,
                    &config.rcon.password,
                ),
            },
            minecraft: MinecraftConfig {
                server_address: env_or(
                    &env.server_address,
                    &env.old_server_address,
                    &config.minecraft.server_address,
                ),
                world_directory: or_earlier_option(
                    &env.world_directory,
                    &config.minecraft.world_directory,
                ),
            },
            bot: BotConfig { owner_id, guild_id },
            log: LogConfig { path: env_or(&env.log_path, &env.old_log_path, &config.log.path) },
            storage: StorageConfig {
                database_path: or_earlier_option(
                    &env.database_path,
                    &config.storage.database_path,
                ),
            },
            stats: StatsConfig { timezone: or_earlier(&env.timezone, &config.stats.timezone) },
        };
        *config = overlaid;
    }

    /// Checks that every field that must be given is given.
    pub fn validate(&self) -> (r: Result<(), ConfigError>)
        ensures
            match r {
                Ok(_) => missing_field(self@) is None,
                Err(e) => e matches ConfigError::MissingField(field) && missing_field(self@) == Some(
                    field@,
                ),
            },
    {
        if self.discord.token.as_str().unicode_len() == 0 {
            return Err(ConfigError::MissingField("discord.token / VVV_DISCORD_TOKEN"));
        }
        if self.log.path.as_str().unicode_len() == 0 {
            return Err(ConfigError::MissingField("log.path / VVV_LOG_PATH"));
        }
        if self.rcon.password.as_str().unicode_len() == 0 {
            return Err(ConfigError::MissingField("rcon.password / VVV_RCON_PASSWORD"));
        }
        if self.bot.owner_id == 0 {
            return Err(ConfigError::MissingField("bot.owner_id / VVV_OWNER_ID"));
        }
        Ok(())
    }

    /// Puts the configuration together from the files, the first of which comes first, and the
    /// environment. The first file that cannot be read or understood ends the attempt; otherwise
    /// it fails where a field that must be given is missing.
    pub fn load(files: Vec<FileRead>, env: &EnvConfig) -> (r: Result<Self, ConfigError>)
        ensures
            match r {
                Ok(c) => {
                    &&& forall|i: int| 0 <= i < files@.len() ==> !(#[trigger] files@[i] is Failed)
                    &&& c@ == overlaid(merged_all(files@), *env)
                    &&& missing_field(c@) is None
                },
                Err(e) => {
                    ||| exists|i: int|
                        #![trigger files@[i]]
                        first_failure(files@, i) && files@[i] == FileRead::Failed(e)
                    ||| {
                        &&& forall|i: int|
                            0 <= i < files@.len() ==> !(#[trigger] files@[i] is Failed)
                        &&& e matches ConfigError::MissingField(field) && missing_field(
                            overlaid(merged_all(files@), *env),
                        ) == Some(field@)
                    }
                },
            },
    {
        let mut rest = files;
        let ghost all = files@;
        let mut config = Config::empty();
        let ghost mut i: int = 0;
        assert(all.skip(0) =~= all);
        while rest.len() > 0
            invariant
                0 <= i <= all.len(),
                all == files@,
                rest@ == all.skip(i),
                config@ == merged_all(all.take(i)),
                forall|j: int| 0 <= j < i ==> !(#[trigger] all[j] is Failed),
            decreases rest@.len(),
        {
            let file = rest.remove(0);
            proof {
                assert(file == all[i]);
                assert(rest@ =~= all.skip(i + 1));
                assert(all.take(i + 1).drop_last() =~= all.take(i));
                assert(all.take(i + 1).last() == all[i]);
            }
            match file {
                FileRead::Missing => {},
                FileRead::Read(f) => {
                    Config::merge_into(&mut config, &f);
                },
                FileRead::Failed(e) => {
                    assert(first_failure(all, i) && all[i] == FileRead::Failed(e));
                    return Err(e);
                },
            }
            proof {
                i = i + 1;
            }
        }
        assert(all.take(i) =~= all);
        Config::overlay_env(&mut config, env);
        match config.validate() {
            Ok(_) => Ok(config),
            Err(e) => Err(e),
        }
    }
}

/// A configuration that was loaded has a token, a log, a password and an owner.
pub proof fn law_loaded_config_is_complete(c: ConfigView)
    requires
        missing_field(c) is None,
    ensures
        c.token.len() > 0,
        c.log_path.len() > 0,
        c.rcon_password.len() > 0,
        c.owner_id != 0,
{
}

/// What the environment gives counts, whatever the files give.
pub proof fn law_environment_wins(files: Seq<FileRead>, env: EnvConfig)
    ensures
        ({
            let c = overlaid(merged_all(files), env);
            &&& env.token is Some ==> c.token == (env.token->0)@
            &&& env.token is None && env.old_token is Some ==> c.token == (env.old_token->0)@
            &&& env.log_path is Some ==> c.log_path == (env.log_path->0)@
            &&& env.log_path is None && env.old_log_path is Some ==> c.log_path == (
            env.old_log_path->0)@
            &&& env.rcon_address is Some ==> c.rcon_address == (env.rcon_address->0)@
            &&& env.rcon_address is None && env.old_rcon_address is Some ==> c.rcon_address == (
            env.old_rcon_address->0)@
            &&& env.rcon_password is Some ==> c.rcon_password == (env.rcon_password->0)@
            &&& env.rcon_password is None && env.old_rcon_password is Some ==> c.rcon_password == (
            env.old_rcon_password->0)@
            &&& env.server_address is Some ==> c.server_address == (env.server_address->0)@
            &&& env.server_address is None && env.old_server_address is Some ==> c.server_address
                == (env.old_server_address->0)@
            &&& env.world_directory is Some ==> c.world_directory == Some(
                (env.world_directory->0)@,
            )
            &&& env.owner_id is Some && env_number((env.owner_id->0)@) is Some ==> c.owner_id
                == env_number((env.owner_id->0)@)->0
            &&& env.guild_id is Some && env_number((env.guild_id->0)@) is Some ==> c.guild_id
                == Some(env_number((env.guild_id->0)@)->0 as u64)
            &&& env.database_path is Some ==> c.database_path == Some((env.database_path->0)@)
            &&& env.timezone is Some ==> c.timezone == (env.timezone->0)@
        }),
{
}

/// What a later file gives takes the place of what earlier files gave, and what it does not give
/// stays as it was.
pub proof fn law_later_file_wins(files: Seq<FileRead>, f: FileConfig)
    ensures
        ({
            let before = merged_all(files);
            let after = merged_all(files.push(FileRead::Read(f)));
            &&& after.token == given_nonempty(f.token, before.token)
            &&& after.rcon_address == given(f.rcon_address, before.rcon_address)
            &&& after.rcon_password == given_nonempty(f.rcon_password, before.rcon_password)
            &&& after.server_address == given(f.server_address, before.server_address)
            &&& after.world_directory == given_option(f.world_directory, before.world_directory)
            &&& after.owner_id == if f.owner_id != 0 {
                f.owner_id
            } else {
                before.owner_id
            }
            &&& after.guild_id == if f.guild_id is Some {
                f.guild_id
            } else {
                before.guild_id
            }
            &&& after.database_path == given_option(f.database_path, before.database_path)
            &&& after.timezone == given(f.timezone, before.timezone)
            &&& after.log_path == f.log_path@
        }),
{
    assert(files.push(FileRead::Read(f)).drop_last() =~= files);
}

/// The variables that say where a user's files lie.
#[derive(Debug)]
pub struct EnvPaths {
    /// `HOME`.
    pub home: Option<String>,
    /// `XDG_CONFIG_HOME`.
    pub xdg_config_home: Option<String>,
    /// `XDG_STATE_HOME`.
    pub xdg_state_home: Option<String>,
}

/// A path and a part below it.
pub open spec fn path_join(base: Seq<char>, part: Seq<char>) -> Seq<char> {
    if base.len() == 0 || base.last() == '/' {
        base + part
    } else {
        base + "/"@ + part
    }
}

/// Appends a part to a path.
pub fn join(base: String, part: &str) -> (r: String)
    ensures
        r@ == path_join(base@, part@),
{
    let mut s = base;
    let n = s.as_str().unicode_len();
    if n > 0 && s.as_str().get_char(n - 1) != '/' {
        s.append("/");
    }
    s.append(part);
    s
}

/// The home directory.
pub open spec fn home_of(env: EnvPaths) -> Seq<char> {
    given(env.home, "/home"@)
}

/// The directory of the user's configuration.
pub open spec fn config_home_of(env: EnvPaths) -> Seq<char> {
    given(env.xdg_config_home, path_join(home_of(env), ".config"@))
}

/// The directory of the user's state.
pub open spec fn state_home_of(env: EnvPaths) -> Seq<char> {
    given(env.xdg_state_home, path_join(path_join(home_of(env), ".local"@), "state"@))
}

/// Where the database lies by default.
pub open spec fn default_db(env: EnvPaths) -> Seq<char> {
    path_join(path_join(state_home_of(env), "vvv"@), "vvv.redb"@)
}

/// The home directory.
pub fn home_dir(env: &EnvPaths) -> (r: String)
    ensures
        r@ == home_of(*env),
{
    or_earlier(&env.home, &"/home".to_owned())
}

/// The directory of the user's configuration.
pub fn xdg_config_home(env: &EnvPaths) -> (r: String)
    ensures
        r@ == config_home_of(*env),
{
    or_earlier(&env.xdg_config_home, &join(home_dir(env), ".config"))
}

/// The directory of the user's state.
pub fn xdg_state_home(env: &EnvPaths) -> (r: String)
    ensures
        r@ == state_home_of(*env),
{
    or_earlier(&env.xdg_state_home, &join(join(home_dir(env), ".local"), "state"))
}

/// The file among the user's configuration.
pub fn xdg_config_path(env: &EnvPaths) -> (r: String)
    ensures
        r@ == path_join(config_home_of(*env), "vvv.toml"@),
{
    join(xdg_config_home(env), "vvv.toml")
}

/// The file in the home directory.
pub fn home_vvv_path(env: &EnvPaths) -> (r: String)
    ensures
        r@ == path_join(home_of(*env), ".vvv.toml"@),
{
    join(home_dir(env), ".vvv.toml")
}

/// The files that the configuration comes from, in order.
pub fn config_paths(env: &EnvPaths) -> (r: Vec<String>)
    ensures
        text::texts(r@) == seq![
            "/etc/vvv.toml"@,
            path_join(config_home_of(*env), "vvv.toml"@),
            path_join(home_of(*env), ".vvv.toml"@),
        ],
{
    let mut v: Vec<String> = Vec::new();
    v.push("/etc/vvv.toml".to_owned());
    v.push(xdg_config_path(env));
    v.push(home_vvv_path(env));
    assert(text::texts(v@) =~= seq![
        "/etc/vvv.toml"@,
        path_join(config_home_of(*env), "vvv.toml"@),
        path_join(home_of(*env), ".vvv.toml"@),
    ]);
    v
}

/// Where the database lies by default: `vvv/vvv.redb` in the directory of the user's state.
pub fn default_db_path(env: &EnvPaths) -> (r: String)
    ensures
        r@ == default_db(*env),
{
    join(join(xdg_state_home(env), "vvv"), "vvv.redb")
}

/// Where the database lies: where the configuration says, or else at the default place.
pub fn resolve_db_path(config: &Config, env: &EnvPaths) -> (r: String)
    ensures
        r@ == match config@.database_path {
            Some(path) => path,
            None => default_db(*env),
        },
{
    match &config.storage.database_path {
        Some(path) => path.clone(),
        None => default_db_path(env),
    }
}

} // verus!
