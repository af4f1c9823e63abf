//! What holds of the configuration.

use crate::consts;
use crate::consts::{Config, ConfigError, EnvConfig, EnvPaths, FileConfig, FileRead};
use crate::text;
use vstd::prelude::*;
use vstd::string::*;

verus! {

/// A file gives what it sets: its texts, where it has them, take the place of the earlier ones, the
/// token and the password unless they are empty, the owner unless it is 0, and the path of the log
/// always; what it does not set stays.
pub proof fn law_files_give_what_they_set(c: &mut Config, f: &FileConfig, r: ())
    requires
        call_ensures(Config::merge_into, (c, f), r),
    ensures
        ({
            let was = old(c)@;
            let then = final(c)@;
            &&& f.token@.len() > 0 ==> then.token == f.token@
            &&& f.token@.len() == 0 ==> then.token == was.token
            &&& f.rcon_password@.len() > 0 ==> then.rcon_password == f.rcon_password@
            &&& f.rcon_password@.len() == 0 ==> then.rcon_password == was.rcon_password
            &&& f.rcon_address matches Some(s) ==> then.rcon_address == s@
            &&& f.rcon_address is None ==> then.rcon_address == was.rcon_address
            &&& f.server_address matches Some(s) ==> then.server_address == s@
            &&& f.server_address is None ==> then.server_address == was.server_address
            &&& f.world_directory matches Some(s) ==> then.world_directory == Some(s@)
            &&& f.world_directory is None ==> then.world_directory == was.world_directory
            &&& f.database_path matches Some(s) ==> then.database_path == Some(s@)
            &&& f.database_path is None ==> then.database_path == was.database_path
            &&& f.timezone matches Some(s) ==> then.timezone == s@
            &&& f.timezone is None ==> then.timezone == was.timezone
            &&& f.owner_id != 0 ==> then.owner_id == f.owner_id
            &&& f.owner_id == 0 ==> then.owner_id == was.owner_id
            &&& f.guild_id is Some ==> then.guild_id == f.guild_id
            &&& f.guild_id is None ==> then.guild_id == was.guild_id
            &&& then.log_path == f.log_path@
        }),
{
}

/// The environment gives what is set there, by the variable's name or else by its old name; what is
/// not set stays, and so does a number where what is set is none.
pub proof fn law_the_environment_gives_what_is_set(c: &mut Config, e: &EnvConfig, r: ())
    requires
        call_ensures(Config::overlay_env, (c, e), r),
    ensures
        ({
            let was = old(c)@;
            let then = final(c)@;
            &&& e.token matches Some(s) ==> then.token == s@
            &&& e.token is None ==> (e.old_token matches Some(s) ==> then.token == s@)
            &&& e.token is None && e.old_token is None ==> then.token == was.token
            &&& e.log_path matches Some(s) ==> then.log_path == s@
            &&& e.log_path is None ==> (e.old_log_path matches Some(s) ==> then.log_path == s@)
            &&& e.log_path is None && e.old_log_path is None ==> then.log_path == was.log_path
            &&& e.rcon_address matches Some(s) ==> then.rcon_address == s@
            &&& e.rcon_address is None ==> (e.old_rcon_address matches Some(s)
                ==> then.rcon_address == s@)
            &&& e.rcon_address is None && e.old_rcon_address is None ==> then.rcon_address
                == was.rcon_address
            &&& e.rcon_password matches Some(s) ==> then.rcon_password == s@
            &&& e.rcon_password is None ==> (e.old_rcon_password matches Some(s)
                ==> then.rcon_password == s@)
            &&& e.rcon_password is None && e.old_rcon_password is None ==> then.rcon_password
                == was.rcon_password
            &&& e.server_address matches Some(s) ==> then.server_address == s@
            &&& e.server_address is None ==> (e.old_server_address matches Some(s)
                ==> then.server_address == s@)
            &&& e.server_address is None && e.old_server_address is None ==> then.server_address
                == was.server_address
            &&& e.world_directory matches Some(s) ==> then.world_directory == Some(s@)
            &&& e.world_directory is None ==> then.world_directory == was.world_directory
            &&& e.database_path matches Some(s) ==> then.database_path == Some(s@)
            &&& e.database_path is None ==> then.database_path == was.database_path
            &&& e.timezone matches Some(s) ==> then.timezone == s@
            &&& e.timezone is None ==> then.timezone == was.timezone
            &&& e.owner_id is None ==> then.owner_id == was.owner_id
            &&& e.guild_id is None ==> then.guild_id == was.guild_id
        }),
{
}

/// A number in the environment is read.
pub proof fn law_numbers_of_the_environment_are_read(
    c: &mut Config,
    e: &EnvConfig,
    r: (),
    owner: String,
    guild: String,
    n: u64,
    g: u64,
)
    requires
        call_ensures(Config::overlay_env, (c, e), r),
        e.owner_id == Some(owner),
        e.guild_id == Some(guild),
        owner@ == text::dec(n as nat),
        guild@ == text::dec(g as nat),
    ensures
        final(c)@.owner_id == n,
        final(c)@.guild_id == Some(g),
{
    crate::text_laws::lemma_dec_digits(n as nat);
    crate::text_laws::lemma_dec_digits(g as nat);
    text::lemma_dec_reads_back(n as nat, u64::MAX as nat);
    text::lemma_dec_reads_back(g as nat, u64::MAX as nat);
    assert(owner@[0] != '+');
    assert(guild@[0] != '+');
}

/// Before any source is read there is no token, no log, no password and no owner, and the server is
/// this machine; the days are those of UTC.
pub proof fn law_defaults(c: Config)
    requires
        call_ensures(Config::empty, (), c),
    ensures
        c@.token.len() == 0,
        c@.log_path.len() == 0,
        c@.rcon_password.len() == 0,
        c@.owner_id == 0,
        c@.guild_id is None,
        c@.world_directory is None,
        c@.database_path is None,
        c@.rcon_address == "localhost:25575"@,
        c@.server_address == "localhost:25565"@,
        c@.timezone == "UTC"@,
{
    reveal_strlit("");
}

/// A configuration is taken exactly where it has a token, a log, a password and an owner; otherwise
/// the first of these that is missing is named.
pub proof fn law_missing_fields_are_named(c: &Config, r: Result<(), ConfigError>)
    requires
        call_ensures(Config::validate, (c,), r),
    ensures
        r is Ok <==> c@.token.len() > 0 && c@.log_path.len() > 0 && c@.rcon_password.len() > 0
            && c@.owner_id != 0,
        r matches Err(e) ==> (e matches ConfigError::MissingField(field) && field@
            == if c@.token.len() == 0 {
            "discord.token / VVV_DISCORD_TOKEN"@
        } else if c@.log_path.len() == 0 {
            "log.path / VVV_LOG_PATH"@
        } else if c@.rcon_password.len() == 0 {
            "rcon.password / VVV_RCON_PASSWORD"@
        } else {
            "bot.owner_id / VVV_OWNER_ID"@
        }),
{
}

/// The files come in their order: those that are not there are passed over, and a file more is merged
/// into what came before.
pub proof fn law_files_are_taken_in_order(files: Seq<FileRead>, f: FileConfig)
    ensures
        consts::merged_all(Seq::empty()) == consts::empty_config(),
        consts::merged_all(files.push(FileRead::Missing)) == consts::merged_all(files),
        consts::merged_all(files.push(FileRead::Read(f))) == consts::merged(
            consts::merged_all(files),
            f,
        ),
{
    assert(files.push(FileRead::Missing).drop_last() =~= files);
    assert(files.push(FileRead::Read(f)).drop_last() =~= files);
}

/// The files of the configuration are that of the machine, that of the user, and that in the home
/// directory, in this order.
pub proof fn law_configuration_files_have_their_places(
    env: &EnvPaths,
    r: Vec<String>,
    home: String,
)
    requires
        call_ensures(consts::config_paths, (env,), r),
        env.home == Some(home),
        env.xdg_config_home is None,
        home@.len() > 0,
        home@.last() != '/',
    ensures
        r@.len() == 3,
        r@[0]@ == "/etc/vvv.toml"@,
        r@[1]@ == home@ + "/.config/vvv.toml"@,
        r@[2]@ == home@ + "/.vvv.toml"@,
{
    reveal_strlit("/");
    reveal_strlit(".config");
    reveal_strlit("vvv.toml");
    reveal_strlit(".vvv.toml");
    reveal_strlit("/.config/vvv.toml");
    reveal_strlit("/.vvv.toml");
    let t = text::texts(r@);
    assert(t.len() == r@.len());
    assert(t[0] == r@[0]@ && t[1] == r@[1]@ && t[2] == r@[2]@);
    assert((home@ + "/"@ + ".config"@).last() == 'g');
    assert("/.config/vvv.toml"@ =~= "/"@ + ".config"@ + "/"@ + "vvv.toml"@);
    assert("/.vvv.toml"@ =~= "/"@ + ".vvv.toml"@);
    assert(r@[1]@ =~= home@ + "/.config/vvv.toml"@);
    assert(r@[2]@ =~= home@ + "/.vvv.toml"@);
}

/// The database lies where the configuration says, or else among the state of the user.
pub proof fn law_the_database_has_its_place(
    config: &Config,
    env: &EnvPaths,
    r: String,
    home: String,
)
    requires
        call_ensures(consts::resolve_db_path, (config, env), r),
        env.home == Some(home),
        env.xdg_state_home is None,
        home@.len() > 0,
        home@.last() != '/',
    ensures
        config@.database_path matches Some(path) ==> r@ == path,
        config@.database_path is None ==> r@ == home@ + "/.local/state/vvv/vvv.redb"@,
{
    reveal_strlit("/");
    reveal_strlit(".local");
    reveal_strlit("state");
    reveal_strlit("vvv");
    reveal_strlit("vvv.redb");
    reveal_strlit("/.local/state/vvv/vvv.redb");
    let a = home@ + "/"@ + ".local"@;
    assert(a.last() == 'l');
    let b = a + "/"@ + "state"@;
    assert(b.last() == 'e');
    let c = b + "/"@ + "vvv"@;
    assert(c.last() == 'v');
    assert("/.local/state/vvv/vvv.redb"@ =~= "/"@ + ".local"@ + "/"@ + "state"@ + "/"@ + "vvv"@ + "/"@
        + "vvv.redb"@);
    assert(c + "/"@ + "vvv.redb"@ =~= home@ + "/.local/state/vvv/vvv.redb"@);
}

/// Loading fails exactly where a file cannot be read or a field is missing. What the environment sets
/// counts, whatever the files set; otherwise the last file that is there gives the path of the log.
pub proof fn law_loading_puts_the_sources_together(
    files: Vec<FileRead>,
    env: &EnvConfig,
    r: Result<Config, ConfigError>,
)
    requires
        call_ensures(Config::load, (files, env), r),
    ensures
        (exists|i: int| 0 <= i < files@.len() && #[trigger] files@[i] is Failed) ==> r is Err,
        r matches Ok(c) ==> {
            &&& c@.token.len() > 0 && c@.log_path.len() > 0 && c@.rcon_password.len() > 0
                && c@.owner_id != 0
            &&& env.token matches Some(s) ==> c@.token == s@
            &&& env.log_path matches Some(s) ==> c@.log_path == s@
            &&& env.rcon_address matches Some(s) ==> c@.rcon_address == s@
            &&& env.rcon_password matches Some(s) ==> c@.rcon_password == s@
            &&& env.server_address matches Some(s) ==> c@.server_address == s@
            &&& env.world_directory matches Some(s) ==> c@.world_directory == Some(s@)
            &&& env.database_path matches Some(s) ==> c@.database_path == Some(s@)
            &&& env.timezone matches Some(s) ==> c@.timezone == s@
            &&& files@.len() > 0 && env.log_path is None && env.old_log_path is None ==> (
            files@.last() matches FileRead::Read(f) ==> c@.log_path == f.log_path@)
            &&& files@.len() > 0 && env.timezone is None ==> (files@.last() matches FileRead::Read(
                f,
            ) ==> (f.timezone matches Some(s) ==> c@.timezone == s@))
        },
{
}

/// Where the environment names the directories of the user's configuration and state, the files lie
/// there.
pub proof fn law_named_directories_are_taken(
    env: &EnvPaths,
    config: String,
    state: String,
    file: String,
    database: String,
)
    requires
        call_ensures(consts::xdg_config_path, (env,), file),
        call_ensures(consts::default_db_path, (env,), database),
        env.xdg_config_home == Some(config),
        env.xdg_state_home == Some(state),
        config@.len() > 0,
        config@.last() != '/',
        state@.len() > 0,
        state@.last() != '/',
    ensures
        file@ == config@ + "/vvv.toml"@,
        database@ == state@ + "/vvv/vvv.redb"@,
{
    reveal_strlit("/");
    reveal_strlit("vvv");
    reveal_strlit("vvv.toml");
    reveal_strlit("vvv.redb");
    reveal_strlit("/vvv.toml");
    reveal_strlit("/vvv/vvv.redb");
    assert("/vvv.toml"@ =~= "/"@ + "vvv.toml"@);
    assert("/vvv/vvv.redb"@ =~= "/"@ + "vvv"@ + "/"@ + "vvv.redb"@);
    assert((state@ + "/"@ + "vvv"@).last() == 'v');
    assert(file@ =~= config@ + "/vvv.toml"@);
    assert(database@ =~= state@ + "/vvv/vvv.redb"@);
}

/// What went wrong with the configuration is said after what it was, with the file.
pub proof fn law_errors_name_the_file(e: &ConfigError, r: String)
    requires
        call_ensures(ConfigError::message, (e,), r),
    ensures
        match *e {
            ConfigError::MissingField(field) => r@
                == "required field missing from all config sources: "@ + field@,
            ConfigError::ReadFile { path, source } => r@ == "failed to read config file `"@ + path@
                + "`: "@ + source@,
            ConfigError::ParseToml { path, source } => r@ == "invalid TOML in `"@ + path@ + "`: "@
                + source@,
        },
{
}

} // verus!
