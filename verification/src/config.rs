//! The settings of the server. Each comes from an environment variable if
//! it is set, else from the configuration file, else it is empty.
use vstd::prelude::*;

verus! {

/// The variable that names the directory of the configuration file.
pub const KEY: &'static str = "SPOTIFY_TOPS_CONFIG_FILE_DIR";
pub const CLIENT_ID_KEY: &'static str = "SPOTIFY_TOPS_CLIENT_ID";
pub const CLIENT_SECRET_KEY: &'static str = "SPOTIFY_TOPS_CLIENT_SECRET";
pub const REDIRECT_HOST_AND_PORT_KEY: &'static str = "SPOTIFY_TOPS_REDIRECT_HOST_AND_PORT";
pub const TEMPLATE_DIR_KEY: &'static str = "SPOTIFY_TOPS_TEMPLATE_DIR";
pub const LISTEN_ADDR_KEY: &'static str = "SPOTIFY_TOPS_LISTEN_ADDR";
pub const LISTEN_PORT_KEY: &'static str = "PORT";
pub const STATIC_DIR_KEY: &'static str = "SPOTIFY_TOPS_STATIC_DIR";
/// The name of the configuration file.
pub const FILE_NAME: &'static str = "spotifytopsconfig.toml";

/// The settings as a source gives them: each one may be missing. The
/// configuration file reads into this; the environment is read into it too.
pub struct DeserializedConfig {
    pub client_id: Option<String>,
    pub client_secret: Option<String>,
    pub redirect_host_and_port: Option<String>,
    pub template_dir: Option<String>,
    pub listen_addr: Option<String>,
    pub listen_port: Option<String>,
    pub static_dir: Option<String>,
}

/// The settings of the server.
pub struct Config {
    pub client_id: String,
    pub client_secret: String,
    pub redirect_host_and_port: String,
    pub template_dir: String,
    pub listen_addr: String,
    pub listen_port: String,
    pub static_dir: String,
}

/// A setting: the environment's value if there is one, else the file's,
/// else the default.
pub open spec fn setting(env: Option<String>, file: Option<String>, default: Seq<char>) -> Seq<char> {
    match env {
        Some(e) => e@,
        None => match file {
            Some(f) => f@,
            None => default,
        },
    }
}

/// A setting: the environment's value if there is one, else the file's,
/// else `default`.
pub fn env_var_deserialized_or_default(
    env_value: Option<String>,
    deserialized: Option<String>,
    default: &str,
) -> (r: String)
    ensures
        r@ == setting(env_value, deserialized, default@),
{
    if let Some(value) = env_value {
        return value;
    }
    if let Some(value) = deserialized {
        return value;
    }
    String::from_str(default)
}

impl DeserializedConfig {
    /// A source that gives no setting.
    pub fn empty() -> (c: Self)
        ensures
            c.client_id is None,
            c.client_secret is None,
            c.redirect_host_and_port is None,
            c.template_dir is None,
            c.listen_addr is None,
            c.listen_port is None,
            c.static_dir is None,
    {
        DeserializedConfig {
            client_id: None,
            client_secret: None,
            redirect_host_and_port: None,
            template_dir: None,
            listen_addr: None,
            listen_port: None,
            static_dir: None,
        }
    }
}

impl Config {
    /// The settings from the values of the environment variables (`env`)
    /// and those of the configuration file (`file`); the default is empty.
    pub fn from_sources(env: DeserializedConfig, file: DeserializedConfig) -> (c: Config)
        ensures
            c.client_id@ == setting(env.client_id, file.client_id, Seq::empty()),
            c.client_secret@ == setting(env.client_secret, file.client_secret, Seq::empty()),
            c.redirect_host_and_port@ == setting(
                env.redirect_host_and_port,
                file.redirect_host_and_port,
                Seq::empty(),
            ),
            c.template_dir@ == setting(env.template_dir, file.template_dir, Seq::empty()),
            c.listen_addr@ == setting(env.listen_addr, file.listen_addr, Seq::empty()),
            c.listen_port@ == setting(env.listen_port, file.listen_port, Seq::empty()),
            c.static_dir@ == setting(env.static_dir, file.static_dir, Seq::empty()),
    {
        proof {
            reveal_strlit("");
        }
        Config {
            client_id: env_var_deserialized_or_default(env.client_id, file.client_id, ""),
            client_secret: env_var_deserialized_or_default(env.client_secret, file.client_secret, ""),
            redirect_host_and_port: env_var_deserialized_or_default(
                env.redirect_host_and_port,
                file.redirect_host_and_port,
                "",
            ),
            template_dir: env_var_deserialized_or_default(env.template_dir, file.template_dir, ""),
            listen_addr: env_var_deserialized_or_default(env.listen_addr, file.listen_addr, ""),
            listen_port: env_var_deserialized_or_default(env.listen_port, file.listen_port, ""),
            static_dir: env_var_deserialized_or_default(env.static_dir, file.static_dir, ""),
        }
    }
}

/// Law: a value set in the environment wins over the file and the default;
/// a value in the file wins over the default.
pub proof fn law_setting_precedence(env: Option<String>, file: Option<String>, default: Seq<char>)
    ensures
        (env matches Some(e) ==> setting(env, file, default) == e@),
        (env is None && file is Some) ==> setting(env, file, default) == file->0@,
        env is None && file is None ==> setting(env, file, default) == default,
{
}

} // verus!
