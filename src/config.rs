use vstd::prelude::*;
use crate::number::{parse_bounded, parse_unsigned};
use crate::text::chars_of;

verus! {

/// Settings of the whole service.
#[derive(Clone, Debug)]
pub struct Config {
    pub admin: AdminConfig,
    pub proxy: ProxyConfig,
    pub auth: AuthConfig,
    pub database: DatabaseConfig,
    pub logging: LoggingConfig,
    pub default_timeout_secs: u64,
}

/// Where the administration interface listens.
#[derive(Clone, Debug)]
pub struct AdminConfig {
    pub host: String,
    pub port: u16,
}

/// Where the proxy listens.
#[derive(Clone, Debug)]
pub struct ProxyConfig {
    pub host: String,
    pub port: u16,
}

/// The administrator's credentials.
#[derive(Clone, Debug)]
pub struct AuthConfig {
    pub username: String,
    pub password: String,
}

/// Where the rule store lives.
#[derive(Clone, Debug)]
pub struct DatabaseConfig {
    pub path: String,
}

/// Where logs go and how long they are kept.
#[derive(Clone, Debug)]
pub struct LoggingConfig {
    pub directory: String,
    pub max_size_bytes: u64,
    pub retention_days: u32,
}

/// A key/value setting of the rule store.
#[derive(Clone, Debug)]
pub struct SystemConfig {
    pub id: i64,
    pub key: String,
    pub value: String,
}

/// Timeout of an upstream call, in seconds, where none is configured.
pub fn default_timeout() -> (r: u64)
    ensures
        r == 30,
{
    30
}

/// Path of the rule store where none is configured.
pub fn default_db_path() -> (r: String)
    ensures
        r@ == "./proxy.db"@,
{
    String::from_str("./proxy.db")
}

/// Settings found in the environment, each as its raw text (`None` where unset).
#[derive(Clone, Debug)]
pub struct EnvOverrides {
    pub admin_host: Option<String>,
    pub admin_port: Option<String>,
    pub proxy_host: Option<String>,
    pub proxy_port: Option<String>,
    pub username: Option<String>,
    pub password: Option<String>,
    pub db_path: Option<String>,
    pub log_dir: Option<String>,
    pub log_max_size: Option<String>,
    pub log_retention_days: Option<String>,
    pub default_timeout: Option<String>,
}

/// A text setting: the environment's value where set.
pub open spec fn text_setting(current: String, found: Option<String>) -> String {
    match found {
        Some(v) => v,
        None => current,
    }
}

/// A numeric setting: the environment's value where set and a valid number
/// not above `max`; the current one otherwise.
pub open spec fn number_setting(current: nat, found: Option<String>, max: nat) -> nat {
    match found {
        Some(v) => match parse_unsigned(v@, max) {
            Some(n) => n,
            None => current,
        },
        None => current,
    }
}

fn take_text(current: &mut String, found: &Option<String>)
    ensures
        *final(current) == text_setting(*old(current), *found),
{
    match found {
        Some(v) => {
            *current = v.clone();
        },
        None => {},
    }
}

fn take_number(current: u64, found: &Option<String>, max: u64) -> (r: u64)
    requires
        current <= max,
    ensures
        r as nat == number_setting(current as nat, *found, max as nat),
        r <= max,
{
    match found {
        Some(v) => {
            let c = chars_of(v.as_str());
            match parse_bounded(&c, max) {
                Some(n) => n,
                None => current,
            }
        },
        None => current,
    }
}

impl Config {
    /// Lets the environment override the settings read from the file. A
    /// number that does not parse, or does not fit, leaves its setting as it was.
    pub fn apply_env_overrides(&mut self, env: &EnvOverrides)
        ensures
            final(self).admin.host == text_setting(old(self).admin.host, env.admin_host),
            final(self).admin.port as nat == number_setting(old(self).admin.port as nat, env.admin_port, u16::MAX as nat),
            final(self).proxy.host == text_setting(old(self).proxy.host, env.proxy_host),
            final(self).proxy.port as nat == number_setting(old(self).proxy.port as nat, env.proxy_port, u16::MAX as nat),
            final(self).auth.username == text_setting(old(self).auth.username, env.username),
            final(self).auth.password == text_setting(old(self).auth.password, env.password),
            final(self).database.path == text_setting(old(self).database.path, env.db_path),
            final(self).logging.directory == text_setting(old(self).logging.directory, env.log_dir),
            final(self).logging.max_size_bytes as nat == number_setting(
                old(self).logging.max_size_bytes as nat,
                env.log_max_size,
                u64::MAX as nat,
            ),
            final(self).logging.retention_days as nat == number_setting(
                old(self).logging.retention_days as nat,
                env.log_retention_days,
                u32::MAX as nat,
            ),
            final(self).default_timeout_secs as nat == number_setting(
                old(self).default_timeout_secs as nat,
                env.default_timeout,
                u64::MAX as nat,
            ),
    {
        take_text(&mut self.admin.host, &env.admin_host);
        self.admin.port = take_number(self.admin.port as u64, &env.admin_port, 65535) as u16;
        take_text(&mut self.proxy.host, &env.proxy_host);
        self.proxy.port = take_number(self.proxy.port as u64, &env.proxy_port, 65535) as u16;
        take_text(&mut self.auth.username, &env.username);
        take_text(&mut self.auth.password, &env.password);
        take_text(&mut self.database.path, &env.db_path);
        take_text(&mut self.logging.directory, &env.log_dir);
        self.logging.max_size_bytes = take_number(
            self.logging.max_size_bytes,
            &env.log_max_size,
            18446744073709551615,
        );
        self.logging.retention_days = take_number(
            self.logging.retention_days as u64,
            &env.log_retention_days,
            4294967295,
        ) as u32;
        self.default_timeout_secs = take_number(
            self.default_timeout_secs,
            &env.default_timeout,
            18446744073709551615,
        );
    }
}

} // verus!
