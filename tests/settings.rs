use route_proxy::config::{
    AdminConfig, AuthConfig, Config, DatabaseConfig, EnvOverrides, LoggingConfig, ProxyConfig,
};

fn base() -> Config {
    Config {
        admin: AdminConfig { host: "127.0.0.1".to_string(), port: 8080 },
        proxy: ProxyConfig { host: "0.0.0.0".to_string(), port: 3000 },
        auth: AuthConfig { username: "admin".to_string(), password: "pw".to_string() },
        database: DatabaseConfig { path: "./proxy.db".to_string() },
        logging: LoggingConfig { directory: "logs".to_string(), max_size_bytes: 1000, retention_days: 7 },
        default_timeout_secs: 30,
    }
}

fn none() -> EnvOverrides {
    EnvOverrides {
        admin_host: None,
        admin_port: None,
        proxy_host: None,
        proxy_port: None,
        username: None,
        password: None,
        db_path: None,
        log_dir: None,
        log_max_size: None,
        log_retention_days: None,
        default_timeout: None,
    }
}

#[test]
fn env_overrides_replace_settings() {
    let mut c = base();
    let mut env = none();
    env.admin_host = Some("10.0.0.1".to_string());
    env.proxy_port = Some("+8081".to_string());
    env.password = Some("s3cret".to_string());
    env.log_max_size = Some("18446744073709551615".to_string());
    env.log_retention_days = Some("30".to_string());
    env.default_timeout = Some("5".to_string());
    c.apply_env_overrides(&env);
    assert_eq!(c.admin.host, "10.0.0.1");
    assert_eq!(c.admin.port, 8080);
    assert_eq!(c.proxy.port, 8081);
    assert_eq!(c.auth.password, "s3cret");
    assert_eq!(c.auth.username, "admin");
    assert_eq!(c.logging.max_size_bytes, u64::MAX);
    assert_eq!(c.logging.retention_days, 30);
    assert_eq!(c.default_timeout_secs, 5);
}

#[test]
fn bad_numbers_leave_settings_alone() {
    let mut c = base();
    let mut env = none();
    env.admin_port = Some("65536".to_string());
    env.proxy_port = Some("-1".to_string());
    env.log_retention_days = Some("".to_string());
    env.default_timeout = Some(" 5".to_string());
    c.apply_env_overrides(&env);
    assert_eq!(c.admin.port, 8080);
    assert_eq!(c.proxy.port, 3000);
    assert_eq!(c.logging.retention_days, 7);
    assert_eq!(c.default_timeout_secs, 30);
}
