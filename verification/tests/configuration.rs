use zero_to_prod::configuration::{
    merge_settings, ConfigError, DatabaseSettings, PartialSettings, Secret, Settings, SslMode,
};

fn expect_ok(merged: Result<Settings, ConfigError>) -> Settings {
    match merged {
        Ok(settings) => settings,
        Err(_) => panic!("the merge was expected to succeed"),
    }
}

fn empty_source() -> PartialSettings {
    PartialSettings {
        db_username: None,
        db_password: None,
        db_port: None,
        db_host: None,
        db_database_name: None,
        db_require_ssl: None,
        app_port: None,
        app_host: None,
    }
}

fn full_source(tag: &str, port: u16) -> PartialSettings {
    PartialSettings {
        db_username: Some(format!("{tag}-user")),
        db_password: Some(format!("{tag}-SECRET-REDACTED")),
        db_port: Some(port),
        db_host: Some(format!("{tag}-db-host")),
        db_database_name: Some(format!("{tag}-db")),
        db_require_ssl: Some(false),
        app_port: Some(port),
        app_host: Some(format!("{tag}-app-host")),
    }
}

fn settings(require_ssl: bool) -> DatabaseSettings {
    DatabaseSettings {
        username: "postgres".to_string(),
        password: Secret::new("SECRET-REDACTED".to_string()),
        port: 5432,
        host: "localhost".to_string(),
        database_name: "newsletter".to_string(),
        require_ssl,
    }
}

#[test]
fn merge_takes_the_base_when_nothing_overrides() {
    let merged = expect_ok(merge_settings(full_source("base", 1000), empty_source(), empty_source()));
    assert_eq!(merged.database.username, "base-user");
    assert_eq!(merged.database.port, 1000);
    assert_eq!(merged.application.host, "base-app-host");
}

#[test]
fn merge_prefers_the_override_file_to_the_base() {
    let merged = expect_ok(merge_settings(
        full_source("base", 1000),
        full_source("local", 2000),
        empty_source(),
    ));
    assert_eq!(merged.database.username, "local-user");
    assert_eq!(merged.database.port, 2000);
}

#[test]
fn merge_prefers_the_environment_to_both_files() {
    let mut env = empty_source();
    env.app_port = Some(5001);
    let merged = expect_ok(merge_settings(full_source("base", 1000), full_source("local", 2000), env));
    assert_eq!(merged.application.port, 5001);
    assert_eq!(merged.application.host, "local-app-host");
    assert_eq!(merged.database.username, "local-user");
}

#[test]
fn merge_fills_each_leaf_independently() {
    let mut base = full_source("base", 1000);
    base.db_host = None;
    let mut file = empty_source();
    file.db_host = Some("file-db-host".to_string());
    let merged = expect_ok(merge_settings(base, file, empty_source()));
    assert_eq!(merged.database.host, "file-db-host");
    assert_eq!(merged.database.username, "base-user");
}

#[test]
fn merge_fails_when_a_leaf_is_supplied_nowhere() {
    let mut base = full_source("base", 1000);
    base.db_password = None;
    let merged = merge_settings(base, empty_source(), empty_source());
    assert!(matches!(merged, Err(ConfigError::MissingField)));
    assert!(merge_settings(empty_source(), empty_source(), empty_source()).is_err());
}

#[test]
fn without_db_names_no_database() {
    let options = settings(false).without_db();
    assert!(options.database.is_none());
    assert_eq!(options.host, "localhost");
    assert_eq!(options.port, 5432);
    assert_eq!(options.username, "postgres");
    assert_eq!(options.password.expose_secret(), "SECRET-REDACTED");
}

#[test]
fn with_db_names_the_configured_database() {
    let options = settings(false).with_db();
    assert_eq!(options.database.as_deref(), Some("newsletter"));
    assert_eq!(options.host, "localhost");
}

#[test]
fn ssl_is_mandatory_exactly_when_required() {
    assert!(matches!(settings(true).with_db().ssl_mode, SslMode::Require));
    assert!(matches!(settings(false).with_db().ssl_mode, SslMode::Prefer));
    assert!(matches!(settings(true).without_db().ssl_mode, SslMode::Require));
    assert!(matches!(settings(false).without_db().ssl_mode, SslMode::Prefer));
}
