use portfu::runtime::{parse_u16, user_roles, Config, ConfigEnv, DatabaseType};

#[test]
fn database_type_names_in_any_case() {
    assert_eq!(DatabaseType::parse("mysql"), Some(DatabaseType::Mysql));
    assert_eq!(DatabaseType::parse("PostGres"), Some(DatabaseType::Postgres));
    assert_eq!(DatabaseType::parse("sqlite"), None);
    assert_eq!("MYSQL".parse::<DatabaseType>(), Ok(DatabaseType::Mysql));
    assert_eq!("oracle".parse::<DatabaseType>(), Err(()));
}

#[test]
fn database_type_of_url_by_scheme() {
    assert_eq!(DatabaseType::of_url("mysql://db/app"), Some(DatabaseType::Mysql));
    assert_eq!(DatabaseType::of_url("postgres://db/app"), Some(DatabaseType::Postgres));
    assert_eq!(DatabaseType::of_url("postgresql://db/app"), None);
    assert_eq!(DatabaseType::of_url("MYSQL://db"), None);
}

#[test]
fn parse_u16_follows_std() {
    assert_eq!(parse_u16("8080"), Some(8080));
    assert_eq!(parse_u16("+80"), Some(80));
    assert_eq!(parse_u16("007"), Some(7));
    assert_eq!(parse_u16("65535"), Some(65535));
    assert_eq!(parse_u16("65536"), None);
    assert_eq!(parse_u16("99999999999999999999"), None);
    assert_eq!(parse_u16(""), None);
    assert_eq!(parse_u16("+"), None);
    assert_eq!(parse_u16("-1"), None);
    assert_eq!(parse_u16("12a"), None);
    assert_eq!(parse_u16(" 1"), None);
    for s in ["0", "1", "443", "+0", "01234", "60000"] {
        assert_eq!(parse_u16(s), s.parse::<u16>().ok());
    }
}

#[test]
fn config_default() {
    let config = Config::default();
    assert_eq!(config.hostname, "localhost");
    assert_eq!(config.port, 8080);
    assert_eq!(config.database_url, None);
    assert_eq!(config.database_type, None);
    assert!(config.directories.is_empty());
    assert_eq!(config.oauth_settings, None);
}

#[test]
fn config_from_empty_env_is_default() {
    assert_eq!(Config::from_env(ConfigEnv::default()), Config::default());
}

#[test]
fn config_from_env_reads_every_setting() {
    let env = ConfigEnv {
        hostname: Some("example.test".to_string()),
        port: Some("9000".to_string()),
        database_url: Some("postgres://db/app".to_string()),
        directories: Some("/srv/a,/srv/b".to_string()),
        oauth_client_id: Some("id".to_string()),
        oauth_client_secret: Some("secret".to_string()),
        oauth_auth_url: Some("https://auth".to_string()),
        oauth_token_url: Some("https://token".to_string()),
        oauth_redirect_url: Some("https://back".to_string()),
        user_roles: Some("alice:admin,bob,carol:a:b".to_string()),
    };
    let config = Config::from_env(env);
    assert_eq!(config.hostname, "example.test");
    assert_eq!(config.port, 9000);
    assert_eq!(config.database_type, Some(DatabaseType::Postgres));
    assert_eq!(config.directories, vec!["/srv/a".to_string(), "/srv/b".to_string()]);
    let oauth = config.oauth_settings.expect("all OAuth variables are set");
    assert_eq!(oauth.client_id, "id");
    assert_eq!(oauth.redirect_url, "https://back");
    assert_eq!(
        oauth.user_roles,
        vec![
            ("alice".to_string(), Some("admin".to_string())),
            ("bob".to_string(), None),
            ("carol:a:b".to_string(), None),
        ]
    );
}

#[test]
fn config_from_env_bad_port_and_partial_oauth() {
    let env = ConfigEnv {
        port: Some("eighty".to_string()),
        directories: Some(String::new()),
        oauth_client_id: Some("id".to_string()),
        ..ConfigEnv::default()
    };
    let config = Config::from_env(env);
    assert_eq!(config.port, 8080);
    assert_eq!(config.directories, vec![String::new()]);
    assert_eq!(config.oauth_settings, None);
}

#[test]
fn user_roles_split_entries() {
    assert_eq!(user_roles("x:y"), vec![("x".to_string(), Some("y".to_string()))]);
    assert_eq!(user_roles(""), vec![(String::new(), None)]);
}
