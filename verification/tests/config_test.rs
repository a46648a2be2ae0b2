use juicehost::ban::{
    bans_configured, refresh_interval, snapshot_url, sync_from_backend, BanSnapshot,
    SnapshotAnswer,
};
use juicehost::config::env::{bounded_count, bounded_env, env_bool, Environment};
use juicehost::config::error::ConfigError;
use juicehost::config::feature::{ParsedTtl, TtlTexts};
use juicehost::config::limits::min_free_space_fits;
use juicehost::config::port::ConfigPort;
use juicehost::config::security::{danger_level_text, trusted_proxies_text, DangerLevel};
use juicehost::config::Config;
use juicehost::handlers::json::{JsonField, JsonPayload};
use juicehost::startup::{min_free_gib, s3_backend, sentry_dsn, sentry_environment};
use juicehost::state::AppState;

fn env(vars: &[(&str, &str)]) -> Environment {
    Environment {
        vars: vars
            .iter()
            .map(|(name, value)| (name.to_string(), value.to_string()))
            .collect(),
    }
}

fn hours(text: &str) -> Result<u64, String> {
    text.parse::<f64>()
        .map(|hours| hours.to_bits())
        .map_err(|e| e.to_string())
}

fn load(vars: &[(&str, &str)]) -> Result<Config, ConfigError> {
    let env = env(vars);
    assert!(min_free_space_fits(&env));
    let texts = TtlTexts::from_env(&env);
    let ttl = ParsedTtl {
        allowed: texts.allowed.iter().map(|text| hours(text)).collect(),
        default: texts.default.map(|text| hours(&text)),
    };
    Config::from_env(&env, DangerLevel::High, Ok(()), ttl)
}

#[test]
fn config_missing_api_key_is_optional() {
    let result = load(&[]);
    assert!(result.is_ok());
    assert!(result.unwrap().api_key.is_empty());
}

#[test]
fn config_whitespace_api_key_becomes_empty() {
    let result = load(&[("JUICEHOST_API_KEY", "   ")]);
    assert!(result.is_ok());
    assert!(result.unwrap().api_key.is_empty());
}

#[test]
fn config_bounded_env_rejects_invalid_and_out_of_range_values() {
    const NAME: &str = "JUICEHOST_TEST_BOUNDED_ENV";
    assert!(bounded_env(&env(&[(NAME, "not-a-number")]), NAME, 5, 1, 10).is_err());
    assert!(bounded_env(&env(&[(NAME, "0")]), NAME, 5, 1, 10).is_err());
    assert!(bounded_env(&env(&[(NAME, "11")]), NAME, 5, 1, 10).is_err());
    assert_eq!(bounded_env(&env(&[(NAME, "10")]), NAME, 5, 1, 10).unwrap(), 10);
}

#[test]
fn mod_missing_api_key_is_optional() {
    let config = load(&[]).unwrap();
    assert!(config.api_key.is_empty());
    assert_eq!(config.public_host, "127.0.0.1");
    assert_eq!(config.public_port, 6402);
    assert_eq!(config.quic_host, "127.0.0.1");
    assert_eq!(config.quic_port, 6403);
    assert_eq!(config.quic_cert_path.as_deref(), Some("./quic-cert.der"));
    assert_eq!(config.worker_threads, 3);
    assert_eq!(config.files_dir, "./files");
    assert_eq!(config.min_free_space_bytes, 5 * 1024 * 1024 * 1024);
    assert_eq!(config.max_file_size_bytes, 500 * 1024 * 1024);
    assert_eq!(config.max_range_response_bytes, 16 * 1024 * 1024);
    assert_eq!(config.max_concat_parts, 128);
    assert_eq!(config.tcp_request_total_seconds, 600);
    assert_eq!(config.default_ttl_hours, 24.0f64.to_bits());
    assert_eq!(config.allowed_ttl_hours.len(), 7);
    assert_eq!(config.allowed_ttl_hours[0], 0.5f64.to_bits());
    assert!(config.quick_link && config.custom_id);
    assert!(!config.is_s3_mode());
    assert!(config.allowed_origins.is_empty());
    assert_eq!(config.ban_sync_interval, 30);
    assert_eq!(config.ticket_jwt_secret, "");
}

#[test]
fn mod_whitespace_api_key_becomes_empty() {
    let config = load(&[("JUICEHOST_API_KEY", "   ")]).unwrap();
    assert!(config.api_key.is_empty());
    let config = load(&[("JUICEHOST_API_KEY", " key\n")]).unwrap();
    assert_eq!(config.api_key, "key");
    assert_eq!(config.ticket_jwt_secret, "key");
    let config = load(&[("JUICEHOST_API_KEY", "key"), ("JWT_SECRET", "jwt")]).unwrap();
    assert_eq!(config.ticket_jwt_secret, "jwt");
    let config = load(&[("TICKET_JWT_SECRET", "t"), ("JWT_SECRET", "jwt")]).unwrap();
    assert_eq!(config.ticket_jwt_secret, "t");
}

#[test]
fn mod_bounded_env_rejects_invalid_and_out_of_range_values() {
    const NAME: &str = "JUICEHOST_TEST_BOUNDED_ENV";
    assert_eq!(
        bounded_count(&env(&[(NAME, "not-a-number")]), NAME, 5, 1, 10),
        Err(ConfigError::InvalidNumber { name: NAME })
    );
    for text in ["0", "11"] {
        assert_eq!(
            bounded_count(&env(&[(NAME, text)]), NAME, 5, 1, 10),
            Err(ConfigError::OutOfRange {
                name: NAME,
                min: "1".to_owned(),
                max: "10".to_owned()
            })
        );
    }
    assert_eq!(bounded_count(&env(&[(NAME, "10")]), NAME, 5, 1, 10).unwrap(), 10);
    assert_eq!(bounded_count(&env(&[]), NAME, 5, 1, 10).unwrap(), 5);
}

#[test]
fn booleans() {
    const NAME: &str = "FLAG";
    assert_eq!(env_bool(&env(&[(NAME, " TRUE ")]), NAME, false), Ok(true));
    assert_eq!(env_bool(&env(&[(NAME, "1")]), NAME, false), Ok(true));
    assert_eq!(env_bool(&env(&[(NAME, "False")]), NAME, true), Ok(false));
    assert_eq!(env_bool(&env(&[(NAME, "0")]), NAME, true), Ok(false));
    assert_eq!(env_bool(&env(&[]), NAME, true), Ok(true));
    assert_eq!(
        env_bool(&env(&[(NAME, "yes")]), NAME, true),
        Err(ConfigError::InvalidBoolean { name: NAME })
    );
}

#[test]
fn ports() {
    let config = load(&[("PUBLIC_PORT", "80")]).unwrap();
    assert_eq!((config.public_port, config.quic_port), (80, 81));
    let config = load(&[("PUBLIC_PORT", "65535"), ("QUIC_PORT", "7")]).unwrap();
    assert_eq!((config.public_port, config.quic_port), (65535, 7));
    assert_eq!(
        load(&[("PUBLIC_PORT", "65535")]),
        Err(ConfigError::MissingQuicPort)
    );
    assert_eq!(
        load(&[("PUBLIC_PORT", "65536")]),
        Err(ConfigError::InvalidPort {
            port: ConfigPort::Public
        })
    );
    assert_eq!(
        load(&[("QUIC_PORT", "x")]),
        Err(ConfigError::invalid_quic_port())
    );
}

#[test]
fn urls_and_origins() {
    let config = load(&[
        ("BACKEND_URL", "https://back//"),
        ("FRONTEND_URL", " none "),
        ("BAN_SYNC_URL", "https://bans/"),
    ])
    .unwrap();
    assert_eq!(config.backend_url.as_deref(), Some("https://back"));
    assert_eq!(config.frontend_url, None);
    assert_eq!(config.allowed_origins, vec!["https://back".to_owned()]);
    assert_eq!(config.ban_sync_url.as_deref(), Some("https://bans"));
    let config = load(&[
        ("BACKEND_URL", "https://back"),
        ("ALLOWED_ORIGINS", " a , ,b"),
    ])
    .unwrap();
    assert_eq!(
        config.allowed_origins,
        vec!["a".to_owned(), "b".to_owned()]
    );
}

#[test]
fn limits() {
    let config = load(&[("MAX_FILE_SIZE_MB", "1"), ("MIN_FREE_SPACE_GB", "x")]).unwrap();
    assert_eq!(config.max_file_size_bytes, 1024 * 1024);
    assert_eq!(config.min_free_space_bytes, 5 * 1024 * 1024 * 1024);
    assert_eq!(min_free_gib(&config), 5);
    assert!(load(&[("MAX_FILE_SIZE_MB", "1048577")]).is_err());
    assert!(load(&[("MAX_FILE_SIZE_MB", "1048576")]).is_ok());
    assert!(load(&[("WORKER_THREADS", "0")]).is_err());
    assert!(!min_free_space_fits(&env(&[("MIN_FREE_SPACE_GB", "17179869184")])));
    assert!(min_free_space_fits(&env(&[("MIN_FREE_SPACE_GB", "17179869183")])));
}

#[test]
fn ttls() {
    let texts = TtlTexts::from_env(&env(&[("ALLOWED_TTL_HOURS", " 1 ,2")]));
    assert_eq!(texts.allowed, vec!["1".to_owned(), "2".to_owned()]);
    let config = load(&[("ALLOWED_TTL_HOURS", " 1 ,2"), ("DEFAULT_TTL_HOURS", "2.0")]).unwrap();
    assert_eq!(config.default_ttl_hours, 2.0f64.to_bits());
    for vars in [
        [("ALLOWED_TTL_HOURS", "1,2"), ("DEFAULT_TTL_HOURS", "3")],
        [("ALLOWED_TTL_HOURS", "-1,3"), ("DEFAULT_TTL_HOURS", "3")],
        [("ALLOWED_TTL_HOURS", "0,3"), ("DEFAULT_TTL_HOURS", "3")],
        [("ALLOWED_TTL_HOURS", "-0,3"), ("DEFAULT_TTL_HOURS", "3")],
        [("ALLOWED_TTL_HOURS", "NaN,3"), ("DEFAULT_TTL_HOURS", "3")],
        [("ALLOWED_TTL_HOURS", "inf,3"), ("DEFAULT_TTL_HOURS", "3")],
        [("ALLOWED_TTL_HOURS", "3,inf"), ("DEFAULT_TTL_HOURS", "inf")],
    ] {
        assert_eq!(load(&vars), Err(ConfigError::InvalidTtlConfiguration));
    }
    let error = load(&[("ALLOWED_TTL_HOURS", "1,x")]).unwrap_err();
    assert_eq!(
        error.message(),
        "ALLOWED_TTL_HOURS contains an invalid number: invalid float literal"
    );
    let error = load(&[("DEFAULT_TTL_HOURS", "x")]).unwrap_err();
    assert_eq!(
        error.message(),
        "DEFAULT_TTL_HOURS must be a number: invalid float literal"
    );
}

#[test]
fn messages() {
    assert_eq!(
        ConfigError::InvalidNumber { name: "A" }.message(),
        "A must be a number"
    );
    let error = ConfigError::OutOfRange {
        name: "A",
        min: "1".to_owned(),
        max: "9".to_owned(),
    };
    assert_eq!(error.message(), "A must be between 1 and 9");
    assert_eq!(
        ConfigError::invalid_public_port().message(),
        "PUBLIC_PORT must be a valid port"
    );
    assert_eq!(
        ConfigError::invalid_quic_port().message(),
        "QUIC_PORT must be a valid port"
    );
    assert_eq!(
        ConfigError::MissingQuicPort.message(),
        "QUIC_PORT must be set when PUBLIC_PORT is 65535"
    );
    assert_eq!(
        ConfigError::InvalidBoolean { name: "A" }.message(),
        "A must be true, false, 1, or 0"
    );
    assert_eq!(
        ConfigError::InvalidTtlConfiguration.message(),
        "TTL values must be finite, positive, and include DEFAULT_TTL_HOURS"
    );
}

#[test]
fn proxies_and_danger_level() {
    let none = env(&[]);
    assert_eq!(danger_level_text(&none), "high");
    assert_eq!(trusted_proxies_text(&none), "");
    let set = env(&[("DANGER_LEVEL", "low"), ("TRUSTED_PROXY_CIDRS", "10.0.0.0/8")]);
    assert_eq!(danger_level_text(&set), "low");
    assert_eq!(trusted_proxies_text(&set), "10.0.0.0/8");
    let ttl = ParsedTtl {
        allowed: vec![Ok(24.0f64.to_bits())],
        default: None,
    };
    let error = Config::from_env(&none, DangerLevel::Low, Err("bad CIDR".to_owned()), ttl);
    assert_eq!(
        error,
        Err(ConfigError::InvalidTrustedProxyCidrs("bad CIDR".to_owned()))
    );
    assert_eq!(error.unwrap_err().message(), "bad CIDR");
    assert_eq!(DangerLevel::Off.as_str(), "none");
    assert_eq!(DangerLevel::Low.as_str(), "low");
    assert_eq!(DangerLevel::Medium.as_str(), "medium");
    assert_eq!(DangerLevel::High.as_str(), "high");
}

#[test]
fn object_store_settings() {
    let config = load(&[("S3_BUCKET", " ")]).unwrap();
    assert!(s3_backend(&config).is_none());
    let config = load(&[("S3_BUCKET", "b"), ("S3_ALLOW_HTTP", "1")]).unwrap();
    assert!(config.is_s3_mode());
    let s3 = s3_backend(&config).unwrap().unwrap();
    assert_eq!((s3.bucket.as_str(), s3.region.as_str()), ("b", "us-east-1"));
    assert!(!s3.allow_http);
    let config = load(&[("S3_BUCKET", "b"), ("S3_ENDPOINT", "http://s3")]).unwrap();
    assert_eq!(
        s3_backend(&config).unwrap(),
        Err("S3_ENDPOINT uses HTTP; set S3_ALLOW_HTTP=true to allow it".to_owned())
    );
    let config = load(&[
        ("S3_BUCKET", "b"),
        ("S3_ENDPOINT", "http://s3"),
        ("S3_ALLOW_HTTP", "true"),
    ])
    .unwrap();
    assert!(s3_backend(&config).unwrap().unwrap().allow_http);
}

#[test]
fn reporting() {
    assert_eq!(sentry_dsn(&env(&[])), None);
    assert_eq!(
        sentry_dsn(&env(&[("SENTRY_DSN", "a")])),
        Some("a".to_owned())
    );
    assert_eq!(
        sentry_dsn(&env(&[("SENTRY_DSN_JUICEHOST", ""), ("SENTRY_DSN", "a")])),
        None
    );
    assert_eq!(sentry_environment(&env(&[])), "production");
}

#[test]
fn state_follows_the_configuration() {
    let config = load(&[
        ("JUICEHOST_API_KEY", "k"),
        ("TCP_BODY_INACTIVITY_SECONDS", "7"),
        ("MAX_CONCURRENT_UPLOADS", "9"),
    ])
    .unwrap();
    let state = AppState::new(&config);
    assert_eq!(state.api_key, "k");
    assert_eq!(state.tcp_body_inactivity, 7);
    assert_eq!(state.upload_permits, 9);
    assert_eq!(state.download_permits, 64);
    assert_eq!(state.allowed_ttl_hours, config.allowed_ttl_hours);
}

#[test]
fn ban_lists() {
    assert!(!bans_configured(&load(&[]).unwrap()));
    assert!(bans_configured(&load(&[("IP_PEPPER", "p")]).unwrap()));
    assert!(bans_configured(&load(&[("BAN_LIST_FILE", "f")]).unwrap()));
    assert!(bans_configured(&load(&[("BAN_SYNC_URL", "u")]).unwrap()));
    assert_eq!(refresh_interval(4), 5);
    assert_eq!(refresh_interval(6), 6);
    assert_eq!(
        snapshot_url("k", "http://b"),
        Ok("http://b/internal/ban-snapshot".to_owned())
    );
    assert!(snapshot_url("", "http://b").is_err());
    let body = |pepper: &str| {
        SnapshotAnswer::Body(JsonPayload {
            fields: vec![
                ("pepper".to_owned(), JsonField::Text(pepper.to_owned())),
                (
                    "hashes".to_owned(),
                    JsonField::List(vec![Some("a".to_owned()), None, Some("b".to_owned())]),
                ),
            ],
        })
    };
    assert_eq!(
        sync_from_backend(body("p")),
        Ok(BanSnapshot {
            pepper: "p".to_owned(),
            hashes: vec!["a".to_owned(), "b".to_owned()]
        })
    );
    assert_eq!(
        sync_from_backend(body("")),
        Err("backend returned an empty pepper".to_owned())
    );
    for (answer, text) in [
        (
            SnapshotAnswer::NoClient("e".to_owned()),
            "failed to build http client: e",
        ),
        (SnapshotAnswer::RequestFailed("e".to_owned()), "request failed: e"),
        (
            SnapshotAnswer::Status("500".to_owned()),
            "backend returned status 500",
        ),
        (SnapshotAnswer::Invalid("e".to_owned()), "invalid response: e"),
    ] {
        assert_eq!(sync_from_backend(answer), Err(text.to_owned()));
    }
}
