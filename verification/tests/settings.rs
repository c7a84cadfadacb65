use scheduler_module::cli_args::{has_flag, parse_arg, parse_arg_or, parse_arg_raw, parse_arg_usize, unescape_string};
use scheduler_module::env_alias::{bool_with_scale_oliver, deploy_target_overrides, var_with_scale_oliver};
use scheduler_module::google_auth::{
    google_docs_scopes, GoogleAuth, GoogleAuthConfig, GoogleAuthError, RefreshOutcome, TokenStep,
};
use scheduler_module::google_drive_changes::{GoogleDriveChangesConfig, WatchChannel, DEFAULT_CHANNEL_EXPIRATION_SECS};
use scheduler_module::ingestion_queue::{
    resolve_bool_setting, resolve_db_url, resolve_table_name, sanitize_table_name, IngestionQueueConfigError,
};
use scheduler_module::mongo_store::{mongo_database_name, sanitize_fragment};

#[test]
fn var_with_scale_oliver_prefers_base_in_production() {
    let value = var_with_scale_oliver(Some("production"), Some("base-value"), Some("scale-value")).expect("value");
    assert_eq!(value, "base-value");
}

#[test]
fn var_with_scale_oliver_prefers_scale_in_staging() {
    let value = var_with_scale_oliver(Some("staging"), Some("base-value"), Some("scale-value")).expect("value");
    assert_eq!(value, "scale-value");
}

#[test]
fn var_with_scale_oliver_falls_back_and_trims() {
    assert_eq!(var_with_scale_oliver(None, Some("  "), Some(" s ")).as_deref(), Some("s"));
    assert_eq!(var_with_scale_oliver(Some(" STAGING "), None, Some("")).as_deref(), None);
    assert_eq!(var_with_scale_oliver(Some("staging"), Some(" b "), None).as_deref(), Some("b"));
    assert_eq!(var_with_scale_oliver(Some("  "), Some("b"), Some("p")).as_deref(), Some("b"));
}

#[test]
fn bool_with_scale_oliver_reads_flags() {
    assert!(bool_with_scale_oliver(None, Some("YES"), None, false));
    assert!(bool_with_scale_oliver(None, Some("on"), None, false));
    assert!(!bool_with_scale_oliver(None, Some("nope"), None, true));
    assert!(bool_with_scale_oliver(None, None, None, true));
    assert!(!bool_with_scale_oliver(Some("staging"), Some("1"), Some("0"), true));
}

#[test]
fn deploy_target_overrides_plan() {
    let vars = vec![
        ("STAGING_DB_URL".to_string(), "postgres://staging".to_string()),
        ("STAGING_".to_string(), "ignored".to_string()),
        ("STAGING_STAGING_X".to_string(), "double".to_string()),
        ("AZURE_STORAGE_ACCOUNT".to_string(), " acct ".to_string()),
        ("STAGING_SERVICE_BUS_QUEUE_NAME".to_string(), "q-staging".to_string()),
        ("OTHER".to_string(), "x".to_string()),
    ];
    let sets = deploy_target_overrides(Some(" Staging "), &vars).expect("valid target");
    let expected: Vec<(String, String)> = vec![
        ("DEPLOY_TARGET", "staging"),
        ("DB_URL", "postgres://staging"),
        ("X", "double"),
        ("SERVICE_BUS_QUEUE_NAME", "q-staging"),
        ("SCALE_OLIVER_SERVICE_BUS_QUEUE_NAME", "q-staging"),
        ("SCALE_OLIVER_AZURE_STORAGE_ACCOUNT", "acct"),
    ]
    .into_iter()
    .map(|(a, b)| (a.to_string(), b.to_string()))
    .collect();
    assert_eq!(sets, expected);

    let prod = deploy_target_overrides(None, &vars).expect("default target");
    assert_eq!(prod, vec![("DEPLOY_TARGET".to_string(), "production".to_string())]);

    let err = deploy_target_overrides(Some("qa"), &vars).unwrap_err();
    assert_eq!(err, "Invalid DEPLOY_TARGET='qa'. Expected 'production' or 'staging'.");
}

#[test]
fn test_config_validation() {
    let empty_config = GoogleAuthConfig::default();
    assert!(!empty_config.is_valid());
    let oauth_config = GoogleAuthConfig {
        client_id: Some("client_id".to_string()),
        client_secret: Some("client_secret".to_string()),
        refresh_token: Some("refresh_token".to_string()),
        service_account_json: None,
        access_token: None,
    };
    assert!(oauth_config.is_valid());
    let service_account_config = GoogleAuthConfig {
        client_id: None,
        client_secret: None,
        refresh_token: None,
        service_account_json: Some("{}".to_string()),
        access_token: None,
    };
    assert!(service_account_config.is_valid());
}

#[test]
fn employee_refresh_token_takes_precedence() {
    assert_eq!(GoogleAuthConfig::employee_refresh_token_key("little_bear"), "GOOGLE_REFRESH_TOKEN_LITTLE_BEAR");
    let c = GoogleAuthConfig::for_employee(None, None, Some("mine".into()), Some("shared".into()), None, None);
    assert_eq!(c.refresh_token.as_deref(), Some("mine"));
    let c = GoogleAuthConfig::for_employee(None, None, None, Some("shared".into()), None, None);
    assert_eq!(c.refresh_token.as_deref(), Some("shared"));
}

fn oauth() -> GoogleAuthConfig {
    GoogleAuthConfig {
        client_id: Some("id".to_string()),
        client_secret: Some("secret".to_string()),
        refresh_token: Some("refresh".to_string()),
        service_account_json: None,
        access_token: None,
    }
}

#[test]
fn token_cache_serves_refreshed_token_until_margin() {
    let mut auth = GoogleAuth::new(oauth(), 0).expect("valid");
    assert!(auth.is_enabled());
    match auth.get_access_token(1_000) {
        TokenStep::Fetch { client_id, client_secret, refresh_token } => {
            assert_eq!((client_id.as_str(), client_secret.as_str(), refresh_token.as_str()), ("id", "secret", "refresh"));
        }
        other => panic!("expected a fetch, got {:?}", other),
    }
    let token = auth
        .complete_refresh(RefreshOutcome::Token { access_token: "tok".to_string(), expires_in: 3600 }, 1_000)
        .expect("token");
    assert_eq!(token, "tok");
    assert_eq!(auth.token_expires_at, Some(3_601_000));
    assert!(matches!(auth.get_access_token(3_540_999), TokenStep::Ready(t) if t == "tok"));
    assert!(matches!(auth.get_access_token(3_541_000), TokenStep::Fetch { .. }));
}

#[test]
fn failed_refresh_leaves_cache_alone() {
    let mut auth = GoogleAuth::new(oauth(), 0).expect("valid");
    let err = auth
        .complete_refresh(RefreshOutcome::Rejected { status: "400".to_string(), body: "bad".to_string() }, 5)
        .unwrap_err();
    assert_eq!(err.message(), "token refresh failed: HTTP 400: bad");
    assert!(auth.access_token.is_none());
    let err = auth.complete_refresh(RefreshOutcome::Transport("down".to_string()), 5).unwrap_err();
    assert_eq!(err.message(), "http error: down");
    let err = auth.complete_refresh(RefreshOutcome::Malformed("eof".to_string()), 5).unwrap_err();
    assert_eq!(err.message(), "json error: eof");
}

#[test]
fn preset_token_is_trusted_for_an_hour() {
    let config = GoogleAuthConfig { access_token: Some("preset".to_string()), ..GoogleAuthConfig::default() };
    let auth = GoogleAuth::new(config, 10).expect("valid");
    assert_eq!(auth.token_expires_at, Some(3_600_010));
    assert!(matches!(auth.get_access_token(10), TokenStep::Ready(t) if t == "preset"));
    assert!(matches!(
        auth.get_access_token(3_600_000),
        TokenStep::Failed(GoogleAuthError::MissingCredentials(m)) if m == "No valid credentials available"
    ));
}

#[test]
fn invalid_config_and_service_account_are_reported() {
    let err = GoogleAuth::new(GoogleAuthConfig::default(), 0).err().expect("invalid");
    assert!(err.message().starts_with("missing credentials: Either GOOGLE_ACCESS_TOKEN"));
    let sa = GoogleAuthConfig { service_account_json: Some("{}".to_string()), ..GoogleAuthConfig::default() };
    let auth = GoogleAuth::new(sa, 0).expect("valid");
    assert!(matches!(auth.refresh_access_token(), TokenStep::Failed(GoogleAuthError::ServiceAccountAuthFailed(_))));
    assert_eq!(google_docs_scopes().len(), 3);
}

#[test]
fn test_config_from_env() {
    let config = GoogleDriveChangesConfig::default();
    assert!(!config.enabled);
    assert!(config.webhook_url.is_none());
    assert_eq!(config.channel_expiration_secs, DEFAULT_CHANNEL_EXPIRATION_SECS);
}

#[test]
fn drive_changes_config_from_settings() {
    let c = GoogleDriveChangesConfig::from_settings(Some("TRUE".into()), Some("https://h/x".into()), Some("120".into()));
    assert!(c.enabled && c.is_valid());
    assert_eq!(c.channel_expiration_secs, 120);
    assert_eq!(c.requested_expiration_ms(1_000), 121_000);
    let c = GoogleDriveChangesConfig::from_settings(Some("yes".into()), None, Some("abc".into()));
    assert!(!c.enabled && !c.is_valid());
    assert_eq!(c.channel_expiration_secs, DEFAULT_CHANNEL_EXPIRATION_SECS);
}

#[test]
fn test_channel_needs_renewal() {
    let now: i64 = 1_700_000_000_000;
    let channel = WatchChannel {
        id: "test".to_string(),
        file_id: "file1".to_string(),
        resource_id: "res1".to_string(),
        expires_at_ms: now + 100_000,
        created_at_ms: now,
    };
    assert!(channel.needs_renewal(now));
    let channel2 = WatchChannel {
        id: "test2".to_string(),
        file_id: "file2".to_string(),
        resource_id: "res2".to_string(),
        expires_at_ms: now + 600_000,
        created_at_ms: now,
    };
    assert!(!channel2.needs_renewal(now));
    assert!(!channel2.is_expired(now));
    assert!(channel2.is_expired(now + 600_000));
}

#[test]
fn sanitize_fragment_normalizes_separators() {
    assert_eq!(sanitize_fragment("Little Bear@DoWhiz.com"), "little_bear_dowhiz_com");
    assert_eq!(sanitize_fragment("prod--west"), "prod_west");
}

#[test]
fn sanitize_fragment_is_idempotent_and_strips_edges() {
    assert_eq!(sanitize_fragment("__A__b__"), "a_b");
    let once = sanitize_fragment("  Weird//Name!! ");
    assert_eq!(sanitize_fragment(&once), once);
    assert_eq!(sanitize_fragment("@@@"), "");
}

#[test]
fn mongo_database_name_from_settings() {
    assert_eq!(mongo_database_name(Some(" custom ".into()), Some("staging".into()), None), "custom");
    assert_eq!(mongo_database_name(None, None, None), "dowhiz_production_default");
    assert_eq!(mongo_database_name(None, Some(" Staging ".into()), Some("Little Bear".into())), "dowhiz_staging_little_bear");
    assert_eq!(mongo_database_name(None, None, Some("@@".into())), "dowhiz_production_default");
}

#[test]
fn parses_cli_arguments() {
    let args: Vec<String> = vec!["prog", "--title=Hello\\nWorld", "--doc", "abc", "--flag"].into_iter().map(String::from).collect();
    assert_eq!(parse_arg_raw(&args, "--title").as_deref(), Some("Hello\\nWorld"));
    assert_eq!(parse_arg(&args, "--title").as_deref(), Some("Hello\nWorld"));
    assert_eq!(parse_arg(&args, "--doc").as_deref(), Some("abc"));
    assert_eq!(parse_arg(&args, "--flag"), None);
    let eq: Vec<String> = vec!["--replace=a=b", "--find", "x=y"].into_iter().map(String::from).collect();
    assert_eq!(parse_arg(&eq, "--replace").as_deref(), Some("a=b"));
    assert_eq!(parse_arg_raw(&eq, "--find").as_deref(), Some("x=y"));
    assert!(has_flag(&args, "--flag"));
    assert!(!has_flag(&args, "--nope"));
    assert_eq!(unescape_string("a\\tb\\\\c\\q"), "a\tb\\c\\q");
    let load: Vec<String> = vec!["--count", "0", "--name", "x", "--size", "12"].into_iter().map(String::from).collect();
    assert_eq!(parse_arg_or(&load, "--name", "d"), "x");
    assert_eq!(parse_arg_or(&load, "--missing", "d"), "d");
    assert_eq!(parse_arg_usize(&load, "--count", 7), 7);
    assert_eq!(parse_arg_usize(&load, "--size", 7), 12);
    assert_eq!(parse_arg_usize(&load, "--name", 7), 7);
}

#[test]
fn resolves_ingestion_queue_settings() {
    assert_eq!(sanitize_table_name("public.ingestion_queue").unwrap(), "public.ingestion_queue");
    assert!(matches!(sanitize_table_name("bad-name"), Err(IngestionQueueConfigError::InvalidTableName(s)) if s == "bad-name"));
    assert!(sanitize_table_name("a.b.c").is_err());
    assert_eq!(resolve_table_name(None).unwrap(), "ingestion_queue");
    assert_eq!(resolve_table_name(Some("  ".into())).unwrap(), "ingestion_queue");
    assert_eq!(resolve_table_name(Some(" q_1 ".into())).unwrap(), "q_1");
    assert_eq!(resolve_db_url(vec![None, Some(" ".into()), Some("pg://x".into())]).unwrap(), "pg://x");
    assert!(matches!(resolve_db_url(vec![None]), Err(IngestionQueueConfigError::MissingDbUrl)));
    assert!(resolve_bool_setting(Some(" TRUE ".into())));
    assert!(!resolve_bool_setting(Some("0".into())));
    assert!(!resolve_bool_setting(None));
}

use scheduler_module::google_drive_changes::{ChangeNotification, WatchRegistry};

fn channel(id: &str, file: &str, resource: &str, expires_at_ms: i64) -> WatchChannel {
    WatchChannel {
        id: id.to_string(),
        file_id: file.to_string(),
        resource_id: resource.to_string(),
        expires_at_ms,
        created_at_ms: 0,
    }
}

fn notification(resource: &str, state: &str) -> ChangeNotification {
    ChangeNotification {
        channel_id: "ch".to_string(),
        resource_id: resource.to_string(),
        resource_state: state.to_string(),
        message_number: None,
    }
}

#[test]
fn watch_registry_tracks_channels_and_resources() {
    let mut reg = WatchRegistry::new();
    reg.record_watch(channel("c1", "f1", "r1", 1_000_000));
    reg.record_watch(channel("c2", "f2", "r2", 100_000));
    assert_eq!(reg.channel_for("f1").map(|c| c.id.as_str()), Some("c1"));
    assert_eq!(reg.handle_notification(&notification("r2", "update")).as_deref(), Some("f2"));
    assert_eq!(reg.handle_notification(&notification("r2", "sync")), None);
    assert_eq!(reg.handle_notification(&notification("zz", "change")), None);
    // Re-watching a file replaces its channel.
    reg.record_watch(channel("c3", "f1", "r3", 2_000_000));
    assert_eq!(reg.channels.len(), 2);
    assert_eq!(reg.channel_for("f1").map(|c| c.id.as_str()), Some("c3"));
    assert_eq!(reg.handle_notification(&notification("r3", "update")).as_deref(), Some("f1"));
    // Renewal: within 300 s of expiry.
    assert_eq!(reg.files_to_renew(-300_000), Vec::<String>::new());
    assert_eq!(reg.files_to_renew(-200_000), vec!["f2".to_string()]);
    assert_eq!(reg.files_to_renew(1_699_999), vec!["f2".to_string()]);
    assert_eq!(reg.files_to_renew(1_700_000), vec!["f1".to_string(), "f2".to_string()]);
    // Forgetting a channel drops it and its resource.
    let gone = reg.forget("f2").expect("watched");
    assert_eq!(gone.id, "c2");
    assert!(reg.channel_for("f2").is_none());
    assert_eq!(reg.handle_notification(&notification("r2", "update")), None);
    assert!(reg.forget("f2").is_none());
    // A channel that stays registered keeps mapping back to its file.
    assert_eq!(reg.handle_notification(&notification("r3", "change")).as_deref(), Some("f1"));
}

use scheduler_module::ingestion_queue::{
    resolve_positive_i32, resolve_positive_i64, resolve_worker_instance_id, worker_instance_key,
};

#[test]
fn worker_instance_key_upper_cases_the_trimmed_employee() {
    assert_eq!(worker_instance_key("  little_bear "), "WORKER_INSTANCE_ID_LITTLE_BEAR");
    assert_eq!(worker_instance_key("Boiled-Egg2"), "WORKER_INSTANCE_ID_BOILED-EGG2");
}

#[test]
fn worker_instance_id_prefers_global_then_employee_then_host() {
    let s = |v: &str| Some(v.to_string());
    assert_eq!(resolve_worker_instance_id(s(" w-1 "), s("w-2"), s("host"), 7), "w-1");
    assert_eq!(resolve_worker_instance_id(s("  "), s(" w-2 "), s("host"), 7), "w-2");
    assert_eq!(resolve_worker_instance_id(None, s(""), s(" host "), 7), " host ");
    assert_eq!(resolve_worker_instance_id(None, None, s("   "), 4321), "pid-4321");
    assert_eq!(resolve_worker_instance_id(None, None, None, 0), "pid-0");
}

#[test]
fn positive_numeric_settings_fall_back_to_default() {
    let s = |v: &str| Some(v.to_string());
    assert_eq!(resolve_positive_i64(s("30"), 5), 30);
    assert_eq!(resolve_positive_i64(s("+12"), 5), 12);
    assert_eq!(resolve_positive_i64(s("0"), 5), 5);
    assert_eq!(resolve_positive_i64(s("-3"), 5), 5);
    assert_eq!(resolve_positive_i64(s(" 7"), 5), 5);
    assert_eq!(resolve_positive_i64(None, 5), 5);
    assert_eq!(resolve_positive_i32(s("2147483647"), 9), 2147483647);
    assert_eq!(resolve_positive_i32(s("2147483648"), 9), 9);
    assert_eq!(resolve_positive_i32(s("abc"), 9), 9);
}

use scheduler_module::ingestion_queue::{failure_outcome, FailureOutcome};

#[test]
fn failed_envelopes_back_off_until_out_of_attempts() {
    assert_eq!(failure_outcome(0, 5), FailureOutcome::RetryAfter(5));
    assert_eq!(failure_outcome(1, 5), FailureOutcome::RetryAfter(5));
    assert_eq!(failure_outcome(4, 5), FailureOutcome::RetryAfter(20));
    assert_eq!(failure_outcome(5, 5), FailureOutcome::Failed);
    assert_eq!(failure_outcome(9, 5), FailureOutcome::Failed);
    assert_eq!(failure_outcome(2147483646, 2147483647), FailureOutcome::RetryAfter(10737418230));
}

use scheduler_module::mongo_store::{bootstrap_plan, mongo_uri, MongoStoreError};

#[test]
fn mongo_connection_string_must_be_set_when_used() {
    assert_eq!(mongo_uri(Some(" mongodb://h ".to_string())), Ok("mongodb://h".to_string()));
    assert_eq!(mongo_uri(Some("   ".to_string())), Err(MongoStoreError::MissingMongoUri));
    assert_eq!(mongo_uri(None), Err(MongoStoreError::MissingMongoUri));
    assert!(matches!(bootstrap_plan(false, None), Ok(None)));
    assert!(matches!(bootstrap_plan(true, Some(" ".to_string())), Err(MongoStoreError::MissingMongoUri)));
    match bootstrap_plan(true, Some("mongodb://h".to_string())) {
        Ok(Some((uri, plan))) => {
            assert_eq!(uri, "mongodb://h");
            assert_eq!(plan.len(), 17);
            assert!(plan.iter().any(|i| i.collection == "users" && i.unique));
        }
        _ => panic!("expected a plan"),
    }
    assert_eq!(
        MongoStoreError::MissingMongoUri.message(),
        "MONGODB_URI must be set when STORAGE_BACKEND includes mongo"
    );
}
