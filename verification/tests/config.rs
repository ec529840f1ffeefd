use std::path::PathBuf;

use aionui_server::config::{
    derive_encryption_key, encryption_key_material, parse_feature_switch, AppConfig, IdentityMode,
    RuntimeFeaturePolicy, PACKAGE_VERSION,
};
use aionui_server::digest::hex_text;
use aionui_server::environment::EnvValue;

fn set(text: &str) -> EnvValue {
    EnvValue::Present(text.to_string())
}

#[test]
fn test_app_config_default() {
    let config = AppConfig::default();
    assert_eq!(config.host, "127.0.0.1");
    assert_eq!(config.port, 25808);
    assert_eq!(config.data_dir, PathBuf::from("data"));
    assert_eq!(config.app_version, PACKAGE_VERSION);
    assert_eq!(config.identity_mode, IdentityMode::WebUi);
    assert!(config.bootstrap_secret.is_none());
    assert!(!config.dump_prompts);
    assert!(!config.recover_corrupted_database);
}

#[test]
fn default_config_is_not_local_and_works_in_its_data_directory() {
    let config = AppConfig::default();
    assert!(!config.local);
    assert_eq!(config.work_dir, PathBuf::from("data"));
    // The version that Cargo.toml gives, which cargo hands on as CARGO_PKG_VERSION.
    assert_eq!(config.app_version, "0.1.0");
}

#[test]
fn test_app_config_socket_addr() {
    let config = AppConfig {
        host: "0.0.0.0".to_string(),
        port: 3000,
        ..Default::default()
    };
    assert_eq!(config.socket_addr(), "0.0.0.0:3000");
}

#[test]
fn socket_addr_writes_every_port() {
    let mut config = AppConfig::default();
    config.host = "h".to_string();
    config.port = 0;
    assert_eq!(config.socket_addr(), "h:0");
    config.port = 65535;
    assert_eq!(config.socket_addr(), "h:65535");
    config.port = 1009;
    assert_eq!(config.socket_addr(), "h:1009");
}

#[test]
fn local_base_url_uses_loopback_for_wildcard_host() {
    let config = AppConfig {
        host: "0.0.0.0".to_string(),
        port: 49152,
        ..Default::default()
    };
    assert_eq!(config.local_base_url(), "http://127.0.0.1:49152");
}

#[test]
fn local_base_url_keeps_other_hosts() {
    let mut config = AppConfig::default();
    config.port = 80;
    config.host = "::".to_string();
    assert_eq!(config.local_base_url(), "http://127.0.0.1:80");
    config.host = "::1".to_string();
    assert_eq!(config.local_base_url(), "http://::1:80");
    config.host = "bücher.example".to_string();
    assert_eq!(config.local_base_url(), "http://bücher.example:80");
    config.host = String::new();
    assert_eq!(config.local_base_url(), "http://:80");
}

#[test]
fn test_app_config_database_path() {
    let config = AppConfig {
        data_dir: PathBuf::from("/tmp/aionui"),
        ..Default::default()
    };
    assert_eq!(config.database_path(), PathBuf::from("/tmp/aionui/aionui-backend.db"));
}

#[test]
fn database_path_adds_a_separator_only_where_one_is_needed() {
    let mut config = AppConfig::default();
    config.data_dir = PathBuf::from("data");
    let path = config.database_path();
    assert!(
        path.as_os_str() == "data/aionui-backend.db" || path.as_os_str() == "data\\aionui-backend.db"
    );
    config.data_dir = PathBuf::from("data/");
    assert!(config.database_path().as_os_str() == "data/aionui-backend.db");
    config.data_dir = PathBuf::new();
    assert!(config.database_path().as_os_str() == "aionui-backend.db");
}

#[test]
fn database_path_ends_in_the_file_name_in_every_directory() {
    let mut config = AppConfig::default();
    config.work_dir = PathBuf::from("elsewhere");
    for dir in ["\\\\?\\C:\\data", "//?/data", "//?", "/", "//host/share", "a/./b", "a\\", "C:", ""] {
        config.data_dir = PathBuf::from(dir);
        let path = config.database_path();
        let text = path.to_str().unwrap();
        assert!(text.ends_with("aionui-backend.db"), "{}", text);
        let start: String = dir.chars().take(4).collect();
        assert!(text.starts_with(&start), "{}", text);
    }
}

#[test]
fn database_path_keeps_a_verbatim_directory_that_is_in_normal_form() {
    let mut config = AppConfig::default();
    for dir in ["\\\\?\\C:\\Users\\.aionui", "\\\\?\\C:", "\\\\?\\UNC\\host\\share\\a..b"] {
        config.data_dir = PathBuf::from(dir);
        let path = config.database_path();
        assert_eq!(
            path.to_str().unwrap().replace('\\', "/"),
            format!("{}/aionui-backend.db", dir.replace('\\', "/"))
        );
    }
}

#[test]
fn a_copy_of_a_config_holds_the_same() {
    let config = AppConfig {
        host: "host".to_string(),
        data_dir: PathBuf::from("/srv/data"),
        work_dir: PathBuf::from("/srv/work"),
        bootstrap_secret: Some("secret".to_string()),
        local: true,
        identity_mode: IdentityMode::AionPro,
        ..Default::default()
    };
    let copy = config.clone();
    assert_eq!(format!("{:?}", copy), format!("{:?}", config));
}

#[test]
fn local_mode_overrides_the_identity_mode() {
    let mut config = AppConfig::default();
    config.identity_mode = IdentityMode::AionPro;
    assert_eq!(config.effective_identity_mode(), IdentityMode::AionPro);
    config.local = true;
    assert_eq!(config.effective_identity_mode(), IdentityMode::Local);
}

#[test]
fn identity_modes_have_labels() {
    assert_eq!(IdentityMode::Local.auth_label(), "local");
    assert_eq!(IdentityMode::WebUi.auth_label(), "webui");
    assert_eq!(IdentityMode::AionPro.auth_label(), "aionpro");
    assert!(IdentityMode::Local.is_local());
    assert!(!IdentityMode::WebUi.is_local());
    assert!(!IdentityMode::AionPro.is_local());
}

#[test]
fn explicit_deployment_gates_are_validated() {
    assert!(!parse_feature_switch("gate", Some("0")).unwrap());
    assert!(!parse_feature_switch("gate", Some("false")).unwrap());
    assert!(parse_feature_switch("gate", Some("1")).unwrap());
    assert!(parse_feature_switch("gate", Some("TRUE")).is_err());
    assert!(parse_feature_switch("gate", Some("")).is_err());
}

#[test]
fn a_gate_is_open_unless_it_is_closed() {
    assert_eq!(parse_feature_switch("gate", None), Ok(true));
    assert_eq!(parse_feature_switch("gate", Some("true")), Ok(true));
    assert_eq!(
        parse_feature_switch("gate", Some(" 1")),
        Err("gate must be 0, 1, false, or true".to_string())
    );
}

#[test]
fn feature_policy_comes_from_the_environment() {
    let policy =
        RuntimeFeaturePolicy::from_env(&set("0"), &EnvValue::NotPresent, &EnvValue::NotUnicode)
            .unwrap();
    assert!(!policy.session_messages);
    assert!(policy.runtime_user_auth);
    assert!(policy.midturn_delivery);
    let policy = RuntimeFeaturePolicy::from_env(&set("1"), &set("false"), &set("true")).unwrap();
    assert!(policy.session_messages);
    assert!(!policy.runtime_user_auth);
    assert!(policy.midturn_delivery);
}

#[test]
fn feature_policy_names_the_first_wrong_variable() {
    assert_eq!(
        RuntimeFeaturePolicy::from_env(&set("on"), &set("off"), &set("")).err(),
        Some("AIONUI_SESSION_MESSAGES_ENABLED must be 0, 1, false, or true".to_string())
    );
    assert_eq!(
        RuntimeFeaturePolicy::from_env(&set("1"), &set("off"), &set("")).err(),
        Some("AIONUI_RUNTIME_USER_AUTH_ENABLED must be 0, 1, false, or true".to_string())
    );
    assert_eq!(
        RuntimeFeaturePolicy::from_env(&set("1"), &set("1"), &set("")).err(),
        Some("AIONUI_MIDTURN_DELIVERY_ENABLED must be 0, 1, false, or true".to_string())
    );
}

#[test]
fn encryption_key_is_the_digest_of_prefix_and_secret() {
    let key = derive_encryption_key("storage secret");
    assert_eq!(
        hex_text(&key, 32),
        "4b8e530603921feeceb103c0b74006de2045a0a52e453d81a0b52eba4707ce4f"
    );
    let key = derive_encryption_key("");
    assert_eq!(
        hex_text(&key, 32),
        "d83bdd7ab08f9b426f600e7805bdce4732aaaafad8b35d8de506c8b4b0f6cc64"
    );
}

#[test]
fn encryption_key_material_starts_with_the_prefix() {
    assert_eq!(encryption_key_material("ü"), "aionui-encryption-key:ü".as_bytes());
    assert_ne!(encryption_key_material("a"), encryption_key_material("b"));
}
