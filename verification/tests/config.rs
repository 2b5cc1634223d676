use oxidevault::config::{Config, PathProbe, PublishRoot, UrlParts};
use oxidevault::error::OxideVaultError;

fn config_error(text: &str) -> OxideVaultError {
    OxideVaultError::Config(text.to_string())
}

#[test]
fn test_validate_server_address() {
    assert!(Config::validate_server_address("localhost:25565").is_ok());
    assert!(Config::validate_server_address("127.0.0.1:25565").is_ok());
    assert!(Config::validate_server_address("example.com:25565").is_ok());

    assert!(Config::validate_server_address("localhost").is_err());
    assert!(Config::validate_server_address("localhost:abc").is_err());
    assert!(Config::validate_server_address("localhost:99999").is_err());
}

#[test]
fn server_address_errors_say_what_is_wrong() {
    assert_eq!(
        Config::validate_server_address("localhost"),
        Err(config_error(
            "Invalid MC_SERVER_ADDRESS format: 'localhost'. Expected 'host:port' format."
        ))
    );
    assert_eq!(
        Config::validate_server_address("localhost:abc"),
        Err(config_error("Invalid port in MC_SERVER_ADDRESS: 'abc'"))
    );
    assert_eq!(
        Config::validate_server_address("localhost:99999"),
        Err(config_error("Invalid port in MC_SERVER_ADDRESS: '99999'"))
    );
    assert_eq!(
        Config::validate_server_address("localhost:"),
        Err(config_error("Invalid port in MC_SERVER_ADDRESS: ''"))
    );
}

#[test]
fn server_address_port_is_what_follows_the_last_colon() {
    assert!(Config::validate_server_address("[::1]:25565").is_ok());
    assert!(Config::validate_server_address("a:b:0").is_ok());
    assert!(Config::validate_server_address("host:65535").is_ok());
    assert!(Config::validate_server_address("host:+80").is_ok());
    assert!(Config::validate_server_address("host:00080").is_ok());
    assert!(Config::validate_server_address("host:65536").is_err());
    assert!(Config::validate_server_address("host:-1").is_err());
    assert!(Config::validate_server_address("host: 80").is_err());
    assert!(Config::validate_server_address("host:+").is_err());
    assert!(Config::validate_server_address("80:host").is_err());
    assert!(Config::validate_server_address("hôte:25565").is_ok());
    assert_eq!(
        Config::validate_server_address("host:pört"),
        Err(config_error("Invalid port in MC_SERVER_ADDRESS: 'pört'"))
    );
}

#[test]
fn backup_folder_rules_in_order() {
    let probe = |is_absolute, exists, is_dir| PathProbe { is_absolute, exists, is_dir };
    assert!(Config::validate_backup_folder("/backups", probe(true, true, true)).is_ok());
    assert_eq!(
        Config::validate_backup_folder("backups", probe(false, false, false)),
        Err(config_error("BACKUP_FOLDER must be an absolute path, got: 'backups'"))
    );
    assert_eq!(
        Config::validate_backup_folder("/backups", probe(true, false, false)),
        Err(config_error("BACKUP_FOLDER path does not exist: '/backups'"))
    );
    assert_eq!(
        Config::validate_backup_folder("/backups", probe(true, true, false)),
        Err(config_error("BACKUP_FOLDER path is not a directory: '/backups'"))
    );
}

#[test]
fn publish_root_is_created_where_missing() {
    let probe = |is_absolute, exists, is_dir| PathProbe { is_absolute, exists, is_dir };
    assert_eq!(
        Config::validate_publish_root("/p", probe(true, true, true)),
        Ok(PublishRoot::Ready)
    );
    assert_eq!(
        Config::validate_publish_root("/p", probe(true, false, false)),
        Ok(PublishRoot::Create)
    );
    assert_eq!(
        Config::validate_publish_root("p", probe(false, true, true)),
        Err(config_error("BACKUP_PUBLISH_ROOT must be an absolute path, got: 'p'"))
    );
    assert_eq!(
        Config::validate_publish_root("/p", probe(true, true, false)),
        Err(config_error("BACKUP_PUBLISH_ROOT is not a directory: '/p'"))
    );
    assert_eq!(
        Config::publish_root_not_created("/p", "permission denied"),
        config_error("Failed to create BACKUP_PUBLISH_ROOT '/p': permission denied")
    );
}

#[test]
fn public_base_url_must_be_http_with_a_host() {
    assert!(Config::validate_public_base_url("http://localhost/backups").is_ok());
    assert!(Config::validate_public_base_url("https://drop.example.com/backups").is_ok());
    assert!(Config::validate_public_base_url("HTTPS://Example.COM").is_ok());
    assert_eq!(
        Config::validate_public_base_url("ftp://example.com/backups"),
        Err(config_error(
            "BACKUP_PUBLIC_BASE_URL must use http:// or https:// scheme, got: 'ftp'"
        ))
    );
    assert_eq!(
        Config::validate_public_base_url("not a url"),
        Err(config_error(
            "Invalid BACKUP_PUBLIC_BASE_URL 'not a url': relative URL without a base"
        ))
    );
    assert_eq!(
        Config::validate_public_base_url("http://"),
        Err(config_error("Invalid BACKUP_PUBLIC_BASE_URL 'http://': empty host"))
    );
}

#[test]
fn public_base_url_judged_by_its_parts() {
    let parts = |scheme: &str, host: Option<&str>| {
        Ok(UrlParts { scheme: scheme.to_string(), host: host.map(|h| h.to_string()) })
    };
    assert!(Config::check_public_base_url("u", parts("http", Some("h"))).is_ok());
    assert!(Config::check_public_base_url("u", parts("https", Some("h"))).is_ok());
    assert_eq!(
        Config::check_public_base_url("u", parts("https", None)),
        Err(config_error("BACKUP_PUBLIC_BASE_URL must contain a valid host: 'u'"))
    );
    assert_eq!(
        Config::check_public_base_url("u", parts("mailto", None)),
        Err(config_error(
            "BACKUP_PUBLIC_BASE_URL must use http:// or https:// scheme, got: 'mailto'"
        ))
    );
    assert_eq!(
        Config::check_public_base_url("u", Err("bad".to_string())),
        Err(config_error("Invalid BACKUP_PUBLIC_BASE_URL 'u': bad"))
    );
}
