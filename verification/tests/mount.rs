use mde::mount::parse_uri;

#[test]
fn parses_good_uris() {
    assert_eq!(parse_uri("smb://nas/media").unwrap(), ("smb".to_string(), "nas".to_string()));
    assert_eq!(parse_uri("sftp://user@host:22/home/me").unwrap(), ("sftp".to_string(), "host".to_string()));
    assert_eq!(parse_uri("smb://server").unwrap(), ("smb".to_string(), "server".to_string()));
}

#[test]
fn rejects_bad_uris() {
    assert!(parse_uri("not-a-uri").is_err());
    assert!(parse_uri("smb://").is_err());
    assert!(parse_uri("://host").is_err());
    assert!(parse_uri("smb:///share").is_err());
}
