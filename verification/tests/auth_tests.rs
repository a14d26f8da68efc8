use octopush::auth::AuthType;
use octopush::error::ErrorKind;

#[test]
fn parses_the_three_modes() {
    assert_eq!(AuthType::parse_text("none").unwrap(), AuthType::NoAuth);
    assert_eq!(AuthType::parse_text("ssh").unwrap(), AuthType::SSH);
    assert_eq!(AuthType::parse_text("gh").unwrap(), AuthType::GH);
}

#[test]
fn parsing_ignores_case_and_surrounding_whitespace() {
    assert_eq!(AuthType::parse_text("SSH").unwrap(), AuthType::SSH);
    assert_eq!(AuthType::parse_text("None").unwrap(), AuthType::NoAuth);
    assert_eq!(AuthType::parse_text("  gh \n").unwrap(), AuthType::GH);
    assert_eq!(AuthType::parse_text("\tSsH ").unwrap(), AuthType::SSH);
}

#[test]
fn parsing_rejects_unknown_text() {
    let err = AuthType::parse_text("token").unwrap_err();
    assert_eq!(err.kind(), ErrorKind::InvalidData);
    assert_eq!(err.message(), "invalid auth type".to_string());

    assert!(AuthType::parse_text("").is_err());
    assert!(AuthType::parse_text("s sh").is_err());
}

#[test]
fn mode_words_round_trip() {
    for mode in [AuthType::NoAuth, AuthType::SSH, AuthType::GH] {
        assert_eq!(AuthType::parse_text(mode.as_text()).unwrap(), mode);
    }
    assert_eq!(AuthType::NoAuth.as_text(), "none");
    assert_eq!(AuthType::SSH.as_text(), "ssh");
    assert_eq!(AuthType::GH.as_text(), "gh");
}
