use octopush::remote::{parse_remote, to_https, to_ssh};

#[test]
fn parse_and_format_remote_variants() {
    let (h, o, r) = parse_remote("git@github.com:acme/app.git").unwrap();
    assert_eq!(
        (h, o, r),
        ("github.com".into(), "acme".into(), "app".into())
    );

    let (h, o, r) = parse_remote("ssh://git@github.com/acme/app.git").unwrap();
    assert_eq!(
        (h, o, r),
        ("github.com".into(), "acme".into(), "app".into())
    );

    let (h, o, r) = parse_remote("https://github.com/acme/app.git").unwrap();
    assert_eq!(
        (h, o, r),
        ("github.com".into(), "acme".into(), "app".into())
    );

    assert_eq!(
        to_ssh("github.com", "acme", "app"),
        "git@github.com:acme/app.git"
    );
    assert_eq!(
        to_https("github.com", "acme", "app"),
        "https://github.com/acme/app.git"
    );
}

#[test]
fn parse_accepts_urls_without_git_suffix() {
    let (h, o, r) = parse_remote("https://gitlab.com/group/tool").unwrap();
    assert_eq!((h, o, r), ("gitlab.com".into(), "group".into(), "tool".into()));

    let (h, o, r) = parse_remote("git@example.org:team/widget").unwrap();
    assert_eq!(
        (h, o, r),
        ("example.org".into(), "team".into(), "widget".into())
    );
}

#[test]
fn parse_strips_repeated_git_suffix_and_slashes() {
    // trim_end_matches removes every trailing ".git"
    let (_, _, r) = parse_remote("https://github.com/acme/app.git.git").unwrap();
    assert_eq!(r, "app");

    // slashes around the owner/repo path are trimmed
    let (h, o, r) = parse_remote("https://github.com//acme/app/").unwrap();
    assert_eq!((h, o, r), ("github.com".into(), "acme".into(), "app".into()));
}

#[test]
fn parse_keeps_nested_repo_path() {
    let (h, o, r) = parse_remote("ssh://user@host.net/group/sub/tree.git").unwrap();
    assert_eq!(
        (h, o, r),
        ("host.net".into(), "group".into(), "sub/tree".into())
    );
}

#[test]
fn parse_rejects_other_shapes() {
    assert!(parse_remote("").is_none());
    assert!(parse_remote("ftp://github.com/acme/app.git").is_none());
    assert!(parse_remote("github.com/acme/app.git").is_none());
    // SSH shorthand without a colon has no host/path split
    assert!(parse_remote("git@github.com/acme/app.git").is_none());
    // no owner/repo separator after the host
    assert!(parse_remote("https://github.com/acme").is_none());
    assert!(parse_remote("ssh://github.com").is_none());
}

#[test]
fn format_then_parse_round_trips() {
    let ssh_url = to_ssh("git.mycompany.io", "platform", "deploy-tools");
    assert_eq!(
        parse_remote(&ssh_url),
        Some((
            "git.mycompany.io".to_string(),
            "platform".to_string(),
            "deploy-tools".to_string()
        ))
    );

    let https_url = to_https("git.mycompany.io", "platform", "deploy-tools");
    assert_eq!(
        parse_remote(&https_url),
        Some((
            "git.mycompany.io".to_string(),
            "platform".to_string(),
            "deploy-tools".to_string()
        ))
    );
}
