use octopush::ghauth::gh_hosts_has_credential;

#[test]
fn hosts_text_with_host_and_token_authorizes() {
    let text = "github.com:\n oauth_token: dummy\n user: someone\n";
    assert!(gh_hosts_has_credential(text, "github.com"));
}

#[test]
fn hosts_text_without_token_does_not_authorize() {
    let text = "github.com:\n user: someone\n";
    assert!(!gh_hosts_has_credential(text, "github.com"));
}

#[test]
fn hosts_text_without_the_host_does_not_authorize() {
    let text = "gitlab.example.org:\n oauth_token: dummy\n";
    assert!(!gh_hosts_has_credential(text, "github.com"));
    // a host name must open the line: a mention elsewhere is not enough
    let indirect = "aliases:\n  hub: github.com:\noauth_token: dummy\n";
    assert!(!gh_hosts_has_credential(indirect, "github.com"));
}

#[test]
fn hosts_lines_may_be_indented() {
    let text = "hosts:\n\t github.com:\n\t  oauth_token: dummy\n";
    assert!(gh_hosts_has_credential(text, "github.com"));
}

#[test]
fn empty_hosts_text_does_not_authorize() {
    assert!(!gh_hosts_has_credential("", "github.com"));
}
