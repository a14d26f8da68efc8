use octopush::auth::AuthType;
use octopush::plan::{build_ssh_command, compute_apply_plan, compute_reset_plan, GitAction};
use octopush::profile::Profile;

#[test]
fn ssh_command_pins_key_and_disables_config() {
    assert_eq!(
        build_ssh_command("~/.ssh/id_rsa"),
        "ssh -i ~/.ssh/id_rsa -F /dev/null"
    );
}

#[test]
fn reset_plan_is_the_three_clears() {
    assert_eq!(
        compute_reset_plan(),
        vec![
            GitAction::ClearIdentity,
            GitAction::ClearSshCommand,
            GitAction::ClearCredentialHelper,
        ]
    );
}

#[test]
fn ssh_plan_leaves_ssh_remote_unchanged() {
    // A remote already in SSH shorthand is not rewritten.
    let profile = Profile::build(
        "p".to_string(),
        "Dev".to_string(),
        "dev@example.com".to_string(),
        AuthType::SSH,
        None,
        Some("/keys/k".to_string()),
    );
    let plan = compute_apply_plan(
        &profile,
        &Some("git@github.com:acme/app.git".to_string()),
    );
    assert!(!plan.iter().any(|a| matches!(a, GitAction::SetRemoteUrl { .. })));
    assert_eq!(
        plan,
        vec![
            GitAction::SetIdentity {
                name: "Dev".to_string(),
                email: "dev@example.com".to_string(),
            },
            GitAction::SetSshCommand {
                command: "ssh -i /keys/k -F /dev/null".to_string(),
            },
            GitAction::ClearCredentialHelper,
        ]
    );
}

#[test]
fn gh_plan_probes_host_even_without_rewrite() {
    // An https remote under a GH profile keeps its URL but is still probed.
    let profile = Profile::build(
        "p".to_string(),
        "Dev".to_string(),
        "dev@example.com".to_string(),
        AuthType::GH,
        Some("github.com".to_string()),
        None,
    );
    let plan = compute_apply_plan(
        &profile,
        &Some("https://github.com/acme/app.git".to_string()),
    );
    assert!(!plan.iter().any(|a| matches!(a, GitAction::SetRemoteUrl { .. })));
    assert!(plan.iter().any(|a| {
        a == &GitAction::ProbeCredential {
            host: "github.com".to_string(),
        }
    }));
}

#[test]
fn plans_skip_unparsable_remotes() {
    let profile = Profile::build(
        "p".to_string(),
        "Dev".to_string(),
        "dev@example.com".to_string(),
        AuthType::GH,
        Some("github.com".to_string()),
        None,
    );
    let plan = compute_apply_plan(&profile, &Some("not a url".to_string()));
    assert_eq!(
        plan,
        vec![
            GitAction::SetIdentity {
                name: "Dev".to_string(),
                email: "dev@example.com".to_string(),
            },
            GitAction::SetCredentialHelper {
                command: "!gh auth git-credential".to_string(),
            },
            GitAction::ClearSshCommand,
        ]
    );
}

#[test]
fn gh_plan_rewrites_explicit_ssh_remote() {
    let profile = Profile::build(
        "p".to_string(),
        "Dev".to_string(),
        "dev@example.com".to_string(),
        AuthType::GH,
        Some("github.com".to_string()),
        None,
    );
    let plan = compute_apply_plan(
        &profile,
        &Some("ssh://git@github.com/acme/app.git".to_string()),
    );
    assert!(plan.iter().any(|a| {
        a == &GitAction::SetRemoteUrl {
            url: "https://github.com/acme/app.git".to_string(),
        }
    }));
}

#[test]
fn plans_for_a_missing_remote_touch_no_remote() {
    let profile = Profile::build(
        "p".to_string(),
        "Dev".to_string(),
        "dev@example.com".to_string(),
        AuthType::SSH,
        None,
        Some("/keys/k".to_string()),
    );
    let plan = compute_apply_plan(&profile, &None);
    assert!(!plan.iter().any(|a| matches!(a, GitAction::SetRemoteUrl { .. })));
}
