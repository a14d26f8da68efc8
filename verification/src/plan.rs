//! The reconciliation engine: from a target profile and a snapshot of the
//! repository's remote URL it computes the ordered list of local
//! configuration changes to apply. The engine is pure; an unverified shell
//! executes the actions one by one, in order, against the repository.

use vstd::prelude::*;
use vstd::string::*;

use crate::auth::AuthType;
use crate::profile::{Profile, ProfileView};
use crate::remote::{
    format_https_spec, format_ssh_spec, git_at_prefix, has_prefix, https_prefix, parse_remote,
    parse_remote_spec, ssh_prefix, to_https, to_ssh,
};
use crate::text::starts_with_str;

verus! {

/// One local configuration change against a repository.
#[derive(Clone, Debug, PartialEq)]
pub enum GitAction {
    /// Set `user.name` and `user.email`.
    SetIdentity { name: String, email: String },
    /// Unset `user.name` and `user.email`; missing keys are no failure.
    ClearIdentity,
    /// Set the URL of the default remote.
    SetRemoteUrl { url: String },
    /// Set the per-repository SSH command override.
    SetSshCommand { command: String },
    /// Unset the SSH command override; a missing key is no failure.
    ClearSshCommand,
    /// Set the credential helper and enable per-path credential usage.
    SetCredentialHelper { command: String },
    /// Unset the credential helper and the per-path flag; missing keys are
    /// no failure.
    ClearCredentialHelper,
    /// Non-blocking diagnostic: check whether a delegated credential looks
    /// available for this host. Never prevents the remaining actions.
    ProbeCredential { host: String },
}

/// The mathematical image of a `GitAction`.
pub enum GitActionView {
    SetIdentity { name: Seq<char>, email: Seq<char> },
    ClearIdentity,
    SetRemoteUrl { url: Seq<char> },
    SetSshCommand { command: Seq<char> },
    ClearSshCommand,
    SetCredentialHelper { command: Seq<char> },
    ClearCredentialHelper,
    ProbeCredential { host: Seq<char> },
}

impl View for GitAction {
    type V = GitActionView;

    open spec fn view(&self) -> GitActionView {
        match self {
            GitAction::SetIdentity { name, email } => GitActionView::SetIdentity {
                name: name@,
                email: email@,
            },
            GitAction::ClearIdentity => GitActionView::ClearIdentity,
            GitAction::SetRemoteUrl { url } => GitActionView::SetRemoteUrl { url: url@ },
            GitAction::SetSshCommand { command } => GitActionView::SetSshCommand {
                command: command@,
            },
            GitAction::ClearSshCommand => GitActionView::ClearSshCommand,
            GitAction::SetCredentialHelper { command } => GitActionView::SetCredentialHelper {
                command: command@,
            },
            GitAction::ClearCredentialHelper => GitActionView::ClearCredentialHelper,
            GitAction::ProbeCredential { host } => GitActionView::ProbeCredential { host: host@ },
        }
    }
}

impl DeepView for GitAction {
    type V = GitActionView;

    open spec fn deep_view(&self) -> GitActionView {
        self.view()
    }
}

/// The SSH command override for a key: pins the identity file and disables
/// external SSH configuration lookup.
pub open spec fn ssh_command_spec(key: Seq<char>) -> Seq<char> {
    "ssh -i "@ + key + " -F /dev/null"@
}

/// The command that delegates credentials to the external `gh` tool.
pub open spec fn gh_helper_command() -> Seq<char> {
    "!gh auth git-credential"@
}

/// The key-override part of an SSH plan: one action when a key is set.
pub open spec fn ssh_key_actions(p: ProfileView) -> Seq<GitActionView> {
    match p.ssh_key_path {
        Some(k) => seq![GitActionView::SetSshCommand { command: ssh_command_spec(k) }],
        None => Seq::empty(),
    }
}

/// The remote-rewrite part of an SSH plan: an HTTPS remote that parses is
/// rewritten to SSH shorthand; any other remote is left alone.
pub open spec fn ssh_remote_actions(remote: Option<Seq<char>>) -> Seq<GitActionView> {
    match remote {
        Some(url) => match parse_remote_spec(url) {
            Some(t) => if has_prefix(url, https_prefix()) {
                seq![GitActionView::SetRemoteUrl { url: format_ssh_spec(t.0, t.1, t.2) }]
            } else {
                Seq::empty()
            },
            None => Seq::empty(),
        },
        None => Seq::empty(),
    }
}

/// The remote part of a GH plan: an SSH remote (either form) that parses is
/// rewritten to HTTPS, and the host is probed for a delegated credential.
pub open spec fn gh_remote_actions(remote: Option<Seq<char>>) -> Seq<GitActionView> {
    match remote {
        Some(url) => match parse_remote_spec(url) {
            Some(t) => (if has_prefix(url, git_at_prefix()) || has_prefix(url, ssh_prefix()) {
                seq![GitActionView::SetRemoteUrl { url: format_https_spec(t.0, t.1, t.2) }]
            } else {
                Seq::empty()
            }) + seq![GitActionView::ProbeCredential { host: t.0 }],
            None => Seq::empty(),
        },
        None => Seq::empty(),
    }
}

/// The whole plan for applying a profile: the identity is always set first;
/// what follows depends on the target mode.
pub open spec fn apply_plan_spec(p: ProfileView, remote: Option<Seq<char>>) -> Seq<GitActionView> {
    seq![GitActionView::SetIdentity { name: p.name, email: p.email }] + match p.auth_type {
        AuthType::SSH => ssh_key_actions(p) + ssh_remote_actions(remote) + seq![
            GitActionView::ClearCredentialHelper,
        ],
        AuthType::GH => gh_remote_actions(remote) + seq![
            GitActionView::SetCredentialHelper { command: gh_helper_command() },
            GitActionView::ClearSshCommand,
        ],
        AuthType::NoAuth => seq![
            GitActionView::ClearSshCommand,
            GitActionView::ClearCredentialHelper,
        ],
    }
}

/// The plan for detaching a repository from any profile: clear the
/// identity, the SSH override and the credential helper.
pub open spec fn reset_plan_spec() -> Seq<GitActionView> {
    seq![
        GitActionView::ClearIdentity,
        GitActionView::ClearSshCommand,
        GitActionView::ClearCredentialHelper,
    ]
}

/// Builds the SSH command override for a key path.
pub fn build_ssh_command(key_path: &str) -> (r: String)
    ensures
        r@ == ssh_command_spec(key_path@),
{
    let mut s = String::from_str("ssh -i ");
    s.append(key_path);
    s.append(" -F /dev/null");
    s
}

/// Computes the ordered configuration changes that reconcile a repository
/// with `profile`, given the current remote URL (or none).
pub fn compute_apply_plan(profile: &Profile, remote_url: &Option<String>) -> (plan: Vec<GitAction>)
    ensures
        plan.deep_view() == apply_plan_spec(profile@, remote_url.deep_view()),
{
    let mut plan: Vec<GitAction> = Vec::new();
    plan.push(
        GitAction::SetIdentity { name: profile.name.clone(), email: profile.email.clone() },
    );
    match profile.auth_type {
        AuthType::SSH => {
            match &profile.ssh_key_path {
                Some(key) => {
                    plan.push(GitAction::SetSshCommand { command: build_ssh_command(key.as_str()) });
                },
                None => {},
            }
            match remote_url {
                Some(url) => {
                    match parse_remote(url.as_str()) {
                        Some(triple) => {
                            if starts_with_str(url.as_str(), "https://") {
                                proof {
                                    reveal_strlit("https://");
                                    assert("https://"@ =~= https_prefix());
                                }
                                let ssh_url = to_ssh(
                                    triple.0.as_str(),
                                    triple.1.as_str(),
                                    triple.2.as_str(),
                                );
                                plan.push(GitAction::SetRemoteUrl { url: ssh_url });
                            } else {
                                proof {
                                    reveal_strlit("https://");
                                    assert("https://"@ =~= https_prefix());
                                }
                            }
                        },
                        None => {},
                    }
                },
                None => {},
            }
            plan.push(GitAction::ClearCredentialHelper);
            proof {
                assert(plan.deep_view() =~= apply_plan_spec(profile@, remote_url.deep_view()));
            }
        },
        AuthType::GH => {
            match remote_url {
                Some(url) => {
                    match parse_remote(url.as_str()) {
                        Some(triple) => {
                            let is_ssh_form = starts_with_str(url.as_str(), "git@")
                                || starts_with_str(url.as_str(), "ssh://");
                            proof {
                                reveal_strlit("git@");
                                reveal_strlit("ssh://");
                                assert("git@"@ =~= git_at_prefix());
                                assert("ssh://"@ =~= ssh_prefix());
                            }
                            if is_ssh_form {
                                let https_url = to_https(
                                    triple.0.as_str(),
                                    triple.1.as_str(),
                                    triple.2.as_str(),
                                );
                                plan.push(GitAction::SetRemoteUrl { url: https_url });
                            }
                            plan.push(GitAction::ProbeCredential { host: triple.0 });
                        },
                        None => {},
                    }
                },
                None => {},
            }
            plan.push(
                GitAction::SetCredentialHelper {
                    command: String::from_str("!gh auth git-credential"),
                },
            );
            plan.push(GitAction::ClearSshCommand);
            proof {
                assert(plan.deep_view() =~= apply_plan_spec(profile@, remote_url.deep_view()));
            }
        },
        AuthType::NoAuth => {
            plan.push(GitAction::ClearSshCommand);
            plan.push(GitAction::ClearCredentialHelper);
            proof {
                assert(plan.deep_view() =~= apply_plan_spec(profile@, remote_url.deep_view()));
            }
        },
    }
    plan
}

/// Computes the ordered configuration changes that detach a repository from
/// any profile.
pub fn compute_reset_plan() -> (plan: Vec<GitAction>)
    ensures
        plan.deep_view() == reset_plan_spec(),
{
    let mut plan: Vec<GitAction> = Vec::new();
    plan.push(GitAction::ClearIdentity);
    plan.push(GitAction::ClearSshCommand);
    plan.push(GitAction::ClearCredentialHelper);
    proof {
        assert(plan.deep_view() =~= reset_plan_spec());
    }
    plan
}

/// Law: applying a profile whose mode is `NoAuth` sets the identity and
/// clears both the SSH override and the credential helper, and nothing
/// else; in particular no action touches the remote URL, whatever it is.
pub proof fn lemma_apply_no_auth_leaves_remote(p: ProfileView, remote: Option<Seq<char>>)
    requires
        p.auth_type == AuthType::NoAuth,
    ensures
        apply_plan_spec(p, remote) =~= seq![
            GitActionView::SetIdentity { name: p.name, email: p.email },
            GitActionView::ClearSshCommand,
            GitActionView::ClearCredentialHelper,
        ],
        forall|i: int|
            0 <= i < apply_plan_spec(p, remote).len() ==> !(apply_plan_spec(p, remote)[i]
                is SetRemoteUrl),
{
}

} // verus!
