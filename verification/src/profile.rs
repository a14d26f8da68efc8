//! Profiles: an identity plus an authentication mode and its settings.

use vstd::prelude::*;

use crate::auth::AuthType;

verus! {

/// A named identity/authentication profile.
///
/// `hostname` is meaningful only under `AuthType::GH`, `ssh_key_path` only
/// under `AuthType::SSH`; under `AuthType::NoAuth` both are absent. The store
/// enforces this on update against the currently stored mode.
#[derive(Clone, Debug, PartialEq)]
pub struct Profile {
    /// Stable key of the profile, distinct from its display name.
    pub id: String,
    /// Identity name written to the repository configuration.
    pub name: String,
    /// Identity email written to the repository configuration.
    pub email: String,
    /// The authentication mode.
    pub auth_type: AuthType,
    /// Host of the delegated-helper account, for `AuthType::GH`.
    pub hostname: Option<String>,
    /// Path of the SSH key to pin, for `AuthType::SSH`.
    pub ssh_key_path: Option<String>,
}

/// The mathematical image of a `Profile`.
pub struct ProfileView {
    pub id: Seq<char>,
    pub name: Seq<char>,
    pub email: Seq<char>,
    pub auth_type: AuthType,
    pub hostname: Option<Seq<char>>,
    pub ssh_key_path: Option<Seq<char>>,
}

impl View for Profile {
    type V = ProfileView;

    open spec fn view(&self) -> ProfileView {
        ProfileView {
            id: self.id@,
            name: self.name@,
            email: self.email@,
            auth_type: self.auth_type,
            hostname: self.hostname.deep_view(),
            ssh_key_path: self.ssh_key_path.deep_view(),
        }
    }
}

impl DeepView for Profile {
    type V = ProfileView;

    open spec fn deep_view(&self) -> ProfileView {
        self.view()
    }
}

/// Whether a profile's optional fields are allowed beside the stored mode:
/// `None` forbids both, `SSH` forbids `hostname`, `GH` forbids
/// `ssh_key_path`.
pub open spec fn fields_allowed_for(stored: AuthType, p: ProfileView) -> bool {
    match stored {
        AuthType::NoAuth => p.hostname is None && p.ssh_key_path is None,
        AuthType::SSH => p.hostname is None,
        AuthType::GH => p.ssh_key_path is None,
    }
}

impl Profile {
    /// Assembles a profile from its parts.
    pub fn build(
        id: String,
        name: String,
        email: String,
        auth_type: AuthType,
        hostname: Option<String>,
        ssh_key_path: Option<String>,
    ) -> (p: Profile)
        ensures
            p@ == (ProfileView {
                id: id@,
                name: name@,
                email: email@,
                auth_type,
                hostname: hostname.deep_view(),
                ssh_key_path: ssh_key_path.deep_view(),
            }),
    {
        Profile { id, name, email, auth_type, hostname, ssh_key_path }
    }

    /// A copy that is provably the same value.
    pub fn duplicate(&self) -> (p: Profile)
        ensures
            p == self,
    {
        Profile {
            id: self.id.clone(),
            name: self.name.clone(),
            email: self.email.clone(),
            auth_type: self.auth_type,
            hostname: clone_opt_string(&self.hostname),
            ssh_key_path: clone_opt_string(&self.ssh_key_path),
        }
    }
}

/// A copy of an optional string that is provably the same value.
fn clone_opt_string(o: &Option<String>) -> (r: Option<String>)
    ensures
        r == o,
{
    match o {
        Some(s) => Some(s.clone()),
        None => None,
    }
}

} // verus!
