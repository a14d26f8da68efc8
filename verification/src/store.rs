//! The application core: the profile store, the project→profile binding
//! store, and the operations the surrounding command-line shell calls.
//!
//! `App` holds both documents in memory as entry lists with unique keys;
//! the unverified shell loads them from disk before an operation and writes
//! them back afterwards, whole, so every contract here speaks of the two
//! `Map` views.

use vstd::prelude::*;
use vstd::string::*;

use crate::auth::AuthType;
use crate::error::{Error, ErrorKind};
use crate::kv::{
    kv_find, kv_keys_unique, kv_map, lemma_kv_contains, lemma_kv_push, lemma_kv_remove,
    lemma_kv_remove_clears_key, lemma_kv_value,
};
use crate::plan::{apply_plan_spec, compute_apply_plan, compute_reset_plan, reset_plan_spec, GitAction};
use crate::profile::{fields_allowed_for, Profile, ProfileView};

verus! {

/// The message reporting a duplicate profile id.
pub open spec fn msg_already_exists(id: Seq<char>) -> Seq<char> {
    "profile '"@ + id + "' already exists"@
}

/// The message reporting a missing profile id.
pub open spec fn msg_profile_not_found(id: Seq<char>) -> Seq<char> {
    "profile '"@ + id + "' not found"@
}

/// The message reporting a project with no usable binding.
pub open spec fn msg_no_binding(project: Seq<char>) -> Seq<char> {
    "profile not found for '"@ + project + "'"@
}

/// The message rejecting an update that sets a field the stored mode
/// forbids.
pub open spec fn msg_invalid_update(stored: AuthType) -> Seq<char> {
    match stored {
        AuthType::NoAuth => "you cannot update 'hostname' or 'ssh_key_path' for 'none' auth type"@,
        AuthType::SSH => "you cannot update 'hostname' for 'ssh' auth type"@,
        AuthType::GH => "you cannot update 'ssh_key_path' for 'gh' auth type"@,
    }
}

/// `prefix + id + suffix`, for the messages above.
fn keyed_message(prefix: &str, id: &str, suffix: &str) -> (m: String)
    ensures
        m@ == prefix@ + id@ + suffix@,
{
    let mut m = String::from_str(prefix);
    m.append(id);
    m.append(suffix);
    m
}

/// The in-memory image of the two persisted documents.
pub struct App {
    profiles: Vec<(String, Profile)>,
    bindings: Vec<(String, String)>,
}

impl App {
    /// The id → profile map.
    pub closed spec fn profiles_map(&self) -> Map<Seq<char>, ProfileView> {
        kv_map(self.profiles@)
    }

    /// The project identifier → profile id map.
    pub closed spec fn bindings_map(&self) -> Map<Seq<char>, Seq<char>> {
        kv_map(self.bindings@)
    }

    /// Both entry lists carry each key at most once.
    pub closed spec fn wf(&self) -> bool {
        kv_keys_unique(self.profiles@) && kv_keys_unique(self.bindings@)
    }

    /// An empty store.
    pub fn new() -> (a: App)
        ensures
            a.wf(),
            a.profiles_map() == Map::<Seq<char>, ProfileView>::empty(),
            a.bindings_map() == Map::<Seq<char>, Seq<char>>::empty(),
    {
        App { profiles: Vec::new(), bindings: Vec::new() }
    }

    /// Adds a profile under a fresh id; a taken id is refused and nothing
    /// changes.
    pub fn add_profile(&mut self, profile_name: String, profile: Profile) -> (r: Result<(), Error>)
        requires
            old(self).wf(),
        ensures
            final(self).wf(),
            match r {
                Ok(()) => {
                    &&& !old(self).profiles_map().contains_key(profile_name@)
                    &&& final(self).profiles_map() == old(self).profiles_map().insert(
                        profile_name@,
                        profile@,
                    )
                    &&& final(self).bindings_map() == old(self).bindings_map()
                },
                Err(e) => {
                    &&& old(self).profiles_map().contains_key(profile_name@)
                    &&& final(self).profiles_map() == old(self).profiles_map()
                    &&& final(self).bindings_map() == old(self).bindings_map()
                    &&& e.kind == ErrorKind::AlreadyExists
                    &&& e.message@ == msg_already_exists(profile_name@)
                },
            },
    {
        proof {
            lemma_kv_contains(self.profiles@, profile_name@);
        }
        match kv_find(&self.profiles, profile_name.as_str()) {
            Some(_) => Err(
                Error::new(
                    ErrorKind::AlreadyExists,
                    keyed_message("profile '", profile_name.as_str(), "' already exists"),
                ),
            ),
            None => {
                proof {
                    lemma_kv_push(self.profiles@, profile_name, profile);
                }
                self.profiles.push((profile_name, profile));
                Ok(())
            },
        }
    }

    /// Replaces a stored profile. The incoming profile may not set a field
    /// that the *currently stored* mode forbids; a missing id is refused.
    pub fn update_profile(&mut self, profile_name: String, profile: Profile) -> (r: Result<
        (),
        Error,
    >)
        requires
            old(self).wf(),
        ensures
            final(self).wf(),
            match r {
                Ok(()) => {
                    &&& old(self).profiles_map().contains_key(profile_name@)
                    &&& fields_allowed_for(
                        old(self).profiles_map()[profile_name@].auth_type,
                        profile@,
                    )
                    &&& final(self).profiles_map() == old(self).profiles_map().insert(
                        profile_name@,
                        profile@,
                    )
                    &&& final(self).bindings_map() == old(self).bindings_map()
                },
                Err(e) => {
                    &&& final(self).profiles_map() == old(self).profiles_map()
                    &&& final(self).bindings_map() == old(self).bindings_map()
                    &&& if !old(self).profiles_map().contains_key(profile_name@) {
                        e.kind == ErrorKind::NotFound && e.message@ == msg_profile_not_found(
                            profile_name@,
                        )
                    } else {
                        &&& !fields_allowed_for(
                            old(self).profiles_map()[profile_name@].auth_type,
                            profile@,
                        )
                        &&& e.kind == ErrorKind::InvalidData
                        &&& e.message@ == msg_invalid_update(
                            old(self).profiles_map()[profile_name@].auth_type,
                        )
                    }
                },
            },
    {
        proof {
            lemma_kv_contains(self.profiles@, profile_name@);
        }
        match kv_find(&self.profiles, profile_name.as_str()) {
            None => Err(
                Error::new(
                    ErrorKind::NotFound,
                    keyed_message("profile '", profile_name.as_str(), "' not found"),
                ),
            ),
            Some(i) => {
                proof {
                    lemma_kv_value(self.profiles@, i as int);
                }
                let stored_auth = self.profiles[i].1.auth_type;
                let rejected: Option<&str> = match stored_auth {
                    AuthType::NoAuth => {
                        if profile.hostname.is_some() || profile.ssh_key_path.is_some() {
                            Some("you cannot update 'hostname' or 'ssh_key_path' for 'none' auth type")
                        } else {
                            None
                        }
                    },
                    AuthType::SSH => {
                        if profile.hostname.is_some() {
                            Some("you cannot update 'hostname' for 'ssh' auth type")
                        } else {
                            None
                        }
                    },
                    AuthType::GH => {
                        if profile.ssh_key_path.is_some() {
                            Some("you cannot update 'ssh_key_path' for 'gh' auth type")
                        } else {
                            None
                        }
                    },
                };
                match rejected {
                    Some(text) => Err(Error::new(ErrorKind::InvalidData, text.to_owned())),
                    None => {
                        proof {
                            lemma_kv_remove(self.profiles@, i as int);
                            lemma_kv_remove_clears_key(self.profiles@, i as int);
                        }
                        let ghost before = self.profiles@;
                        let _ = self.profiles.remove(i);
                        proof {
                            lemma_kv_push(self.profiles@, profile_name, profile);
                        }
                        self.profiles.push((profile_name, profile));
                        proof {
                            assert(kv_map(before).remove(profile_name@).insert(
                                profile_name@,
                                profile@,
                            ) =~= kv_map(before).insert(profile_name@, profile@));
                        }
                        Ok(())
                    },
                }
            },
        }
    }

    /// Removes a stored profile; a missing id is refused.
    pub fn delete_profile(&mut self, profile_name: String) -> (r: Result<(), Error>)
        requires
            old(self).wf(),
        ensures
            final(self).wf(),
            match r {
                Ok(()) => {
                    &&& old(self).profiles_map().contains_key(profile_name@)
                    &&& final(self).profiles_map() == old(self).profiles_map().remove(
                        profile_name@,
                    )
                    &&& final(self).bindings_map() == old(self).bindings_map()
                },
                Err(e) => {
                    &&& !old(self).profiles_map().contains_key(profile_name@)
                    &&& final(self).profiles_map() == old(self).profiles_map()
                    &&& final(self).bindings_map() == old(self).bindings_map()
                    &&& e.kind == ErrorKind::NotFound
                    &&& e.message@ == msg_profile_not_found(profile_name@)
                },
            },
    {
        proof {
            lemma_kv_contains(self.profiles@, profile_name@);
        }
        match kv_find(&self.profiles, profile_name.as_str()) {
            None => Err(
                Error::new(
                    ErrorKind::NotFound,
                    keyed_message("profile '", profile_name.as_str(), "' not found"),
                ),
            ),
            Some(i) => {
                proof {
                    lemma_kv_remove(self.profiles@, i as int);
                }
                let _ = self.profiles.remove(i);
                Ok(())
            },
        }
    }

    /// The stored profile under an id, if any.
    pub fn get_profile(&self, profile_name: &str) -> (r: Option<Profile>)
        requires
            self.wf(),
        ensures
            match r {
                Some(p) => self.profiles_map().contains_key(profile_name@) && p@
                    == self.profiles_map()[profile_name@],
                None => !self.profiles_map().contains_key(profile_name@),
            },
    {
        proof {
            lemma_kv_contains(self.profiles@, profile_name@);
        }
        match kv_find(&self.profiles, profile_name) {
            Some(i) => {
                proof {
                    lemma_kv_value(self.profiles@, i as int);
                }
                Some(self.profiles[i].1.duplicate())
            },
            None => None,
        }
    }

    /// Every stored profile, as id/profile entries with unique keys.
    pub fn list_profiles(&self) -> (r: Vec<(String, Profile)>)
        requires
            self.wf(),
        ensures
            kv_map(r@) == self.profiles_map(),
            kv_keys_unique(r@),
    {
        let n = self.profiles.len();
        let mut out: Vec<(String, Profile)> = Vec::new();
        let mut i: usize = 0;
        while i < n
            invariant
                n == self.profiles@.len(),
                0 <= i <= n,
                out@ == self.profiles@.take(i as int),
            decreases n - i,
        {
            let entry = (self.profiles[i].0.clone(), self.profiles[i].1.duplicate());
            proof {
                assert(entry == self.profiles@[i as int]);
            }
            out.push(entry);
            proof {
                assert(out@ =~= self.profiles@.take(i as int + 1));
            }
            i = i + 1;
        }
        proof {
            assert(out@ =~= self.profiles@);
        }
        out
    }

    /// Every project binding, as project/profile-id entries with unique
    /// keys.
    pub fn list_project_bindings(&self) -> (r: Vec<(String, String)>)
        requires
            self.wf(),
        ensures
            kv_map(r@) == self.bindings_map(),
            kv_keys_unique(r@),
    {
        let n = self.bindings.len();
        let mut out: Vec<(String, String)> = Vec::new();
        let mut i: usize = 0;
        while i < n
            invariant
                n == self.bindings@.len(),
                0 <= i <= n,
                out@ == self.bindings@.take(i as int),
            decreases n - i,
        {
            let entry = (self.bindings[i].0.clone(), self.bindings[i].1.clone());
            proof {
                assert(entry == self.bindings@[i as int]);
            }
            out.push(entry);
            proof {
                assert(out@ =~= self.bindings@.take(i as int + 1));
            }
            i = i + 1;
        }
        proof {
            assert(out@ =~= self.bindings@);
        }
        out
    }

    /// Binds a project identifier to a profile id, overwriting any earlier
    /// binding; overwriting is no error.
    pub fn bind_project(&mut self, project_id: String, profile_id: String)
        requires
            old(self).wf(),
        ensures
            final(self).wf(),
            final(self).profiles_map() == old(self).profiles_map(),
            final(self).bindings_map() == old(self).bindings_map().insert(
                project_id@,
                profile_id@,
            ),
    {
        match kv_find(&self.bindings, project_id.as_str()) {
            Some(i) => {
                proof {
                    lemma_kv_remove(self.bindings@, i as int);
                    lemma_kv_remove_clears_key(self.bindings@, i as int);
                }
                let ghost before = self.bindings@;
                let _ = self.bindings.remove(i);
                proof {
                    lemma_kv_push(self.bindings@, project_id, profile_id);
                }
                self.bindings.push((project_id, profile_id));
                proof {
                    assert(kv_map(before).remove(project_id@).insert(project_id@, profile_id@)
                        =~= kv_map(before).insert(project_id@, profile_id@));
                }
            },
            None => {
                proof {
                    lemma_kv_push(self.bindings@, project_id, profile_id);
                }
                self.bindings.push((project_id, profile_id));
            },
        }
    }

    /// The profile id a project is bound to; an unbound project is refused.
    pub fn project_binding(&self, project_id: &str) -> (r: Result<String, Error>)
        requires
            self.wf(),
        ensures
            match r {
                Ok(p) => self.bindings_map().contains_key(project_id@) && p@
                    == self.bindings_map()[project_id@],
                Err(e) => {
                    &&& !self.bindings_map().contains_key(project_id@)
                    &&& e.kind == ErrorKind::NotFound
                    &&& e.message@ == msg_no_binding(project_id@)
                },
            },
    {
        proof {
            lemma_kv_contains(self.bindings@, project_id@);
        }
        match kv_find(&self.bindings, project_id) {
            Some(i) => {
                proof {
                    lemma_kv_value(self.bindings@, i as int);
                }
                Ok(self.bindings[i].1.clone())
            },
            None => Err(
                Error::new(
                    ErrorKind::NotFound,
                    keyed_message("profile not found for '", project_id, "'"),
                ),
            ),
        }
    }

    /// Looks up a profile, records the project binding, and computes the
    /// reconciliation plan for the given remote-URL snapshot. The binding
    /// is recorded whatever the plan's later execution does.
    pub fn use_profile(
        &mut self,
        profile_name: String,
        repo_name: String,
        remote_url: Option<String>,
    ) -> (r: Result<Vec<GitAction>, Error>)
        requires
            old(self).wf(),
        ensures
            final(self).wf(),
            match r {
                Ok(plan) => {
                    &&& old(self).profiles_map().contains_key(profile_name@)
                    &&& final(self).profiles_map() == old(self).profiles_map()
                    &&& final(self).bindings_map() == old(self).bindings_map().insert(
                        repo_name@,
                        profile_name@,
                    )
                    &&& plan.deep_view() == apply_plan_spec(
                        old(self).profiles_map()[profile_name@],
                        remote_url.deep_view(),
                    )
                },
                Err(e) => {
                    &&& !old(self).profiles_map().contains_key(profile_name@)
                    &&& final(self).profiles_map() == old(self).profiles_map()
                    &&& final(self).bindings_map() == old(self).bindings_map()
                    &&& e.kind == ErrorKind::NotFound
                    &&& e.message@ == msg_profile_not_found(profile_name@)
                },
            },
    {
        proof {
            lemma_kv_contains(self.profiles@, profile_name@);
        }
        let profile = match kv_find(&self.profiles, profile_name.as_str()) {
            Some(i) => {
                proof {
                    lemma_kv_value(self.profiles@, i as int);
                }
                self.profiles[i].1.duplicate()
            },
            None => {
                return Err(
                    Error::new(
                        ErrorKind::NotFound,
                        keyed_message("profile '", profile_name.as_str(), "' not found"),
                    ),
                );
            },
        };
        self.bind_project(repo_name, profile_name);
        let plan = compute_apply_plan(&profile, &remote_url);
        Ok(plan)
    }

    /// The profile a project is bound to, with the project identifier; a
    /// project that is unbound, or bound to an id with no stored profile,
    /// is refused.
    pub fn get_project_profile(&self, repo_name: &str) -> (r: Result<(Profile, String), Error>)
        requires
            self.wf(),
        ensures
            match r {
                Ok(pr) => {
                    &&& self.bindings_map().contains_key(repo_name@)
                    &&& self.profiles_map().contains_key(self.bindings_map()[repo_name@])
                    &&& pr.0@ == self.profiles_map()[self.bindings_map()[repo_name@]]
                    &&& pr.1@ == repo_name@
                },
                Err(e) => {
                    &&& (!self.bindings_map().contains_key(repo_name@) || !self.profiles_map()
                        .contains_key(self.bindings_map()[repo_name@]))
                    &&& e.kind == ErrorKind::NotFound
                    &&& e.message@ == msg_no_binding(repo_name@)
                },
            },
    {
        proof {
            lemma_kv_contains(self.bindings@, repo_name@);
        }
        match kv_find(&self.bindings, repo_name) {
            Some(i) => {
                proof {
                    lemma_kv_value(self.bindings@, i as int);
                    lemma_kv_contains(self.profiles@, self.bindings@[i as int].1@);
                }
                match kv_find(&self.profiles, self.bindings[i].1.as_str()) {
                    Some(j) => {
                        proof {
                            lemma_kv_value(self.profiles@, j as int);
                        }
                        Ok((self.profiles[j].1.duplicate(), repo_name.to_owned()))
                    },
                    None => Err(
                        Error::new(
                            ErrorKind::NotFound,
                            keyed_message("profile not found for '", repo_name, "'"),
                        ),
                    ),
                }
            },
            None => Err(
                Error::new(
                    ErrorKind::NotFound,
                    keyed_message("profile not found for '", repo_name, "'"),
                ),
            ),
        }
    }

    /// Drops the project's binding, if any, and computes the plan that
    /// clears identity, SSH override and credential helper. Resetting an
    /// unbound project is a no-op on the store, never an error.
    pub fn reset_profile_for_project(&mut self, repo_name: &str) -> (plan: Vec<GitAction>)
        requires
            old(self).wf(),
        ensures
            final(self).wf(),
            final(self).profiles_map() == old(self).profiles_map(),
            final(self).bindings_map() == old(self).bindings_map().remove(repo_name@),
            plan.deep_view() == reset_plan_spec(),
    {
        proof {
            lemma_kv_contains(self.bindings@, repo_name@);
        }
        match kv_find(&self.bindings, repo_name) {
            Some(i) => {
                proof {
                    lemma_kv_remove(self.bindings@, i as int);
                }
                let _ = self.bindings.remove(i);
            },
            None => {
                proof {
                    assert(kv_map(self.bindings@).remove(repo_name@) =~= kv_map(self.bindings@));
                }
            },
        }
        compute_reset_plan()
    }
}

/// Law: adding a profile under a fresh id stores exactly that profile, so
/// a following lookup of the id yields it; and the id is then taken, so a
/// second add of the same id must report that it already exists.
pub proof fn lemma_add_then_get(m: Map<Seq<char>, ProfileView>, id: Seq<char>, p: ProfileView)
    requires
        !m.contains_key(id),
    ensures
        m.insert(id, p).contains_key(id),
        m.insert(id, p)[id] == p,
{
}

/// Law: binding a project and then resetting it removes the binding, and a
/// second reset changes nothing — resetting is idempotent. The
/// configuration side of a reset is fixed by `reset_plan_spec`: it clears
/// identity, SSH override and credential helper.
pub proof fn lemma_bind_then_reset(
    m: Map<Seq<char>, Seq<char>>,
    project: Seq<char>,
    profile: Seq<char>,
)
    ensures
        !m.insert(project, profile).remove(project).contains_key(project),
        m.insert(project, profile).remove(project).remove(project) == m.insert(
            project,
            profile,
        ).remove(project),
{
    assert(m.insert(project, profile).remove(project).remove(project) =~= m.insert(
        project,
        profile,
    ).remove(project));
}

} // verus!
