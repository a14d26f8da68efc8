use octopush::auth::AuthType;
use octopush::error::ErrorKind;
use octopush::plan::GitAction;
use octopush::profile::Profile;
use octopush::store::App;

fn get_profiles<'a>() -> ((&'a str, Profile), (&'a str, Profile)) {
    let profile_1 = Profile::build(
        "profile_1_profile_name".to_string(),
        "profile_1_name".to_string(),
        "profile-1@email.com".to_string(),
        AuthType::SSH,
        None,
        Some("~/.ssh/id_rsa".to_string()),
    );

    let profile_2 = Profile::build(
        "profile_2_profile_name".to_string(),
        "profile_2_name".to_string(),
        "profile-2@email.com".to_string(),
        AuthType::GH,
        Some("mycompany.github.com".to_string()),
        None,
    );

    (
        ("profile_1_profile_name", profile_1),
        ("profile_2_profile_name", profile_2),
    )
}

#[test]
fn adds_profile_successfully() {
    let mut app = App::new();

    let ((profile_1_name, profile_1), _) = get_profiles();

    app.add_profile(profile_1_name.to_string(), profile_1).unwrap();
}

#[test]
fn errors_on_duplicate_profile() {
    let mut app = App::new();

    let ((profile_1_name, profile_1), _) = get_profiles();

    app.add_profile(profile_1_name.to_string(), profile_1.clone())
        .unwrap();
    let result = app.add_profile(profile_1_name.to_string(), profile_1);

    let err = result.unwrap_err();

    assert_eq!(err.kind(), ErrorKind::AlreadyExists);
    assert_eq!(
        err.message(),
        format!("profile '{}' already exists", profile_1_name)
    );
}

#[test]
fn updates_profile_successfully() {
    let mut app = App::new();

    let ((profile_1_name, mut profile_1), _) = get_profiles();

    app.add_profile(profile_1_name.to_string(), profile_1.clone())
        .unwrap();
    app.update_profile(profile_1_name.to_string(), profile_1.clone())
        .unwrap();

    profile_1.name = "isim".to_string();

    app.update_profile(profile_1_name.to_string(), profile_1.clone())
        .unwrap();
    let updated_profile = app.get_profile(profile_1_name);

    assert!(updated_profile.is_some());
    assert_eq!(updated_profile.unwrap(), profile_1);
}

#[test]
fn errors_on_nonexistent_profile() {
    let mut app = App::new();

    let ((profile_1_name, profile_1), _) = get_profiles();

    let result = app.update_profile(profile_1_name.to_string(), profile_1);
    let err = result.unwrap_err();

    assert_eq!(err.kind(), ErrorKind::NotFound);
    assert_eq!(
        err.message(),
        format!("profile '{}' not found", profile_1_name)
    );
}

#[test]
fn errors_when_updating_wrong_profile_fields() {
    let mut app = App::new();

    // profile auth types in order: 1 ssh, 2 gh, 3 none
    let ((profile_1_name, mut profile_1), (profile_2_name, mut profile_2)) = get_profiles();
    let profile_3_name = "profile_3_name";
    let mut profile_3 = Profile::build(
        profile_3_name.to_string(),
        "profile_3".to_string(),
        "profile_3@mail.com".to_string(),
        AuthType::NoAuth,
        None,
        None,
    );

    app.add_profile(profile_1_name.to_string(), profile_1.clone())
        .unwrap();
    app.add_profile(profile_2_name.to_string(), profile_2.clone())
        .unwrap();
    app.add_profile(profile_3_name.to_string(), profile_3.clone())
        .unwrap();

    // update wrong fields
    profile_1.hostname = Some("hostname.github.com".to_owned());
    profile_2.ssh_key_path = Some("some_path/to_key".to_owned());
    profile_3.hostname = Some("hostname.github.com".to_owned());

    let result = app.update_profile(profile_1_name.to_string(), profile_1);
    let err = result.unwrap_err();

    assert_eq!(err.kind(), ErrorKind::InvalidData);
    assert_eq!(
        err.message(),
        format!("you cannot update 'hostname' for 'ssh' auth type"),
    );

    let result = app.update_profile(profile_2_name.to_string(), profile_2);
    let err = result.unwrap_err();

    assert_eq!(err.kind(), ErrorKind::InvalidData);
    assert_eq!(
        err.message(),
        format!("you cannot update 'ssh_key_path' for 'gh' auth type"),
    );

    let result = app.update_profile(profile_3_name.to_string(), profile_3);
    let err = result.unwrap_err();

    assert_eq!(err.kind(), ErrorKind::InvalidData);
    assert_eq!(
        err.message(),
        format!("you cannot update 'hostname' or 'ssh_key_path' for 'none' auth type"),
    );
}

#[test]
fn delete_profile_successfully() {
    let mut app = App::new();

    let ((profile_1_name, profile_1), _) = get_profiles();

    app.add_profile(profile_1_name.to_string(), profile_1).unwrap();

    let profile = app.get_profile(profile_1_name);
    assert!(profile.is_some());

    app.delete_profile(profile_1_name.to_string()).unwrap();

    let profile = app.get_profile(profile_1_name);
    assert!(profile.is_none());
}

#[test]
fn errors_when_deleting_nonexistent_profile() {
    let mut app = App::new();

    let profile_name = "profile_name";
    let result = app.delete_profile(profile_name.to_owned());
    let err = result.unwrap_err();

    assert_eq!(err.kind(), ErrorKind::NotFound);
    assert_eq!(
        err.message(),
        format!("profile '{}' not found", profile_name)
    );
}

#[test]
fn reads_profile_when_no_profiles_exist_returns_none() {
    let app = App::new();

    let result = app.get_profile("profile_1_name");

    assert!(result.is_none());
}

#[test]
fn reads_profiles_when_no_profiles_exist_returns_empty_hashmap() {
    let app = App::new();

    let result = app.list_profiles();

    assert!(result.is_empty());
}

#[test]
fn reads_profile_when_profiles_exist_returns_profile() {
    let mut app = App::new();
    let ((profile_name, profile), _) = get_profiles();

    app.add_profile(profile_name.to_string(), profile.clone())
        .unwrap();

    let mut found_profile = app.get_profile(profile_name);

    assert!(!found_profile.is_none());
    assert_eq!(found_profile.take(), Some(profile.clone()));
}

#[test]
fn reads_profiles_when_profiles_exist_returns_profile() {
    let mut app = App::new();
    let ((profile_1_name, profile_1), (profile_2_name, profile_2)) = get_profiles();

    app.add_profile(profile_1_name.to_string(), profile_1.clone())
        .unwrap();
    app.add_profile(profile_2_name.to_string(), profile_2.clone())
        .unwrap();

    let found_profiles = app.list_profiles();

    assert!(!found_profiles.is_empty());
    let found_1 = found_profiles
        .iter()
        .find(|(id, _)| id == profile_1_name)
        .map(|(_, p)| p.clone());
    let found_2 = found_profiles
        .iter()
        .find(|(id, _)| id == profile_2_name)
        .map(|(_, p)| p.clone());
    assert_eq!(found_1.unwrap(), profile_1);
    assert_eq!(found_2.unwrap(), profile_2);
}

#[test]
fn reads_project_profile_when_no_profiles_exist_returns_none() {
    let app = App::new();

    let result = app.get_project_profile("repo_1");

    assert!(result.is_err());
    assert_eq!(result.unwrap_err().kind(), ErrorKind::NotFound);
}

#[test]
fn reads_project_profiles_when_no_profiles_exist_returns_empty_hashmap() {
    let app = App::new();

    let result = app.project_binding("repo_1");

    assert!(result.is_err());
    assert_eq!(result.unwrap_err().kind(), ErrorKind::NotFound);
}

#[test]
fn reads_project_profile_when_profile_exists_returns_profile() {
    let mut app = App::new();

    let ((profile_1_name, profile_1), _) = get_profiles();

    app.add_profile(profile_1_name.to_string(), profile_1.clone())
        .unwrap();
    app.bind_project("repo_1".to_string(), profile_1_name.to_string());

    let (found, _) = app.get_project_profile("repo_1").unwrap();

    assert_eq!(profile_1, found);
}

#[test]
fn reads_project_profiles_when_profiles_exist_returns_hashmap() {
    let mut app = App::new();

    let ((profile_1_name, profile_1), (profile_2_name, profile_2)) = get_profiles();

    app.add_profile(profile_1_name.to_string(), profile_1).unwrap();
    app.add_profile(profile_2_name.to_string(), profile_2).unwrap();

    app.bind_project("repo_1".to_string(), profile_1_name.to_string());
    app.bind_project("repo_2".to_string(), profile_2_name.to_string());

    assert_eq!(app.project_binding("repo_1").unwrap(), profile_1_name);
    assert_eq!(app.project_binding("repo_2").unwrap(), profile_2_name);
}

#[test]
fn use_profile_errors_when_missing_profile() {
    let mut app = App::new();

    let err = app
        .use_profile("nope".to_string(), "repo".to_string(), None)
        .unwrap_err();
    assert_eq!(err.kind(), ErrorKind::NotFound);
}

#[test]
fn use_profile_applies_ssh_and_records_mapping() {
    let mut app = App::new();

    // Arrange: an SSH profile and an https remote, which must be rewritten.
    let ((ssh_profile_name, ssh_profile), _) = get_profiles();
    app.add_profile(ssh_profile_name.to_string(), ssh_profile.clone())
        .unwrap();

    // Act
    let plan = app
        .use_profile(
            ssh_profile_name.to_string(),
            "repo".to_string(),
            Some("https://github.com/acme/app.git".to_string()),
        )
        .unwrap();

    // Assert: mapping exists for this repo
    assert_eq!(
        app.project_binding("repo").unwrap(),
        ssh_profile_name.to_string()
    );

    // Assert: identity set first
    assert_eq!(
        plan[0],
        GitAction::SetIdentity {
            name: ssh_profile.name.clone(),
            email: ssh_profile.email.clone(),
        }
    );

    // Assert: ssh command override pins the key path
    let has_ssh_command = plan.iter().any(|a| match a {
        GitAction::SetSshCommand { command } => command.contains("~/.ssh/id_rsa"),
        _ => false,
    });
    assert!(has_ssh_command);

    // Assert: remote rewritten to ssh
    let has_rewrite = plan.iter().any(|a| {
        a == &GitAction::SetRemoteUrl {
            url: "git@github.com:acme/app.git".to_string(),
        }
    });
    assert!(has_rewrite);

    // Assert: gh credential helper cleared, never set
    assert!(plan.iter().any(|a| a == &GitAction::ClearCredentialHelper));
    assert!(!plan
        .iter()
        .any(|a| matches!(a, GitAction::SetCredentialHelper { .. })));
}

#[test]
fn use_profile_applies_gh_and_records_mapping() {
    let mut app = App::new();

    // Arrange: a GH profile and an ssh remote, which must be rewritten.
    let (_, (gh_profile_name, gh_profile)) = get_profiles();
    app.add_profile(gh_profile_name.to_string(), gh_profile.clone())
        .unwrap();

    // Act
    let plan = app
        .use_profile(
            gh_profile_name.to_string(),
            "repo".to_string(),
            Some("git@github.com:acme/app.git".to_string()),
        )
        .unwrap();

    // Assert: mapping exists for this repo
    assert_eq!(
        app.project_binding("repo").unwrap(),
        gh_profile_name.to_string()
    );

    // Assert: identity set first
    assert_eq!(
        plan[0],
        GitAction::SetIdentity {
            name: gh_profile.name.clone(),
            email: gh_profile.email.clone(),
        }
    );

    // Assert: sshCommand cleared, never set
    assert!(plan.iter().any(|a| a == &GitAction::ClearSshCommand));
    assert!(!plan
        .iter()
        .any(|a| matches!(a, GitAction::SetSshCommand { .. })));

    // Assert: remote rewritten to https
    let has_rewrite = plan.iter().any(|a| {
        a == &GitAction::SetRemoteUrl {
            url: "https://github.com/acme/app.git".to_string(),
        }
    });
    assert!(has_rewrite);

    // Assert: gh credential helper set to the delegate command
    let has_helper = plan.iter().any(|a| {
        a == &GitAction::SetCredentialHelper {
            command: "!gh auth git-credential".to_string(),
        }
    });
    assert!(has_helper);
}

#[test]
fn use_profile_applies_none_clears_auth_helpers() {
    let mut app = App::new();

    // Arrange: a profile without delegated authentication.
    let profile_name = "none_profile";
    let none_profile = Profile::build(
        profile_name.to_string(),
        "None User".to_string(),
        "none@example.com".to_string(),
        AuthType::NoAuth,
        None,
        None,
    );
    app.add_profile(profile_name.to_string(), none_profile.clone())
        .unwrap();

    // Act
    let plan = app
        .use_profile(
            profile_name.to_string(),
            "repo".to_string(),
            Some("https://github.com/acme/app.git".to_string()),
        )
        .unwrap();

    // Assert: both overrides cleared, remote untouched
    assert_eq!(
        plan,
        vec![
            GitAction::SetIdentity {
                name: "None User".to_string(),
                email: "none@example.com".to_string(),
            },
            GitAction::ClearSshCommand,
            GitAction::ClearCredentialHelper,
        ]
    );
    assert!(!plan
        .iter()
        .any(|a| matches!(a, GitAction::SetRemoteUrl { .. })));
}

#[test]
fn get_project_profile_returns_selected_profile() {
    let mut app = App::new();

    // Arrange: store a profile and use it.
    let ((ssh_profile_name, ssh_profile), _) = get_profiles();
    app.add_profile(ssh_profile_name.to_string(), ssh_profile.clone())
        .unwrap();

    app.use_profile(ssh_profile_name.to_string(), "repo".to_string(), None)
        .unwrap();

    let (found_profile, _) = app.get_project_profile("repo").unwrap();

    // Assert
    assert_eq!(found_profile, ssh_profile);
}

#[test]
fn reset_profile_clears_mapping_and_git() {
    let mut app = App::new();

    // Arrange: store a profile and use it.
    let ((ssh_profile_name, ssh_profile), _) = get_profiles();
    app.add_profile(ssh_profile_name.to_string(), ssh_profile.clone())
        .unwrap();

    app.use_profile(ssh_profile_name.to_string(), "repo".to_string(), None)
        .unwrap();

    // Pre-verify mapping exists
    assert!(app.project_binding("repo").is_ok());

    // Act
    let plan = app.reset_profile_for_project("repo");

    // Assert: mapping removed
    assert!(app.project_binding("repo").is_err());

    // Assert: the plan clears identity, ssh override and credential helper
    assert_eq!(
        plan,
        vec![
            GitAction::ClearIdentity,
            GitAction::ClearSshCommand,
            GitAction::ClearCredentialHelper,
        ]
    );

    // Resetting again when nothing is bound is a no-op, not an error.
    let plan_again = app.reset_profile_for_project("repo");
    assert_eq!(plan_again, plan);
    assert!(app.project_binding("repo").is_err());
}

#[test]
fn rebinding_a_project_overwrites_without_error() {
    let mut app = App::new();

    let ((name_1, profile_1), (name_2, profile_2)) = get_profiles();
    app.add_profile(name_1.to_string(), profile_1).unwrap();
    app.add_profile(name_2.to_string(), profile_2).unwrap();

    app.use_profile(name_1.to_string(), "repo".to_string(), None)
        .unwrap();
    assert_eq!(app.project_binding("repo").unwrap(), name_1);

    // A project maps to at most one profile: the second use wins.
    app.use_profile(name_2.to_string(), "repo".to_string(), None)
        .unwrap();
    assert_eq!(app.project_binding("repo").unwrap(), name_2);
}
