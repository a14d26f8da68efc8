use octopush::output::OperationType;

#[test]
fn spinner_prompts_name_the_profile() {
    let (working, done, failed) = OperationType::AddProfile {
        profile_name: "work".to_string(),
    }
    .get_spinner_prompt();
    assert_eq!(working, "Adding new profile 'work'");
    assert_eq!(done, "Profile 'work' was successfully added");
    assert_eq!(failed, "Failed to add profile 'work'");

    let (working, done, failed) = OperationType::DeleteProfile {
        profile_name: "work".to_string(),
    }
    .get_spinner_prompt();
    assert_eq!(working, "Deleting profile 'work'");
    assert_eq!(done, "Profile 'work' was successfully deleted");
    assert_eq!(failed, "Failed to delete profile 'work'");

    let (working, done, failed) = OperationType::UseProfile {
        profile_name: "work".to_string(),
    }
    .get_spinner_prompt();
    assert_eq!(working, "Issuing profile 'work' for the repository");
    assert_eq!(
        done,
        "Profile 'work' has been successfully issued for the repository"
    );
    assert_eq!(failed, "Failed to issue profile 'work' for the repository");
}

#[test]
fn spinner_prompts_for_fixed_operations() {
    let (working, done, failed) = OperationType::ListProfiles.get_spinner_prompt();
    assert_eq!(working, "Fetching all profiles");
    assert_eq!(done, "Profiles successfully fetched");
    assert_eq!(failed, "Failed to fetch profiles");

    let (working, done, failed) = OperationType::GetProfile.get_spinner_prompt();
    assert_eq!(working, "Fetching current profile");
    assert_eq!(done, "Profile successfully fetched");
    assert_eq!(failed, "Failed to fetch profile");

    let (working, done, failed) = OperationType::ResetProfile.get_spinner_prompt();
    assert_eq!(working, "Switching global profile");
    assert_eq!(done, "Global profile successfully set for the repository");
    assert_eq!(failed, "Failed to reset global profile");
}
