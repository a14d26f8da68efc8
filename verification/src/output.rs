//! The user-facing operations and the three console prompts of each: the
//! line shown while working, on success, and on failure. The unverified
//! shell prints them; their wording is fixed here.

use vstd::prelude::*;
use vstd::string::*;

verus! {

/// One operation the command-line shell can run.
pub enum OperationType {
    AddProfile { profile_name: String },
    DeleteProfile { profile_name: String },
    ListProfiles,
    UseProfile { profile_name: String },
    GetProfile,
    ResetProfile,
}

/// `prefix + name + suffix`.
fn framed(prefix: &str, name: &str, suffix: &str) -> (m: String)
    ensures
        m@ == prefix@ + name@ + suffix@,
{
    let mut m = String::from_str(prefix);
    m.append(name);
    m.append(suffix);
    m
}

impl OperationType {
    /// The working, success and failure prompts of this operation.
    pub fn get_spinner_prompt(&self) -> (r: (String, String, String))
        ensures
            match self {
                OperationType::AddProfile { profile_name } => {
                    &&& r.0@ == "Adding new profile '"@ + profile_name@ + "'"@
                    &&& r.1@ == "Profile '"@ + profile_name@ + "' was successfully added"@
                    &&& r.2@ == "Failed to add profile '"@ + profile_name@ + "'"@
                },
                OperationType::DeleteProfile { profile_name } => {
                    &&& r.0@ == "Deleting profile '"@ + profile_name@ + "'"@
                    &&& r.1@ == "Profile '"@ + profile_name@ + "' was successfully deleted"@
                    &&& r.2@ == "Failed to delete profile '"@ + profile_name@ + "'"@
                },
                OperationType::ListProfiles => {
                    &&& r.0@ == "Fetching all profiles"@
                    &&& r.1@ == "Profiles successfully fetched"@
                    &&& r.2@ == "Failed to fetch profiles"@
                },
                OperationType::UseProfile { profile_name } => {
                    &&& r.0@ == "Issuing profile '"@ + profile_name@ + "' for the repository"@
                    &&& r.1@ == "Profile '"@ + profile_name@
                        + "' has been successfully issued for the repository"@
                    &&& r.2@ == "Failed to issue profile '"@ + profile_name@
                        + "' for the repository"@
                },
                OperationType::GetProfile => {
                    &&& r.0@ == "Fetching current profile"@
                    &&& r.1@ == "Profile successfully fetched"@
                    &&& r.2@ == "Failed to fetch profile"@
                },
                OperationType::ResetProfile => {
                    &&& r.0@ == "Switching global profile"@
                    &&& r.1@ == "Global profile successfully set for the repository"@
                    &&& r.2@ == "Failed to reset global profile"@
                },
            },
    {
        match self {
            OperationType::AddProfile { profile_name } => (
                framed("Adding new profile '", profile_name.as_str(), "'"),
                framed("Profile '", profile_name.as_str(), "' was successfully added"),
                framed("Failed to add profile '", profile_name.as_str(), "'"),
            ),
            OperationType::DeleteProfile { profile_name } => (
                framed("Deleting profile '", profile_name.as_str(), "'"),
                framed("Profile '", profile_name.as_str(), "' was successfully deleted"),
                framed("Failed to delete profile '", profile_name.as_str(), "'"),
            ),
            OperationType::ListProfiles => (
                String::from_str("Fetching all profiles"),
                String::from_str("Profiles successfully fetched"),
                String::from_str("Failed to fetch profiles"),
            ),
            OperationType::UseProfile { profile_name } => (
                framed("Issuing profile '", profile_name.as_str(), "' for the repository"),
                framed(
                    "Profile '",
                    profile_name.as_str(),
                    "' has been successfully issued for the repository",
                ),
                framed("Failed to issue profile '", profile_name.as_str(), "' for the repository"),
            ),
            OperationType::GetProfile => (
                String::from_str("Fetching current profile"),
                String::from_str("Profile successfully fetched"),
                String::from_str("Failed to fetch profile"),
            ),
            OperationType::ResetProfile => (
                String::from_str("Switching global profile"),
                String::from_str("Global profile successfully set for the repository"),
                String::from_str("Failed to reset global profile"),
            ),
        }
    }
}

} // verus!
