//! A profile: a template followed by the rules of each category.

use crate::permissions::{Permissions, PermissionsView, ProfileError};
use crate::rules::{
    file_rules, generate_file_permissions, generate_network_permissions, generate_run_permissions,
    network_rule, run_rules,
};
use vstd::prelude::*;
use vstd::string::*;

verus! {

/// The profile for `permissions` on `template`: the template, then the rules
/// for reading, for writing, for the network and for running programs.
pub open spec fn profile_text(template: Seq<char>, permissions: PermissionsView) -> Seq<char> {
    template + file_rules("file-read*"@, permissions.allow_read, permissions.deny_read)
        + file_rules("file-write*"@, permissions.allow_write, permissions.deny_write)
        + network_rule(permissions.allow_net) + run_rules(
        permissions.allow_run,
        permissions.deny_run,
    )
}

/// Writes the profile for `permissions` on `template`. The template is taken as
/// it is, and nothing in the permissions is looked up again: the same
/// arguments give the same text. It does not fail.
pub fn generate_profile(template: &str, permissions: &Permissions) -> (outcome: Result<
    String,
    ProfileError,
>)
    ensures
        outcome is Ok,
        outcome->Ok_0@ == profile_text(template@, permissions@),
        permissions@ == PermissionsView::empty() ==> outcome->Ok_0@ == template@,
{
    proof {
        lemma_empty_permissions_profile(template@);
    }
    let mut profile = String::from_str(template);

    profile.append(
        generate_file_permissions(
            "file-read*",
            permissions.allow_read.as_slice(),
            permissions.deny_read.as_slice(),
        ).as_str(),
    );

    profile.append(
        generate_file_permissions(
            "file-write*",
            permissions.allow_write.as_slice(),
            permissions.deny_write.as_slice(),
        ).as_str(),
    );

    profile.append(generate_network_permissions(permissions.allow_net).as_str());

    profile.append(
        generate_run_permissions(
            permissions.allow_run.as_slice(),
            permissions.deny_run.as_slice(),
        ).as_str(),
    );

    Ok(profile)
}

/// A set that allows and denies nothing adds nothing: its profile is the
/// template.
pub proof fn lemma_empty_permissions_profile(template: Seq<char>)
    ensures
        profile_text(template, PermissionsView::empty()) == template,
{
}

} // verus!
