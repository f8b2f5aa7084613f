use vstd::prelude::*;
use vstd::string::*;

use crate::error::Error;

verus! {

/// The authentication service whose policy governs this tool.
pub const PAM_SERVICE: &'static str = "su-rs";

/// The group whose members may use the gated pipeline.
pub const SUDO_GROUP_NAME: &'static str = "sudo";

/// Some group of `groups` is named `name`.
pub open spec fn has_group(groups: Seq<String>, name: Seq<char>) -> bool {
    exists|i: int| 0 <= i < groups.len() && #[trigger] groups[i]@ == name
}

/// Whether a group literally named `sudo` is among `groups`.
pub fn in_sudo_group(groups: &Vec<String>) -> (r: bool)
    ensures
        r == has_group(groups@, SUDO_GROUP_NAME@),
{
    let required = String::from_str(SUDO_GROUP_NAME);
    let mut i: usize = 0;
    while i < groups.len()
        invariant
            i <= groups@.len(),
            required@ == SUDO_GROUP_NAME@,
            forall|j: int| 0 <= j < i ==> #[trigger] groups@[j]@ != SUDO_GROUP_NAME@,
        decreases groups.len() - i,
    {
        if groups[i] == required {
            return true;
        }
        i = i + 1;
    }
    false
}

/// The authorization check of the gated pipeline, on the invoker's group
/// list as the user database gave it (`None` when it could not be fetched).
pub fn check_authorization(groups: Option<Vec<String>>) -> (r: Result<(), Error>)
    ensures
        match groups {
            None => r == Err::<(), Error>(Error::GetUserGroups),
            Some(g) => if has_group(g@, SUDO_GROUP_NAME@) {
                r == Ok::<(), Error>(())
            } else {
                r == Err::<(), Error>(Error::UserNotInSudoGroup)
            },
        },
{
    match groups {
        None => Err(Error::GetUserGroups),
        Some(g) => {
            if in_sudo_group(&g) {
                Ok(())
            } else {
                Err(Error::UserNotInSudoGroup)
            }
        },
    }
}

} // verus!
