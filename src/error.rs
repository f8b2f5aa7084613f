use vstd::prelude::*;

verus! {

/// Every way the pipeline can fail. Each aborts the whole transition.
#[derive(Debug, Clone, Copy, PartialEq, Eq, Structural)]
pub enum Error {
    /// Standard input ended before a credential line was read.
    ExpectedLine,
    /// The invoking user's name could not be resolved.
    GetCurrentUsername,
    /// The invoking user's group list could not be fetched.
    GetUserGroups,
    /// An input/output failure, with the OS error code where one is known.
    Io(Option<i32>),
    /// A failed system call (terminal attributes, identity change, exec), with its errno.
    Nix(i32),
    /// A string bound for the environment or the argument list holds a NUL character.
    NulError,
    /// The requested user does not exist.
    NoSuchUser,
    /// The authentication backend refused the credential or the session.
    Pam,
    /// The invoking user is not a member of the required group.
    UserNotInSudoGroup,
    /// A required environment variable is absent.
    VarError,
}

} // verus!
