use vstd::prelude::*;
use vstd::string::*;

use crate::error::Error;

verus! {

/// What runs when no command or shell is requested.
pub const DEFAULT_SHELL: &'static str = "/bin/sh";

/// Whom to become when no user is requested.
pub const DEFAULT_USER: &'static str = "root";

/// `s` holds no NUL character, so the kernel can take it as a C string.
pub open spec fn nul_free(s: Seq<char>) -> bool {
    !s.contains('\0')
}

/// Whether `s` holds a NUL character.
pub fn has_nul(s: &str) -> (r: bool)
    ensures
        r == !nul_free(s@),
{
    let n = s.unicode_len();
    let mut i: usize = 0;
    while i < n
        invariant
            n == s@.len(),
            i <= n,
            forall|j: int| 0 <= j < i ==> s@[j] != '\0',
        decreases n - i,
    {
        if s.get_char(i) == '\0' {
            return true;
        }
        i = i + 1;
    }
    assert(!s@.contains('\0'));
    false
}

/// Every string of `v` is free of NUL characters.
pub open spec fn all_nul_free(v: Seq<String>) -> bool {
    forall|i: int| 0 <= i < v.len() ==> nul_free(#[trigger] v[i]@)
}

/// The program to run in place of this one, and its argument list, passed
/// verbatim with no shell interpretation.
pub struct CommandSpec {
    pub program: String,
    pub arguments: Vec<String>,
}

impl CommandSpec {
    /// Takes the requested program (the default shell when none is given)
    /// and arguments; fails when any of them holds a NUL character.
    pub fn new(program: Option<String>, arguments: Vec<String>) -> (r: Result<CommandSpec, Error>)
        ensures
            ({
                let p = match program {
                    Some(s) => s@,
                    None => DEFAULT_SHELL@,
                };
                match r {
                    Ok(c) => c.program@ == p && c.arguments@ == arguments@ && nul_free(p)
                        && all_nul_free(arguments@),
                    Err(e) => e == Error::NulError && !(nul_free(p) && all_nul_free(arguments@)),
                }
            }),
    {
        let program = match program {
            Some(s) => s,
            None => String::from_str(DEFAULT_SHELL),
        };
        if has_nul(program.as_str()) {
            return Err(Error::NulError);
        }
        let mut i: usize = 0;
        while i < arguments.len()
            invariant
                i <= arguments@.len(),
                forall|j: int| 0 <= j < i ==> nul_free(#[trigger] arguments@[j]@),
            decreases arguments.len() - i,
        {
            if has_nul(arguments[i].as_str()) {
                return Err(Error::NulError);
            }
            i = i + 1;
        }
        Ok(CommandSpec { program, arguments })
    }
}

/// The requested transition, with every omitted option given its default.
pub struct Invocation {
    pub command: Option<String>,
    pub shell: String,
    pub arguments: Vec<String>,
    pub user: String,
}

impl Invocation {
    /// Fills in the defaults: the default shell for `shell`, no arguments,
    /// and the superuser for `user`. The command stays optional: it defaults
    /// to the default shell when the command is built.
    pub fn from_options(
        command: Option<String>,
        shell: Option<String>,
        arguments: Option<Vec<String>>,
        user: Option<String>,
    ) -> (r: Invocation)
        ensures
            r.command == command,
            r.shell@ == (match shell {
                Some(s) => s@,
                None => DEFAULT_SHELL@,
            }),
            r.arguments@ == (match arguments {
                Some(a) => a@,
                None => Seq::<String>::empty(),
            }),
            r.user@ == (match user {
                Some(u) => u@,
                None => DEFAULT_USER@,
            }),
    {
        let shell = match shell {
            Some(s) => s,
            None => String::from_str(DEFAULT_SHELL),
        };
        let arguments = match arguments {
            Some(a) => a,
            None => Vec::new(),
        };
        let user = match user {
            Some(u) => u,
            None => String::from_str(DEFAULT_USER),
        };
        Invocation { command, shell, arguments, user }
    }
}

} // verus!
