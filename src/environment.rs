use vstd::prelude::*;
use vstd::string::*;

use crate::command::{has_nul, nul_free};
use crate::error::Error;

verus! {

/// Search path for a superuser login.
pub const DEFAULT_ROOT_LOGIN_PATH: &'static str =
    "/usr/local/sbin:/usr/local/bin:/sbin:/bin:/usr/sbin:/usr/bin";

/// Search path for any other login.
pub const DEFAULT_LOGIN_PATH: &'static str = "/usr/local/bin:/bin:/usr/bin";

/// The search path that a login as `uid` gets.
pub open spec fn login_path_of(uid: u32) -> Seq<char> {
    if uid == 0 {
        DEFAULT_ROOT_LOGIN_PATH@
    } else {
        DEFAULT_LOGIN_PATH@
    }
}

/// The search path that a login as `uid` gets.
pub fn login_path(uid: u32) -> (r: String)
    ensures
        r@ == login_path_of(uid),
{
    if uid == 0 {
        String::from_str(DEFAULT_ROOT_LOGIN_PATH)
    } else {
        String::from_str(DEFAULT_LOGIN_PATH)
    }
}

/// Which of the two pipelines runs.
#[derive(Debug, Clone, Copy, PartialEq, Eq, Structural)]
pub enum Policy {
    /// No authorization check; the new process inherits the whole environment.
    Plain,
    /// Membership in the required group is checked first; the new process
    /// gets a curated environment.
    Gated,
}

/// The identity to become, as the user database gave it.
pub struct TargetIdentity {
    pub name: String,
    pub uid: u32,
    pub gid: u32,
    pub home: String,
}

/// One binding as the contracts see it: name and value.
pub type Binding = (Seq<char>, Seq<char>);

/// No name occurs twice.
pub open spec fn unique_names(s: Seq<Binding>) -> bool {
    forall|i: int, j: int|
        0 <= i < s.len() && 0 <= j < s.len() && i != j ==> #[trigger] s[i].0 != #[trigger] s[j].0
}

/// `name` is bound somewhere in `s`.
pub open spec fn is_bound(s: Seq<Binding>, name: Seq<char>) -> bool {
    exists|i: int| 0 <= i < s.len() && #[trigger] s[i].0 == name
}

/// The value bound to `name`, if any.
pub open spec fn value_of(s: Seq<Binding>, name: Seq<char>) -> Option<Seq<char>> {
    if is_bound(s, name) {
        Some(s[choose|i: int| 0 <= i < s.len() && #[trigger] s[i].0 == name].1)
    } else {
        None
    }
}

/// Binding `name` to `value`: an existing binding is overwritten where it
/// stands, a new one goes to the end.
pub open spec fn bind(s: Seq<Binding>, name: Seq<char>, value: Seq<char>) -> Seq<Binding> {
    if is_bound(s, name) {
        s.update(choose|i: int| 0 <= i < s.len() && #[trigger] s[i].0 == name, (name, value))
    } else {
        s.push((name, value))
    }
}

/// Binding keeps names unique; afterwards `name` has `value` and every other
/// name keeps what it had.
pub proof fn lemma_bind(s: Seq<Binding>, name: Seq<char>, value: Seq<char>)
    requires
        unique_names(s),
    ensures
        unique_names(bind(s, name, value)),
        value_of(bind(s, name, value), name) == Some(value),
        forall|other: Seq<char>|
            other != name ==> #[trigger] value_of(bind(s, name, value), other) == value_of(s, other),
{
    let t = bind(s, name, value);
    if is_bound(s, name) {
        let k = choose|i: int| 0 <= i < s.len() && #[trigger] s[i].0 == name;
        assert(t[k].0 == name);
        assert forall|other: Seq<char>| other != name implies #[trigger] value_of(t, other)
            == value_of(s, other) by {
            if is_bound(s, other) {
                let j = choose|i: int| 0 <= i < s.len() && #[trigger] s[i].0 == other;
                assert(t[j].0 == other);
                let j2 = choose|i: int| 0 <= i < t.len() && #[trigger] t[i].0 == other;
                assert(j2 == j);
            } else {
                if is_bound(t, other) {
                    let j2 = choose|i: int| 0 <= i < t.len() && #[trigger] t[i].0 == other;
                    assert(s[j2].0 == other);
                }
            }
        }
    } else {
        let k = s.len() as int;
        assert(t[k].0 == name);
        assert forall|other: Seq<char>| other != name implies #[trigger] value_of(t, other)
            == value_of(s, other) by {
            if is_bound(s, other) {
                let j = choose|i: int| 0 <= i < s.len() && #[trigger] s[i].0 == other;
                assert(t[j].0 == other);
            } else {
                if is_bound(t, other) {
                    let j2 = choose|i: int| 0 <= i < t.len() && #[trigger] t[i].0 == other;
                    assert(s[j2].0 == other);
                }
            }
        }
    }
}

/// The `NAME=VALUE` form of one binding, with no escaping.
pub open spec fn assignment(b: Binding) -> Seq<char> {
    b.0 + seq!['='] + b.1
}

/// No name or value in `s` holds a NUL character.
pub open spec fn bindings_nul_free(s: Seq<Binding>) -> bool {
    forall|i: int| 0 <= i < s.len() ==> nul_free(#[trigger] s[i].0) && nul_free(s[i].1)
}

/// The environment of the plain pipeline: the invoker's, with `HOME` and
/// `SHELL` set for the target.
pub open spec fn plain_environment(inherited: Seq<Binding>, home: Seq<char>, shell: Seq<char>) -> Seq<Binding> {
    bind(bind(inherited, "HOME"@, home), "SHELL"@, shell)
}

/// The environment of the gated pipeline: `TERM` forwarded, everything else
/// derived from the target.
pub open spec fn gated_environment(
    term: Seq<char>,
    home: Seq<char>,
    shell: Seq<char>,
    name: Seq<char>,
    uid: u32,
) -> Seq<Binding> {
    seq![
        ("TERM"@, term),
        ("HOME"@, home),
        ("SHELL"@, shell),
        ("USER"@, name),
        ("LOGNAME"@, name),
        ("PATH"@, login_path_of(uid)),
    ]
}

/// The set of variables handed to the new process image, in insertion order.
/// Setting a name that is already present overwrites its value in place, so
/// the last write wins and no name appears twice.
pub struct EnvironmentSet {
    entries: Vec<(String, String)>,
}

impl View for EnvironmentSet {
    type V = Seq<Binding>;

    closed spec fn view(&self) -> Seq<Binding> {
        self.entries@.map_values(|e: (String, String)| (e.0@, e.1@))
    }
}

impl EnvironmentSet {
    /// The set's own invariant: names are unique.
    pub open spec fn wf(&self) -> bool {
        unique_names(self@)
    }

    /// An empty set.
    pub fn new() -> (r: EnvironmentSet)
        ensures
            r.wf(),
            r@ == Seq::<Binding>::empty(),
    {
        let r = EnvironmentSet { entries: Vec::new() };
        assert(r@ =~= Seq::<Binding>::empty());
        r
    }

    /// A copy of the set.
    pub fn duplicate(&self) -> (r: EnvironmentSet)
        ensures
            r@ == self@,
    {
        let mut entries: Vec<(String, String)> = Vec::new();
        let mut i: usize = 0;
        while i < self.entries.len()
            invariant
                i <= self.entries@.len(),
                entries@.len() == i,
                forall|j: int| 0 <= j < i ==> (#[trigger] entries@[j]).0@ == self.entries@[j].0@
                    && entries@[j].1@ == self.entries@[j].1@,
            decreases self.entries.len() - i,
        {
            entries.push((self.entries[i].0.clone(), self.entries[i].1.clone()));
            i = i + 1;
        }
        let r = EnvironmentSet { entries };
        assert(r@ =~= self@);
        r
    }

    /// The number of variables.
    pub fn len(&self) -> (r: usize)
        ensures
            r == self@.len(),
    {
        self.entries.len()
    }

    /// Position of `name`, if it is bound.
    fn position(&self, name: &str) -> (r: Option<usize>)
        requires
            self.wf(),
        ensures
            match r {
                Some(k) => k < self@.len() && self@[k as int].0 == name@,
                None => !is_bound(self@, name@),
            },
    {
        let key = String::from_str(name);
        let mut i: usize = 0;
        while i < self.entries.len()
            invariant
                i <= self.entries@.len(),
                key@ == name@,
                self@.len() == self.entries@.len(),
                forall|j: int| 0 <= j < i ==> #[trigger] self@[j].0 != name@,
            decreases self.entries.len() - i,
        {
            assert(self@[i as int].0 == self.entries@[i as int].0@);
            if self.entries[i].0 == key {
                return Some(i);
            }
            i = i + 1;
        }
        None
    }

    /// Binds `name` to `value`, overwriting any earlier value of `name`.
    pub fn set(&mut self, name: String, value: String)
        requires
            old(self).wf(),
        ensures
            final(self).wf(),
            final(self)@ == bind(old(self)@, name@, value@),
    {
        proof {
            lemma_bind(self@, name@, value@);
        }
        let ghost s = self@;
        match self.position(name.as_str()) {
            Some(k) => {
                proof {
                    let c = choose|i: int| 0 <= i < s.len() && #[trigger] s[i].0 == name@;
                    assert(c == k);
                }
                self.entries.set(k, (name, value));
                assert(self@ =~= bind(s, name@, value@));
            },
            None => {
                self.entries.push((name, value));
                assert(self@ =~= bind(s, name@, value@));
            },
        }
    }

    /// The value bound to `name`, if any.
    pub fn get(&self, name: &str) -> (r: Option<String>)
        requires
            self.wf(),
        ensures
            match r {
                Some(v) => value_of(self@, name@) == Some(v@),
                None => value_of(self@, name@).is_none(),
            },
    {
        match self.position(name) {
            Some(k) => {
                proof {
                    let c = choose|i: int| 0 <= i < self@.len() && #[trigger] self@[i].0 == name@;
                    assert(c == k);
                }
                Some(self.entries[k].1.clone())
            },
            None => None,
        }
    }

    /// The `NAME=VALUE` strings in order; fails when a name or value holds
    /// a NUL character.
    pub fn to_assignments(&self) -> (r: Result<Vec<String>, Error>)
        ensures
            match r {
                Ok(v) => bindings_nul_free(self@) && v@.len() == self@.len() && forall|i: int|
                    0 <= i < v@.len() ==> #[trigger] v@[i]@ == assignment(self@[i]),
                Err(e) => e == Error::NulError && !bindings_nul_free(self@),
            },
    {
        let mut out: Vec<String> = Vec::new();
        let mut i: usize = 0;
        while i < self.entries.len()
            invariant
                i <= self.entries@.len(),
                self@.len() == self.entries@.len(),
                out@.len() == i,
                forall|j: int| 0 <= j < i ==> nul_free(#[trigger] self@[j].0) && nul_free(self@[j].1),
                forall|j: int| 0 <= j < i ==> #[trigger] out@[j]@ == assignment(self@[j]),
            decreases self.entries.len() - i,
        {
            let name = &self.entries[i].0;
            let value = &self.entries[i].1;
            assert(self@[i as int] == (name@, value@));
            let bad_name = has_nul(name.as_str());
            assert(bad_name == !nul_free(self@[i as int].0));
            if bad_name {
                return Err(Error::NulError);
            }
            let bad_value = has_nul(value.as_str());
            assert(bad_value == !nul_free(self@[i as int].1));
            if bad_value {
                return Err(Error::NulError);
            }
            assert(nul_free(self@[i as int].0) && nul_free(self@[i as int].1));
            let mut line = name.clone();
            line.append("=");
            line.append(value.as_str());
            proof {
                reveal_strlit("=");
                assert(line@ == assignment(self@[i as int]));
            }
            out.push(line);
            assert(forall|j: int| 0 <= j < i + 1 ==> nul_free(#[trigger] self@[j].0) && nul_free(self@[j].1));
            i = i + 1;
        }
        Ok(out)
    }
}

/// Builds the environment of the new process image. The plain pipeline
/// keeps the invoker's variables and sets `HOME` and `SHELL`; the gated one
/// forwards only `TERM`, which must be set, and sets `HOME`, `SHELL`, `USER`,
/// `LOGNAME` and `PATH`. Values derived from the target always override.
pub fn build_environment(
    policy: Policy,
    inherited: &EnvironmentSet,
    target: &TargetIdentity,
    shell: &String,
) -> (r: Result<EnvironmentSet, Error>)
    requires
        inherited.wf(),
    ensures
        match policy {
            Policy::Plain => match r {
                Ok(env) => env.wf() && env@ == plain_environment(inherited@, target.home@, shell@),
                Err(_) => false,
            },
            Policy::Gated => match value_of(inherited@, "TERM"@) {
                None => r == Err::<EnvironmentSet, Error>(Error::VarError),
                Some(term) => match r {
                    Ok(env) => env.wf() && env@ == gated_environment(
                        term,
                        target.home@,
                        shell@,
                        target.name@,
                        target.uid,
                    ),
                    Err(_) => false,
                },
            },
        },
{
    match policy {
        Policy::Plain => {
            let mut env = inherited.duplicate();
            env.set(String::from_str("HOME"), target.home.clone());
            env.set(String::from_str("SHELL"), shell.clone());
            Ok(env)
        },
        Policy::Gated => {
            let term = match inherited.get("TERM") {
                Some(t) => t,
                None => {
                    return Err(Error::VarError);
                },
            };
            proof {
                reveal_strlit("TERM");
                reveal_strlit("HOME");
                reveal_strlit("SHELL");
                reveal_strlit("USER");
                reveal_strlit("LOGNAME");
                reveal_strlit("PATH");
            }
            let mut env = EnvironmentSet::new();
            env.set(String::from_str("TERM"), term);
            assert(env@ =~= seq![("TERM"@, value_of(inherited@, "TERM"@).unwrap())]);
            let ghost e1 = env@;
            assert(!is_bound(e1, "HOME"@)) by {
                assert(e1[0].0[0] != "HOME"@[0]);
            }
            env.set(String::from_str("HOME"), target.home.clone());
            let ghost e2 = env@;
            assert(e2 =~= e1.push(("HOME"@, target.home@)));
            assert(!is_bound(e2, "SHELL"@)) by {
                assert(e2[0].0[0] != "SHELL"@[0]);
                assert(e2[1].0[0] != "SHELL"@[0]);
            }
            env.set(String::from_str("SHELL"), shell.clone());
            let ghost e3 = env@;
            assert(e3 =~= e2.push(("SHELL"@, shell@)));
            assert(!is_bound(e3, "USER"@)) by {
                assert(e3[0].0[0] != "USER"@[0]);
                assert(e3[1].0[0] != "USER"@[0]);
                assert(e3[2].0[0] != "USER"@[0]);
            }
            env.set(String::from_str("USER"), target.name.clone());
            let ghost e4 = env@;
            assert(e4 =~= e3.push(("USER"@, target.name@)));
            assert(!is_bound(e4, "LOGNAME"@)) by {
                assert(e4[0].0[0] != "LOGNAME"@[0]);
                assert(e4[1].0[0] != "LOGNAME"@[0]);
                assert(e4[2].0[0] != "LOGNAME"@[0]);
                assert(e4[3].0[0] != "LOGNAME"@[0]);
            }
            env.set(String::from_str("LOGNAME"), target.name.clone());
            let ghost e5 = env@;
            assert(e5 =~= e4.push(("LOGNAME"@, target.name@)));
            assert(!is_bound(e5, "PATH"@)) by {
                assert(e5[0].0[0] != "PATH"@[0]);
                assert(e5[1].0[0] != "PATH"@[0]);
                assert(e5[2].0[0] != "PATH"@[0]);
                assert(e5[3].0[0] != "PATH"@[0]);
                assert(e5[4].0[0] != "PATH"@[0]);
            }
            env.set(String::from_str("PATH"), login_path(target.uid));
            assert(env@ =~= gated_environment(
                value_of(inherited@, "TERM"@).unwrap(),
                target.home@,
                shell@,
                target.name@,
                target.uid,
            ));
            Ok(env)
        },
    }
}

/// The values derived from the target always win: in either pipeline's
/// environment `HOME` and `SHELL` (and in the gated one also `USER`,
/// `LOGNAME` and `PATH`) hold the target's values, whatever the invoker's
/// environment bound to those names; and no name appears twice.
pub proof fn lemma_target_values_override(
    inherited: Seq<Binding>,
    term: Seq<char>,
    home: Seq<char>,
    shell: Seq<char>,
    name: Seq<char>,
    uid: u32,
)
    requires
        unique_names(inherited),
    ensures
        unique_names(plain_environment(inherited, home, shell)),
        value_of(plain_environment(inherited, home, shell), "HOME"@) == Some(home),
        value_of(plain_environment(inherited, home, shell), "SHELL"@) == Some(shell),
        unique_names(gated_environment(term, home, shell, name, uid)),
        value_of(gated_environment(term, home, shell, name, uid), "TERM"@) == Some(term),
        value_of(gated_environment(term, home, shell, name, uid), "HOME"@) == Some(home),
        value_of(gated_environment(term, home, shell, name, uid), "SHELL"@) == Some(shell),
        value_of(gated_environment(term, home, shell, name, uid), "USER"@) == Some(name),
        value_of(gated_environment(term, home, shell, name, uid), "LOGNAME"@) == Some(name),
        value_of(gated_environment(term, home, shell, name, uid), "PATH"@) == Some(login_path_of(uid)),
{
    reveal_strlit("TERM");
    reveal_strlit("HOME");
    reveal_strlit("SHELL");
    reveal_strlit("USER");
    reveal_strlit("LOGNAME");
    reveal_strlit("PATH");
    lemma_bind(inherited, "HOME"@, home);
    lemma_bind(bind(inherited, "HOME"@, home), "SHELL"@, shell);
    assert("HOME"@[0] != "SHELL"@[0]);
    let g = gated_environment(term, home, shell, name, uid);
    assert forall|i: int, j: int| 0 <= i < g.len() && 0 <= j < g.len() && i != j implies
        #[trigger] g[i].0 != #[trigger] g[j].0 by {
        assert(g[i].0[0] != g[j].0[0]);
    }
    assert(g[0].0 == "TERM"@);
    assert(g[1].0 == "HOME"@);
    assert(g[2].0 == "SHELL"@);
    assert(g[3].0 == "USER"@);
    assert(g[4].0 == "LOGNAME"@);
    assert(g[5].0 == "PATH"@);
}

} // verus!
