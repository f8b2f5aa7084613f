use su_rs::command::{has_nul, CommandSpec, Invocation, DEFAULT_SHELL, DEFAULT_USER};
use su_rs::environment::{
    build_environment, login_path, EnvironmentSet, Policy, TargetIdentity, DEFAULT_LOGIN_PATH,
    DEFAULT_ROOT_LOGIN_PATH,
};
use su_rs::error::Error;

fn s(x: &str) -> String {
    x.to_string()
}

fn alice() -> TargetIdentity {
    TargetIdentity { name: s("alice"), uid: 1000, gid: 1000, home: s("/home/alice") }
}

fn root() -> TargetIdentity {
    TargetIdentity { name: s("root"), uid: 0, gid: 0, home: s("/root") }
}

fn invoker_env() -> EnvironmentSet {
    let mut env = EnvironmentSet::new();
    env.set(s("TERM"), s("xterm"));
    env.set(s("HOME"), s("/home/bob"));
    env.set(s("SHELL"), s("/bin/zsh"));
    env.set(s("USER"), s("bob"));
    env.set(s("LOGNAME"), s("bob"));
    env.set(s("PATH"), s("/home/bob/bin"));
    env.set(s("EDITOR"), s("vi"));
    env
}

#[test]
fn set_overwrites_in_place() {
    let mut env = EnvironmentSet::new();
    env.set(s("A"), s("1"));
    env.set(s("B"), s("2"));
    env.set(s("A"), s("3"));
    assert_eq!(env.len(), 2);
    assert_eq!(env.get("A"), Some(s("3")));
    assert_eq!(env.to_assignments(), Ok(vec![s("A=3"), s("B=2")]));
}

#[test]
fn get_missing_name() {
    let env = EnvironmentSet::new();
    assert_eq!(env.get("TERM"), None);
    assert_eq!(env.len(), 0);
    assert_eq!(env.to_assignments(), Ok(vec![]));
}

#[test]
fn assignments_reject_nul() {
    let mut env = EnvironmentSet::new();
    env.set(s("A"), s("ok"));
    env.set(s("B"), s("bad\0value"));
    assert_eq!(env.to_assignments(), Err(Error::NulError));
    let mut env = EnvironmentSet::new();
    env.set(s("BAD\0"), s("x"));
    assert_eq!(env.to_assignments(), Err(Error::NulError));
}

#[test]
fn assignments_do_not_escape() {
    let mut env = EnvironmentSet::new();
    env.set(s("X"), s("a b=c;$d"));
    assert_eq!(env.to_assignments(), Ok(vec![s("X=a b=c;$d")]));
}

#[test]
fn login_path_by_uid() {
    assert_eq!(login_path(0), DEFAULT_ROOT_LOGIN_PATH);
    assert_eq!(login_path(1000), DEFAULT_LOGIN_PATH);
    assert_eq!(DEFAULT_ROOT_LOGIN_PATH, "/usr/local/sbin:/usr/local/bin:/sbin:/bin:/usr/sbin:/usr/bin");
    assert_eq!(DEFAULT_LOGIN_PATH, "/usr/local/bin:/bin:/usr/bin");
}

#[test]
fn gated_environment_for_alice() {
    let env = build_environment(Policy::Gated, &invoker_env(), &alice(), &s("/bin/sh")).unwrap();
    assert_eq!(
        env.to_assignments(),
        Ok(vec![
            s("TERM=xterm"),
            s("HOME=/home/alice"),
            s("SHELL=/bin/sh"),
            s("USER=alice"),
            s("LOGNAME=alice"),
            s("PATH=/usr/local/bin:/bin:/usr/bin"),
        ])
    );
    assert_eq!(env.get("EDITOR"), None);
}

#[test]
fn gated_environment_for_root_uses_root_path() {
    let env = build_environment(Policy::Gated, &invoker_env(), &root(), &s("/bin/sh")).unwrap();
    assert_eq!(env.get("PATH"), Some(s(DEFAULT_ROOT_LOGIN_PATH)));
    assert_ne!(DEFAULT_ROOT_LOGIN_PATH, DEFAULT_LOGIN_PATH);
    assert_eq!(env.get("USER"), Some(s("root")));
    assert_eq!(env.get("HOME"), Some(s("/root")));
}

#[test]
fn gated_environment_needs_term() {
    let mut inherited = EnvironmentSet::new();
    inherited.set(s("HOME"), s("/home/bob"));
    assert!(matches!(
        build_environment(Policy::Gated, &inherited, &alice(), &s("/bin/sh")),
        Err(Error::VarError)
    ));
}

#[test]
fn plain_environment_keeps_the_rest() {
    let env = build_environment(Policy::Plain, &invoker_env(), &alice(), &s("/bin/bash")).unwrap();
    assert_eq!(
        env.to_assignments(),
        Ok(vec![
            s("TERM=xterm"),
            s("HOME=/home/alice"),
            s("SHELL=/bin/bash"),
            s("USER=bob"),
            s("LOGNAME=bob"),
            s("PATH=/home/bob/bin"),
            s("EDITOR=vi"),
        ])
    );
}

#[test]
fn plain_environment_without_term() {
    let env = build_environment(Policy::Plain, &EnvironmentSet::new(), &alice(), &s("/bin/sh")).unwrap();
    assert_eq!(env.to_assignments(), Ok(vec![s("HOME=/home/alice"), s("SHELL=/bin/sh")]));
}

#[test]
fn target_values_override_inherited() {
    for policy in [Policy::Plain, Policy::Gated] {
        let env = build_environment(policy, &invoker_env(), &alice(), &s("/bin/dash")).unwrap();
        assert_eq!(env.get("HOME"), Some(s("/home/alice")));
        assert_eq!(env.get("SHELL"), Some(s("/bin/dash")));
    }
    let env = build_environment(Policy::Gated, &invoker_env(), &alice(), &s("/bin/dash")).unwrap();
    assert_eq!(env.get("USER"), Some(s("alice")));
    assert_eq!(env.get("LOGNAME"), Some(s("alice")));
    assert_eq!(env.get("PATH"), Some(s(DEFAULT_LOGIN_PATH)));
}

#[test]
fn secret_not_in_environment() {
    let secret = "hunter2-secret";
    for policy in [Policy::Plain, Policy::Gated] {
        let env = build_environment(policy, &invoker_env(), &alice(), &s("/bin/sh")).unwrap();
        for line in env.to_assignments().unwrap() {
            assert!(!line.contains(secret));
        }
    }
}

#[test]
fn has_nul_finds_nul() {
    assert!(has_nul("a\0b"));
    assert!(has_nul("\0"));
    assert!(!has_nul(""));
    assert!(!has_nul("plain"));
}

#[test]
fn command_defaults_to_shell() {
    let c = CommandSpec::new(None, vec![]).unwrap();
    assert_eq!(c.program, DEFAULT_SHELL);
    assert_eq!(c.program, "/bin/sh");
    assert!(c.arguments.is_empty());
}

#[test]
fn command_keeps_arguments_verbatim() {
    let args = vec![s("ls"), s("-l"), s("$HOME; rm")];
    let c = CommandSpec::new(Some(s("/bin/ls")), args.clone()).unwrap();
    assert_eq!(c.program, "/bin/ls");
    assert_eq!(c.arguments, args);
}

#[test]
fn command_rejects_nul() {
    assert!(matches!(CommandSpec::new(Some(s("/bin/l\0s")), vec![]), Err(Error::NulError)));
    assert!(matches!(
        CommandSpec::new(None, vec![s("ok"), s("b\0ad")]),
        Err(Error::NulError)
    ));
}

#[test]
fn invocation_defaults() {
    let i = Invocation::from_options(None, None, None, None);
    assert_eq!(i.command, None);
    assert_eq!(i.shell, "/bin/sh");
    assert!(i.arguments.is_empty());
    assert_eq!(i.user, DEFAULT_USER);
    assert_eq!(i.user, "root");
}

#[test]
fn invocation_keeps_given_options() {
    let i = Invocation::from_options(
        Some(s("/usr/bin/id")),
        Some(s("/bin/bash")),
        Some(vec![s("id"), s("-u")]),
        Some(s("alice")),
    );
    assert_eq!(i.command, Some(s("/usr/bin/id")));
    assert_eq!(i.shell, "/bin/bash");
    assert_eq!(i.arguments, vec![s("id"), s("-u")]);
    assert_eq!(i.user, "alice");
}
