use su_rs::authorization::{check_authorization, in_sudo_group};
use su_rs::environment::Policy;
use su_rs::error::Error;
use su_rs::transition::{Action, Event, Stage, Transition};

fn groups(names: &[&str]) -> Event {
    Event::Groups(Some(names.iter().map(|n| n.to_string()).collect()))
}

/// Feeds events to the pipeline, checking each is expected, and returns the actions.
fn run(policy: Policy, events: Vec<Event>) -> (Transition, Vec<Action>) {
    let mut t = Transition::new(policy);
    let mut actions = vec![t.start()];
    for ev in events {
        assert!(t.expects(&ev));
        actions.push(t.step(ev));
    }
    (t, actions)
}

#[test]
fn sudo_membership() {
    assert!(in_sudo_group(&vec!["adm".to_string(), "sudo".to_string()]));
    assert!(!in_sudo_group(&vec!["adm".to_string(), "sudoers".to_string(), "Sudo".to_string()]));
    assert!(!in_sudo_group(&vec![]));
    assert_eq!(check_authorization(Some(vec!["sudo".to_string()])), Ok(()));
    assert_eq!(check_authorization(Some(vec!["wheel".to_string()])), Err(Error::UserNotInSudoGroup));
    assert_eq!(check_authorization(None), Err(Error::GetUserGroups));
}

#[test]
fn invoker_not_in_sudo_group() {
    let (t, actions) = run(Policy::Gated, vec![groups(&["users", "adm"])]);
    assert_eq!(actions, vec![Action::CheckGroups, Action::Fail(Error::UserNotInSudoGroup)]);
    assert_eq!(t.stage, Stage::Finished);
    assert!(!t.expects(&Event::Done));
    assert!(!t.expects(&Event::EndOfInput));
    assert!(!actions.contains(&Action::Prompt));
    assert!(!actions.contains(&Action::Authenticate));
}

#[test]
fn groups_unavailable() {
    let (_, actions) = run(Policy::Gated, vec![Event::Groups(None)]);
    assert_eq!(actions, vec![Action::CheckGroups, Action::Fail(Error::GetUserGroups)]);
}

#[test]
fn full_transition_to_alice() {
    let (t, actions) = run(
        Policy::Gated,
        vec![
            groups(&["sudo"]),
            Event::Prepared(1000, 1000),
            Event::Done,
            Event::Done,
            Event::Done,
            Event::Done,
            Event::Done,
            Event::Done,
            Event::Done,
        ],
    );
    assert_eq!(
        actions,
        vec![
            Action::CheckGroups,
            Action::Prepare,
            Action::DisableEcho,
            Action::Prompt,
            Action::RestoreEcho,
            Action::Authenticate,
            Action::OpenSession,
            Action::SetGroup(1000),
            Action::SetUser(1000),
            Action::Exec,
        ]
    );
    assert_eq!(t.stage, Stage::Replacing);
    assert!(!t.expects(&Event::Done));
    assert!(t.expects(&Event::Failed(Error::Nix(2))));
}

#[test]
fn group_set_before_user() {
    let (_, actions) = run(
        Policy::Plain,
        vec![Event::Prepared(1001, 50), Event::Done, Event::Done, Event::Done, Event::Done, Event::Done, Event::Done],
    );
    let g = actions.iter().position(|a| *a == Action::SetGroup(50)).unwrap();
    let u = actions.iter().position(|a| *a == Action::SetUser(1001)).unwrap();
    assert!(g < u);
    assert_eq!(actions[0], Action::Prepare);
}

#[test]
fn failed_group_change_stops_before_user_change() {
    let (_, actions) = run(
        Policy::Plain,
        vec![Event::Prepared(1001, 50), Event::Done, Event::Done, Event::Done, Event::Done, Event::Done, Event::Failed(Error::Nix(1))],
    );
    assert_eq!(actions.last(), Some(&Action::Fail(Error::Nix(1))));
    assert!(!actions.iter().any(|a| matches!(a, Action::SetUser(_))));
    assert!(!actions.contains(&Action::Exec));
}

#[test]
fn empty_input_fails_without_authentication() {
    let (_, actions) = run(
        Policy::Gated,
        vec![groups(&["sudo"]), Event::Prepared(0, 0), Event::Done, Event::EndOfInput, Event::Done],
    );
    assert_eq!(
        actions,
        vec![
            Action::CheckGroups,
            Action::Prepare,
            Action::DisableEcho,
            Action::Prompt,
            Action::RestoreEcho,
            Action::Fail(Error::ExpectedLine),
        ]
    );
}

#[test]
fn rejected_credential_never_opens_session() {
    let (t, actions) = run(
        Policy::Gated,
        vec![groups(&["sudo"]), Event::Prepared(1000, 1000), Event::Done, Event::Done, Event::Done, Event::Failed(Error::Pam)],
    );
    assert_eq!(actions.last(), Some(&Action::Fail(Error::Pam)));
    assert_eq!(actions.iter().filter(|a| **a == Action::Authenticate).count(), 1);
    assert_eq!(actions.iter().filter(|a| **a == Action::OpenSession).count(), 0);
    assert_eq!(t.stage, Stage::Finished);
}

#[test]
fn echo_restored_after_read_failure() {
    let (t, actions) = run(
        Policy::Gated,
        vec![groups(&["sudo"]), Event::Prepared(1000, 1000), Event::Done, Event::Failed(Error::Io(Some(5)))],
    );
    assert_eq!(actions.last(), Some(&Action::RestoreEcho));
    assert_eq!(t.pending, Some(Error::Io(Some(5))));
    let mut t = t;
    assert_eq!(t.step(Event::Done), Action::Fail(Error::Io(Some(5))));
}

#[test]
fn restore_failure_reports_first_cause() {
    let (mut t, _) = run(
        Policy::Plain,
        vec![Event::Prepared(1000, 1000), Event::Done, Event::EndOfInput],
    );
    assert_eq!(t.step(Event::Failed(Error::Nix(5))), Action::Fail(Error::ExpectedLine));
    let (mut t, _) = run(Policy::Plain, vec![Event::Prepared(1000, 1000), Event::Done, Event::Done]);
    assert_eq!(t.step(Event::Failed(Error::Nix(5))), Action::Fail(Error::Nix(5)));
}

#[test]
fn echo_never_restored_when_never_disabled() {
    let (_, actions) = run(Policy::Gated, vec![groups(&["sudo"]), Event::Prepared(1000, 1000), Event::Failed(Error::Nix(25))]);
    assert_eq!(actions.last(), Some(&Action::Fail(Error::Nix(25))));
    assert!(!actions.contains(&Action::RestoreEcho));
}

#[test]
fn preparation_failure() {
    let (_, actions) = run(Policy::Gated, vec![groups(&["sudo"]), Event::Failed(Error::NoSuchUser)]);
    assert_eq!(actions.last(), Some(&Action::Fail(Error::NoSuchUser)));
    let (_, actions) = run(Policy::Plain, vec![Event::Failed(Error::VarError)]);
    assert_eq!(actions, vec![Action::Prepare, Action::Fail(Error::VarError)]);
}

#[test]
fn session_failure_stops_before_identity_change() {
    let (_, actions) = run(
        Policy::Plain,
        vec![Event::Prepared(0, 0), Event::Done, Event::Done, Event::Done, Event::Done, Event::Failed(Error::Pam)],
    );
    assert_eq!(actions.last(), Some(&Action::Fail(Error::Pam)));
    assert!(!actions.iter().any(|a| matches!(a, Action::SetGroup(_))));
}

#[test]
fn exec_failure_is_reported() {
    let (_, actions) = run(
        Policy::Plain,
        vec![Event::Prepared(0, 0), Event::Done, Event::Done, Event::Done, Event::Done, Event::Done, Event::Done, Event::Done, Event::Failed(Error::Nix(2))],
    );
    assert_eq!(actions[actions.len() - 2], Action::Exec);
    assert_eq!(actions.last(), Some(&Action::Fail(Error::Nix(2))));
}

#[test]
fn unexpected_events_are_refused() {
    let t = Transition::new(Policy::Gated);
    assert!(!t.expects(&Event::Done));
    let (t, _) = run(Policy::Gated, vec![]);
    assert!(!t.expects(&Event::Done));
    assert!(!t.expects(&Event::Prepared(1, 1)));
    assert!(t.expects(&Event::Groups(None)));
}
