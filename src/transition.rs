use vstd::prelude::*;

use crate::authorization::{check_authorization, has_group, SUDO_GROUP_NAME};
use crate::environment::Policy;
use crate::error::Error;

verus! {

/// Where the pipeline stands: which action it last asked for.
#[derive(Debug, Clone, Copy, PartialEq, Eq, Structural)]
pub enum Stage {
    /// Nothing asked yet.
    Start,
    /// Waiting for the invoker's group list.
    Authorizing,
    /// Waiting for the target identity, environment and command to be built.
    Preparing,
    /// Waiting for terminal echo to be switched off.
    DisablingEcho,
    /// Echo is off; waiting for the credential line.
    Prompting,
    /// Waiting for the saved terminal attributes to be put back.
    RestoringEcho,
    /// Waiting for the backend to check the credential.
    Authenticating,
    /// Waiting for the backend to open its session.
    OpeningSession,
    /// Waiting for the group identity change.
    SettingGroup,
    /// Waiting for the user identity change.
    SettingUser,
    /// Waiting for the process image to be replaced; only a failure comes back.
    Replacing,
    /// The pipeline has failed; nothing more happens.
    Finished,
}

/// What the caller must do next.
#[derive(Debug, Clone, Copy, PartialEq, Eq, Structural)]
pub enum Action {
    /// Fetch the invoker's group list; answer `Groups`.
    CheckGroups,
    /// Resolve the target user and build the environment and command; answer
    /// `Prepared` with the target's ids, or `Failed`.
    Prepare,
    /// Save the terminal attributes and switch echo off.
    DisableEcho,
    /// Write the prompt and read one line, holding it for `Authenticate`;
    /// answer `Done`, `EndOfInput` or `Failed`.
    Prompt,
    /// Put back the terminal attributes saved by `DisableEcho`.
    RestoreEcho,
    /// Hand the invoker's name and the line read to the backend.
    Authenticate,
    /// Open the backend's session.
    OpenSession,
    /// Set the group identity to this id.
    SetGroup(u32),
    /// Set the user identity to this id.
    SetUser(u32),
    /// Replace the process image with the command and environment.
    Exec,
    /// Stop, reporting this error.
    Fail(Error),
}

/// What the caller reports after performing an action.
#[derive(Debug)]
pub enum Event {
    /// The action succeeded.
    Done,
    /// The invoker's group names, or `None` when they could not be fetched.
    Groups(Option<Vec<String>>),
    /// The target resolved, with its user id and primary group id.
    Prepared(u32, u32),
    /// Standard input ended before a line was read.
    EndOfInput,
    /// The action failed.
    Failed(Error),
}

/// The pipeline's state.
#[derive(Debug, Clone, Copy)]
pub struct Transition {
    pub policy: Policy,
    pub stage: Stage,
    /// Whether the authorization check has passed (always, for the plain pipeline).
    pub authorized: bool,
    /// The target's user id, once prepared.
    pub uid: u32,
    /// The target's primary group id, once prepared.
    pub gid: u32,
    /// The failure to report once echo has been restored.
    pub pending: Option<Error>,
}

/// The stage is one of those before the authorization check has passed.
pub open spec fn before_authorization(stage: Stage) -> bool {
    stage is Start || stage is Authorizing || stage is Finished
}

/// The state after failing with `e`.
pub open spec fn failed(s: Transition, e: Error) -> (Transition, Action) {
    (Transition { stage: Stage::Finished, pending: None, ..s }, Action::Fail(e))
}

/// The state after asking for `a` in stage `stage`.
pub open spec fn ask(s: Transition, stage: Stage, a: Action) -> (Transition, Action) {
    (Transition { stage: stage, ..s }, a)
}

/// Whether the pipeline in state `s` expects event `ev`.
pub open spec fn expects(s: Transition, ev: Event) -> bool {
    match s.stage {
        Stage::Start | Stage::Finished => false,
        Stage::Authorizing => ev is Groups || ev is Failed,
        Stage::Preparing => ev is Prepared || ev is Failed,
        Stage::Prompting => ev is Done || ev is EndOfInput || ev is Failed,
        Stage::Replacing => ev is Failed,
        _ => ev is Done || ev is Failed,
    }
}

/// The pipeline's decision: from a state and the outcome of the last
/// action, the next state and the next action.
pub open spec fn next(s: Transition, ev: Event) -> (Transition, Action) {
    match s.stage {
        Stage::Authorizing => match ev {
            Event::Groups(None) => failed(s, Error::GetUserGroups),
            Event::Groups(Some(g)) => if has_group(g@, SUDO_GROUP_NAME@) {
                (Transition { stage: Stage::Preparing, authorized: true, ..s }, Action::Prepare)
            } else {
                failed(s, Error::UserNotInSudoGroup)
            },
            Event::Failed(e) => failed(s, e),
            _ => arbitrary(),
        },
        Stage::Preparing => match ev {
            Event::Prepared(uid, gid) => (
                Transition { stage: Stage::DisablingEcho, uid: uid, gid: gid, ..s },
                Action::DisableEcho,
            ),
            Event::Failed(e) => failed(s, e),
            _ => arbitrary(),
        },
        Stage::DisablingEcho => match ev {
            Event::Done => ask(s, Stage::Prompting, Action::Prompt),
            Event::Failed(e) => failed(s, e),
            _ => arbitrary(),
        },
        Stage::Prompting => match ev {
            Event::Done => ask(s, Stage::RestoringEcho, Action::RestoreEcho),
            Event::EndOfInput => (
                Transition {
                    stage: Stage::RestoringEcho,
                    pending: Some(Error::ExpectedLine),
                    ..s
                },
                Action::RestoreEcho,
            ),
            Event::Failed(e) => (
                Transition { stage: Stage::RestoringEcho, pending: Some(e), ..s },
                Action::RestoreEcho,
            ),
            _ => arbitrary(),
        },
        Stage::RestoringEcho => match (ev, s.pending) {
            (Event::Done, None) => ask(s, Stage::Authenticating, Action::Authenticate),
            (Event::Done, Some(p)) => failed(s, p),
            (Event::Failed(e), None) => failed(s, e),
            (Event::Failed(_), Some(p)) => failed(s, p),
            _ => arbitrary(),
        },
        Stage::Authenticating => match ev {
            Event::Done => ask(s, Stage::OpeningSession, Action::OpenSession),
            Event::Failed(e) => failed(s, e),
            _ => arbitrary(),
        },
        Stage::OpeningSession => match ev {
            Event::Done => ask(s, Stage::SettingGroup, Action::SetGroup(s.gid)),
            Event::Failed(e) => failed(s, e),
            _ => arbitrary(),
        },
        Stage::SettingGroup => match ev {
            Event::Done => ask(s, Stage::SettingUser, Action::SetUser(s.uid)),
            Event::Failed(e) => failed(s, e),
            _ => arbitrary(),
        },
        Stage::SettingUser => match ev {
            Event::Done => ask(s, Stage::Replacing, Action::Exec),
            Event::Failed(e) => failed(s, e),
            _ => arbitrary(),
        },
        Stage::Replacing => match ev {
            Event::Failed(e) => failed(s, e),
            _ => arbitrary(),
        },
        _ => arbitrary(),
    }
}

impl Transition {
    /// The state's invariant.
    pub open spec fn wf(&self) -> bool {
        &&& (self.pending is Some ==> self.stage is RestoringEcho)
        &&& (!self.authorized ==> before_authorization(self.stage))
        &&& (self.policy is Plain ==> self.authorized)
    }

    /// Terminal echo is off: the saved attributes have not been put back.
    pub open spec fn echo_suppressed(&self) -> bool {
        self.stage is Prompting || self.stage is RestoringEcho
    }

    /// A pipeline that has not started.
    pub fn new(policy: Policy) -> (r: Transition)
        ensures
            r.wf(),
            r.policy == policy,
            r.stage == Stage::Start,
            r.authorized == (policy is Plain),
            r.pending is None,
            r.uid == 0,
            r.gid == 0,
    {
        let authorized = match policy {
            Policy::Plain => true,
            Policy::Gated => false,
        };
        Transition { policy, stage: Stage::Start, authorized, uid: 0, gid: 0, pending: None }
    }

    /// The first action: the authorization check in the gated pipeline,
    /// preparation in the plain one.
    pub fn start(&mut self) -> (r: Action)
        requires
            old(self).wf(),
            old(self).stage is Start,
        ensures
            final(self).wf(),
            old(self).authorized == (old(self).policy is Plain) && old(self).uid == 0
                && old(self).gid == 0 ==> (*final(self), r) == begin(old(self).policy),
            match old(self).policy {
                Policy::Gated => r == Action::CheckGroups && *final(self) == (Transition {
                    stage: Stage::Authorizing,
                    ..*old(self)
                }),
                Policy::Plain => r == Action::Prepare && *final(self) == (Transition {
                    stage: Stage::Preparing,
                    ..*old(self)
                }),
            },
    {
        match self.policy {
            Policy::Gated => {
                self.stage = Stage::Authorizing;
                Action::CheckGroups
            },
            Policy::Plain => {
                self.stage = Stage::Preparing;
                Action::Prepare
            },
        }
    }

    /// Whether `ev` is an answer that the last action can have.
    pub fn expects(&self, ev: &Event) -> (r: bool)
        ensures
            r == expects(*self, *ev),
    {
        match self.stage {
            Stage::Start | Stage::Finished => false,
            Stage::Authorizing => matches!(ev, Event::Groups(_) | Event::Failed(_)),
            Stage::Preparing => matches!(ev, Event::Prepared(_, _) | Event::Failed(_)),
            Stage::Prompting => matches!(ev, Event::Done | Event::EndOfInput | Event::Failed(_)),
            Stage::Replacing => matches!(ev, Event::Failed(_)),
            _ => matches!(ev, Event::Done | Event::Failed(_)),
        }
    }

    fn fail(&mut self, e: Error) -> (r: Action)
        ensures
            (*final(self), r) == failed(*old(self), e),
    {
        self.stage = Stage::Finished;
        self.pending = None;
        Action::Fail(e)
    }

    fn ask(&mut self, stage: Stage, a: Action) -> (r: Action)
        ensures
            (*final(self), r) == ask(*old(self), stage, a),
    {
        self.stage = stage;
        a
    }

    /// Takes the outcome of the last action and returns the next one.
    pub fn step(&mut self, ev: Event) -> (r: Action)
        requires
            old(self).wf(),
            expects(*old(self), ev),
        ensures
            final(self).wf(),
            (*final(self), r) == next(*old(self), ev),
    {
        match self.stage {
            Stage::Authorizing => match ev {
                Event::Groups(groups) => match check_authorization(groups) {
                    Ok(()) => {
                        self.stage = Stage::Preparing;
                        self.authorized = true;
                        Action::Prepare
                    },
                    Err(e) => self.fail(e),
                },
                Event::Failed(e) => self.fail(e),
                _ => self.fail(Error::GetUserGroups),
            },
            Stage::Preparing => match ev {
                Event::Prepared(uid, gid) => {
                    self.stage = Stage::DisablingEcho;
                    self.uid = uid;
                    self.gid = gid;
                    Action::DisableEcho
                },
                Event::Failed(e) => self.fail(e),
                _ => self.fail(Error::NoSuchUser),
            },
            Stage::DisablingEcho => match ev {
                Event::Done => self.ask(Stage::Prompting, Action::Prompt),
                Event::Failed(e) => self.fail(e),
                _ => self.fail(Error::ExpectedLine),
            },
            Stage::Prompting => match ev {
                Event::Done => self.ask(Stage::RestoringEcho, Action::RestoreEcho),
                Event::EndOfInput => {
                    self.pending = Some(Error::ExpectedLine);
                    self.ask(Stage::RestoringEcho, Action::RestoreEcho)
                },
                Event::Failed(e) => {
                    self.pending = Some(e);
                    self.ask(Stage::RestoringEcho, Action::RestoreEcho)
                },
                _ => self.fail(Error::ExpectedLine),
            },
            Stage::RestoringEcho => match (ev, self.pending) {
                (Event::Done, None) => self.ask(Stage::Authenticating, Action::Authenticate),
                (Event::Done, Some(p)) => self.fail(p),
                (Event::Failed(e), None) => self.fail(e),
                (Event::Failed(_), Some(p)) => self.fail(p),
                _ => self.fail(Error::ExpectedLine),
            },
            Stage::Authenticating => match ev {
                Event::Done => self.ask(Stage::OpeningSession, Action::OpenSession),
                Event::Failed(e) => self.fail(e),
                _ => self.fail(Error::ExpectedLine),
            },
            Stage::OpeningSession => match ev {
                Event::Done => {
                    let gid = self.gid;
                    self.ask(Stage::SettingGroup, Action::SetGroup(gid))
                },
                Event::Failed(e) => self.fail(e),
                _ => self.fail(Error::ExpectedLine),
            },
            Stage::SettingGroup => match ev {
                Event::Done => {
                    let uid = self.uid;
                    self.ask(Stage::SettingUser, Action::SetUser(uid))
                },
                Event::Failed(e) => self.fail(e),
                _ => self.fail(Error::ExpectedLine),
            },
            Stage::SettingUser => match ev {
                Event::Done => self.ask(Stage::Replacing, Action::Exec),
                Event::Failed(e) => self.fail(e),
                _ => self.fail(Error::ExpectedLine),
            },
            Stage::Replacing => match ev {
                Event::Failed(e) => self.fail(e),
                _ => self.fail(Error::ExpectedLine),
            },
            _ => self.fail(Error::ExpectedLine),
        }
    }
}

/// Each step keeps the state's invariant.
pub proof fn lemma_step_keeps_invariant(s: Transition, ev: Event)
    requires
        s.wf(),
        expects(s, ev),
    ensures
        next(s, ev).0.wf(),
{
}

/// Echo is always restored: whatever the prompt's outcome (a line, end of
/// input, a failure), the next action puts the saved terminal attributes
/// back; echo is switched back on by that action alone; and while echo is
/// off the pipeline asks for nothing but the prompt and the restoration, so
/// it never fails, authenticates or replaces the process with echo off.
pub proof fn lemma_echo_restored(s: Transition, ev: Event)
    requires
        s.wf(),
        expects(s, ev),
    ensures
        s.stage is Prompting ==> next(s, ev).1 == Action::RestoreEcho,
        s.echo_suppressed() && !next(s, ev).0.echo_suppressed() ==> s.stage is RestoringEcho,
        !s.echo_suppressed() && next(s, ev).0.echo_suppressed() ==> s.stage is DisablingEcho
            && ev is Done && next(s, ev).1 == Action::Prompt,
        next(s, ev).0.echo_suppressed() ==> next(s, ev).1 == Action::Prompt || next(s, ev).1
            == Action::RestoreEcho,
{
}

/// The group identity changes before the user identity: the user id is set
/// only once the group change has succeeded, and the process image is
/// replaced only once both have.
pub proof fn lemma_group_before_user(s: Transition, ev: Event)
    requires
        s.wf(),
        expects(s, ev),
    ensures
        next(s, ev).1 is SetGroup ==> s.stage is OpeningSession && ev is Done
            && next(s, ev).1 == Action::SetGroup(s.gid),
        next(s, ev).1 is SetUser ==> s.stage is SettingGroup && ev is Done
            && next(s, ev).1 == Action::SetUser(s.uid),
        next(s, ev).1 is Exec ==> s.stage is SettingUser && ev is Done,
        next(s, ev).0.gid == s.gid || s.stage is Preparing,
        next(s, ev).0.uid == s.uid || s.stage is Preparing,
{
}

/// In the gated pipeline an invoker outside the required group is turned
/// away before any prompt: the group check fails the pipeline, a failed
/// pipeline expects nothing more, and the prompt and authentication are
/// asked for only once the check has passed.
pub proof fn lemma_authorization_short_circuit(s: Transition, ev: Event)
    requires
        s.wf(),
        expects(s, ev),
    ensures
        s.stage is Authorizing && (ev matches Event::Groups(Some(g)) && !has_group(
            g@,
            SUDO_GROUP_NAME@,
        )) ==> next(s, ev) == failed(s, Error::UserNotInSudoGroup),
        next(s, ev).1 is Fail ==> next(s, ev).0.stage is Finished,
        forall|later: Event| !expects(failed(s, Error::UserNotInSudoGroup).0, later),
        next(s, ev).1 is DisableEcho || next(s, ev).1 is Prompt || next(s, ev).1 is Authenticate
            ==> s.authorized,
        s.policy is Gated && !s.authorized && next(s, ev).0.authorized ==> (ev matches Event::Groups(
            Some(g),
        ) && has_group(g@, SUDO_GROUP_NAME@)),
{
}

/// A rejected credential ends the pipeline: the session is opened only
/// after authentication succeeded, and a failed authentication is reported
/// as it came with nothing asked afterwards.
pub proof fn lemma_no_session_without_authentication(s: Transition, ev: Event)
    requires
        s.wf(),
        expects(s, ev),
    ensures
        next(s, ev).1 is OpenSession ==> s.stage is Authenticating && ev is Done,
        s.stage is Authenticating && (ev matches Event::Failed(e)) ==> next(s, ev) == failed(
            s,
            ev->Failed_0,
        ),
{
}

/// A fresh pipeline after its first action.
pub open spec fn begin(policy: Policy) -> (Transition, Action) {
    match policy {
        Policy::Gated => (
            Transition {
                policy: policy,
                stage: Stage::Authorizing,
                authorized: false,
                uid: 0,
                gid: 0,
                pending: None,
            },
            Action::CheckGroups,
        ),
        Policy::Plain => (
            Transition {
                policy: policy,
                stage: Stage::Preparing,
                authorized: true,
                uid: 0,
                gid: 0,
                pending: None,
            },
            Action::Prepare,
        ),
    }
}

/// Every event of `evs`, fed in order from `s`, is one the pipeline expects.
pub open spec fn accepted(s: Transition, evs: Seq<Event>) -> bool
    decreases evs.len(),
{
    evs.len() == 0 || (expects(s, evs[0]) && accepted(next(s, evs[0]).0, evs.drop_first()))
}

/// The state reached and the actions asked for when `evs` are fed in order from `s`.
pub open spec fn run(s: Transition, evs: Seq<Event>) -> (Transition, Seq<Action>)
    decreases evs.len(),
{
    if evs.len() == 0 {
        (s, Seq::empty())
    } else {
        let (t, a) = next(s, evs[0]);
        let (u, rest) = run(t, evs.drop_first());
        (u, seq![a] + rest)
    }
}

proof fn lemma_run_group_before_user(s: Transition, evs: Seq<Event>, i: int)
    requires
        s.wf(),
        accepted(s, evs),
        0 <= i < run(s, evs).1.len(),
        run(s, evs).1[i] is SetUser,
    ensures
        (i == 0 && s.stage is SettingGroup) || exists|j: int|
            0 <= j < i && #[trigger] run(s, evs).1[j] is SetGroup,
    decreases evs.len(),
{
    let (t, a) = next(s, evs[0]);
    let rest = evs.drop_first();
    assert(run(s, evs).1 == seq![a] + run(t, rest).1);
    lemma_step_keeps_invariant(s, evs[0]);
    lemma_group_before_user(s, evs[0]);
    if i > 0 {
        assert(run(s, evs).1[i] == run(t, rest).1[i - 1]);
        lemma_run_group_before_user(t, rest, i - 1);
        if i - 1 == 0 && t.stage is SettingGroup {
            assert(run(s, evs).1[0] is SetGroup);
        } else {
            let j = choose|j: int| 0 <= j < i - 1 && #[trigger] run(t, rest).1[j] is SetGroup;
            assert(run(s, evs).1[j + 1] is SetGroup);
        }
    }
}

/// Over a whole run of a fresh pipeline, the user identity is set only
/// after the group identity was.
pub proof fn lemma_run_sets_group_first(policy: Policy, evs: Seq<Event>, i: int)
    requires
        accepted(begin(policy).0, evs),
        0 <= i < run(begin(policy).0, evs).1.len(),
        run(begin(policy).0, evs).1[i] is SetUser,
    ensures
        exists|j: int| 0 <= j < i && #[trigger] run(begin(policy).0, evs).1[j] is SetGroup,
{
    lemma_run_group_before_user(begin(policy).0, evs, i);
}

/// Over a whole run of the gated pipeline, an invoker outside the required
/// group gets the authorization failure as the only answer: the pipeline
/// then expects nothing more, so no prompt and no authentication follow.
pub proof fn lemma_run_unauthorized(evs: Seq<Event>, g: Option<Vec<String>>)
    requires
        accepted(begin(Policy::Gated).0, evs),
        evs.len() > 0,
        evs[0] == Event::Groups(g),
        !(g matches Some(v) && has_group(v@, SUDO_GROUP_NAME@)),
    ensures
        evs.len() == 1,
        run(begin(Policy::Gated).0, evs).1 == seq![
            Action::Fail(
                if g is None {
                    Error::GetUserGroups
                } else {
                    Error::UserNotInSudoGroup
                },
            ),
        ],
{
    let s = begin(Policy::Gated).0;
    let t = next(s, evs[0]).0;
    assert(t.stage is Finished);
    assert(accepted(t, evs.drop_first()));
    if evs.drop_first().len() > 0 {
        assert(!expects(t, evs.drop_first()[0]));
    }
    assert(evs.drop_first().len() == 0);
    assert(run(t, evs.drop_first()).1 =~= Seq::<Action>::empty());
    assert(run(s, evs).1 =~= seq![next(s, evs[0]).1]);
}

proof fn lemma_run_prompt_then_restore(s: Transition, evs: Seq<Event>, j: int)
    requires
        s.wf(),
        accepted(s, evs),
        0 <= j,
        j + 1 < run(s, evs).1.len(),
        run(s, evs).1[j] == Action::Prompt,
    ensures
        run(s, evs).1[j + 1] == Action::RestoreEcho,
    decreases evs.len(),
{
    let (t, a) = next(s, evs[0]);
    let rest = evs.drop_first();
    assert(run(s, evs).1 == seq![a] + run(t, rest).1);
    lemma_step_keeps_invariant(s, evs[0]);
    if j == 0 {
        assert(t.stage is Prompting);
        assert(rest.len() > 0);
        assert(accepted(t, rest));
        assert(run(t, rest).1[0] == next(t, rest[0]).1);
        lemma_echo_restored(t, rest[0]);
    } else {
        assert(run(s, evs).1[j] == run(t, rest).1[j - 1]);
        lemma_run_prompt_then_restore(t, rest, j - 1);
    }
}

/// Over any run, whatever the prompt's outcome, the action right after the
/// prompt puts the saved terminal attributes back: nothing is done, and no
/// failure is reported, between reading the credential and restoring echo.
pub proof fn lemma_run_restores_echo_after_prompt(policy: Policy, evs: Seq<Event>, j: int)
    requires
        accepted(begin(policy).0, evs),
        0 <= j,
        j + 1 < run(begin(policy).0, evs).1.len(),
        run(begin(policy).0, evs).1[j] == Action::Prompt,
    ensures
        run(begin(policy).0, evs).1[j + 1] == Action::RestoreEcho,
{
    lemma_run_prompt_then_restore(begin(policy).0, evs, j);
}

proof fn lemma_run_fail_ends(s: Transition, evs: Seq<Event>, i: int)
    requires
        s.wf(),
        accepted(s, evs),
        0 <= i < run(s, evs).1.len(),
        run(s, evs).1[i] is Fail,
    ensures
        i == run(s, evs).1.len() - 1,
        evs.len() == i + 1,
    decreases evs.len(),
{
    let (t, a) = next(s, evs[0]);
    let rest = evs.drop_first();
    assert(run(s, evs).1 == seq![a] + run(t, rest).1);
    lemma_step_keeps_invariant(s, evs[0]);
    assert(accepted(t, rest));
    if i == 0 {
        assert(t.stage is Finished);
        if rest.len() > 0 {
            assert(!expects(t, rest[0]));
        }
        assert(run(t, rest).1.len() == 0);
    } else {
        assert(run(s, evs).1[i] == run(t, rest).1[i - 1]);
        lemma_run_fail_ends(t, rest, i - 1);
    }
}

/// A failure ends every run: once the pipeline reports a failure (a
/// rejected credential, a failed identity change, anything else) it asks
/// for nothing more, so no session is opened after a failed authentication
/// and nothing is executed after a failed identity change.
pub proof fn lemma_run_failure_is_final(policy: Policy, evs: Seq<Event>, i: int)
    requires
        accepted(begin(policy).0, evs),
        0 <= i < run(begin(policy).0, evs).1.len(),
        run(begin(policy).0, evs).1[i] is Fail,
    ensures
        i == run(begin(policy).0, evs).1.len() - 1,
        evs.len() == i + 1,
{
    lemma_run_fail_ends(begin(policy).0, evs, i);
}

} // verus!
