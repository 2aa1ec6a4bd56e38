//! The session phase: the decrypted passphrase goes to a helper that outlives
//! the process that opens the session.
//!
//! To outlive it the process forks, its child forks in turn and ends, and the
//! grandchild, which then belongs to init, runs the helper and writes the
//! passphrase to it. A [`SessionPhase`] says what to do next and is told what
//! came of it, in each of the three processes; after a fork each of them has a
//! phase of its own. A phase collects what is to be logged on the way. It holds
//! the passphrase while its process has a use for it, and overwrites it then.

use vstd::prelude::*;

use crate::bytes::{wipe, zeros};
use crate::decimal::decimal;
use crate::pam::{get_username, UserItem, PAM_IGNORE, PAM_SUCCESS};
use crate::secret::{
    decrypt_tpm_secret, decrypted_lines, decrypting_line, law_secret_is_what_was_written,
    log_decrypted, log_decrypting, secret_of, texts, CommandOutput, SecretError,
};
use crate::syslog::{joined, logged, quiet, Level, Line, Messages, Sink};

verus! {

/// The path of the helper.
pub const HELPER: &'static str = "/usr/local/bin/gkd-unlock";

/// The program and arguments that run the helper for a user.
pub open spec fn helper_argv(username: Seq<char>) -> Seq<Seq<char>> {
    seq![HELPER@, username]
}

/// Builds the command that runs the helper for a user. The passphrase has no
/// part in it.
pub fn helper_command(username: &str) -> (argv: Vec<String>)
    ensures
        texts(argv@) == helper_argv(username@),
        argv@.len() == 2,
        argv@[0]@ == "/usr/local/bin/gkd-unlock"@,
        argv@[1]@ == username@,
{
    let mut argv: Vec<String> = Vec::new();
    argv.push(HELPER.to_owned());
    argv.push(username.to_owned());
    assert(texts(argv@) =~= helper_argv(username@));
    argv
}

/// What the phase came to, in the process that opens the session.
#[derive(Clone, Copy, Debug, PartialEq, Eq, Structural)]
pub enum SessionOutcome {
    /// The user is not known.
    NoUser,
    /// There is no secret.
    NoSecret(SecretError),
    /// The helper is not installed.
    NoHelper,
    /// The process could not fork.
    ForkFailed,
    /// The helper is on its way.
    Launched,
}

impl SessionOutcome {
    /// The result code that stands for the outcome.
    pub open spec fn spec_code(self) -> i32 {
        match self {
            SessionOutcome::Launched => PAM_SUCCESS,
            _ => PAM_IGNORE,
        }
    }

    /// Gives the result code that stands for the outcome.
    pub fn code(&self) -> (code: i32)
        ensures
            code == self.spec_code(),
    {
        match self {
            SessionOutcome::Launched => PAM_SUCCESS,
            _ => PAM_IGNORE,
        }
    }
}

/// What is to be done next.
#[derive(Clone, Copy, Debug, PartialEq, Eq, Structural)]
pub enum SessionAction {
    /// Run the command that decrypts the user's secret.
    Decrypt,
    /// Find out whether the helper is installed.
    FindHelper,
    /// Fork.
    Fork,
    /// In the process that opens the session: wait for the child with this ID.
    Reap(i32),
    /// In the child: start a session of its own.
    Detach,
    /// In the child: fork again.
    ForkAgain,
    /// In the grandchild: start the helper.
    Spawn,
    /// In the grandchild: write the passphrase to the helper's standard input
    /// and close that.
    Write,
    /// In the grandchild: wait for the helper.
    Wait,
    /// In the process that opens the session: return.
    Return(SessionOutcome),
    /// In the child or grandchild: exit with this code.
    Exit(i32),
}

/// What came of what was to be done.
pub enum SessionEvent {
    /// What the command came back with, where it could be run.
    Output(Option<CommandOutput>),
    /// Whether the helper is installed.
    HelperFound(bool),
    /// What forking returned, and the text of the error where that is -1.
    Forked(i32, String),
    /// The child is no more.
    Reaped,
    /// The child has a session of its own.
    Detached,
    /// The helper was started, or not.
    Spawned(Result<(), String>),
    /// The passphrase was written, as far as the helper took it.
    Written,
    /// The helper is no more.
    Waited,
}

/// The state of the phase in one process.
#[verifier::ext_equal]
pub struct SessionView {
    /// What is to be done next.
    pub action: SessionAction,
    /// The user's name.
    pub username: Seq<char>,
    /// The passphrase, while it is in use.
    pub secret: Seq<u8>,
    /// What is to be logged so far.
    pub log: Seq<Line>,
}

/// What is logged where the user is not known.
pub open spec fn no_user_line() -> Line {
    logged(Level::Warning, "could not get PAM_USER in session phase"@)
}

/// What is logged where there is no secret, behind why there is none.
pub open spec fn no_secret_line(username: Seq<char>) -> Line {
    logged(Level::Debug, "no secret available for '"@ + username + "', skipping unlock"@)
}

/// What is logged where the helper is not installed.
pub open spec fn no_helper_line() -> Line {
    logged(Level::Error, "helper not found at "@ + HELPER@)
}

/// What is logged before the process forks.
pub open spec fn launching_line(username: Seq<char>) -> Line {
    logged(Level::Info, "launching "@ + HELPER@ + " for '"@ + username + "'"@)
}

/// What is logged where the process could not fork.
pub open spec fn fork_failed_line(error: Seq<char>) -> Line {
    logged(Level::Error, "fork() failed: "@ + error)
}

/// What is logged once the helper is on its way.
pub open spec fn launched_line(username: Seq<char>) -> Line {
    logged(Level::Debug, "helper launched in background for '"@ + username + "'"@)
}

/// What the grandchild says where the helper could not be started. It does not
/// use the system log, which is not safe to use after a fork.
pub open spec fn spawn_failed_line(error: Seq<char>) -> Line {
    Line { sink: Sink::Stderr, text: "pam_tpm_gnome_keyring: spawn failed: "@ + error }
}

/// The state that the phase starts from.
pub open spec fn session_start(user: UserItem) -> SessionView {
    SessionView {
        action: match user.username() {
            None => SessionAction::Return(SessionOutcome::NoUser),
            Some(_) => SessionAction::Decrypt,
        },
        username: match user.username() {
            Some(name) => name,
            None => Seq::<char>::empty(),
        },
        secret: Seq::<u8>::empty(),
        log: match user.username() {
            Some(name) => seq![decrypting_line(name)],
            None => seq![no_user_line()],
        },
    }
}

/// A state that goes on with the passphrase.
pub open spec fn going_on(s: SessionView, action: SessionAction, lines: Seq<Line>) -> SessionView {
    SessionView { action, log: s.log + lines, ..s }
}

/// A state that goes on without the passphrase.
pub open spec fn wiped(s: SessionView, action: SessionAction, lines: Seq<Line>) -> SessionView {
    SessionView { action, secret: zeros(s.secret.len()), log: s.log + lines, ..s }
}

/// The state after an event. An event that is no answer to what was to be done
/// changes nothing.
pub open spec fn session_next(s: SessionView, event: SessionEvent) -> SessionView {
    match (s.action, event) {
        (SessionAction::Decrypt, SessionEvent::Output(output)) => match secret_of(output) {
            Ok(secret) => SessionView {
                action: SessionAction::FindHelper,
                secret,
                log: s.log + decrypted_lines(secret_of(output), s.username),
                ..s
            },
            Err(e) => going_on(
                s,
                SessionAction::Return(SessionOutcome::NoSecret(e)),
                decrypted_lines(secret_of(output), s.username).push(no_secret_line(s.username)),
            ),
        },
        (SessionAction::FindHelper, SessionEvent::HelperFound(found)) => if found {
            going_on(s, SessionAction::Fork, seq![launching_line(s.username)])
        } else {
            wiped(s, SessionAction::Return(SessionOutcome::NoHelper), seq![no_helper_line()])
        },
        (SessionAction::Fork, SessionEvent::Forked(pid, error)) => if pid == -1 {
            wiped(
                s,
                SessionAction::Return(SessionOutcome::ForkFailed),
                seq![fork_failed_line(error@)],
            )
        } else if pid == 0 {
            going_on(s, SessionAction::Detach, seq![])
        } else {
            wiped(s, SessionAction::Reap(pid), seq![])
        },
        (SessionAction::Reap(_), SessionEvent::Reaped) => going_on(
            s,
            SessionAction::Return(SessionOutcome::Launched),
            seq![launched_line(s.username)],
        ),
        (SessionAction::Detach, SessionEvent::Detached) => going_on(
            s,
            SessionAction::ForkAgain,
            seq![],
        ),
        (SessionAction::ForkAgain, SessionEvent::Forked(pid, _)) => if pid == 0 {
            going_on(s, SessionAction::Spawn, seq![])
        } else {
            wiped(s, SessionAction::Exit(0), seq![])
        },
        (SessionAction::Spawn, SessionEvent::Spawned(Ok(()))) => going_on(
            s,
            SessionAction::Write,
            seq![],
        ),
        (SessionAction::Spawn, SessionEvent::Spawned(Err(error))) => wiped(
            s,
            SessionAction::Exit(1),
            seq![spawn_failed_line(error@)],
        ),
        (SessionAction::Write, SessionEvent::Written) => wiped(s, SessionAction::Wait, seq![]),
        (SessionAction::Wait, SessionEvent::Waited) => going_on(
            s,
            SessionAction::Exit(0),
            seq![],
        ),
        _ => s,
    }
}

/// The state after a run of events.
pub open spec fn session_run(s: SessionView, events: Seq<SessionEvent>) -> SessionView
    decreases events.len(),
{
    if events.len() == 0 {
        s
    } else {
        session_next(session_run(s, events.drop_last()), events.last())
    }
}

/// The session phase in one process.
pub struct SessionPhase {
    action: SessionAction,
    username: String,
    secret: Vec<u8>,
    messages: Messages,
}

impl View for SessionPhase {
    type V = SessionView;

    closed spec fn view(&self) -> SessionView {
        SessionView {
            action: self.action,
            username: self.username@,
            secret: self.secret@,
            log: self.messages@,
        }
    }
}

impl SessionPhase {
    /// Starts the phase.
    pub fn new(user: &UserItem) -> (phase: SessionPhase)
        ensures
            phase@ == session_start(*user),
    {
        let mut messages: Messages = Messages::new();
        match get_username(user) {
            Some(username) => {
                log_decrypting(&mut messages, username.as_str());
                assert(messages@ =~= seq![decrypting_line(username@)]);
                SessionPhase {
                    action: SessionAction::Decrypt,
                    username,
                    secret: Vec::new(),
                    messages,
                }
            },
            None => {
                messages.log(
                    Level::Warning,
                    "could not get PAM_USER in session phase".to_owned(),
                );
                assert(messages@ =~= seq![no_user_line()]);
                SessionPhase {
                    action: SessionAction::Return(SessionOutcome::NoUser),
                    username: String::new(),
                    secret: Vec::new(),
                    messages,
                }
            },
        }
    }

    /// What is to be done next.
    pub fn action(&self) -> (action: SessionAction)
        ensures
            action == self@.action,
    {
        self.action
    }

    /// The user's name.
    pub fn username(&self) -> (username: &str)
        ensures
            username@ == self@.username,
    {
        self.username.as_str()
    }

    /// The passphrase, to be written to the helper when it is its turn.
    pub fn secret(&self) -> (secret: &[u8])
        ensures
            secret@ == self@.secret,
    {
        self.secret.as_slice()
    }

    /// What is to be logged so far.
    pub fn messages(&self) -> (messages: &Messages)
        ensures
            messages@ == self@.log,
    {
        &self.messages
    }

    /// Takes in what came of the last action.
    pub fn step(&mut self, event: SessionEvent)
        ensures
            final(self)@ == session_next(old(self)@, event),
    {
        match (self.action, event) {
            (SessionAction::Decrypt, SessionEvent::Output(output)) => {
                let mut output: Option<CommandOutput> = output;
                let result = decrypt_tpm_secret(&mut output);
                log_decrypted(&mut self.messages, &result, self.username.as_str());
                match result {
                    Ok(secret) => {
                        self.secret = secret;
                        self.action = SessionAction::FindHelper;
                    },
                    Err(e) => {
                        self.messages.log(
                            Level::Debug,
                            joined(
                                "no secret available for '",
                                self.username.as_str(),
                                "', skipping unlock",
                            ),
                        );
                        self.action = SessionAction::Return(SessionOutcome::NoSecret(e));
                    },
                }
            },
            (SessionAction::FindHelper, SessionEvent::HelperFound(found)) => {
                if found {
                    let mut text: String = joined("launching ", HELPER, " for '");
                    text.append(self.username.as_str());
                    text.append("'");
                    self.messages.log(Level::Info, text);
                    self.action = SessionAction::Fork;
                } else {
                    let mut text: String = "helper not found at ".to_owned();
                    text.append(HELPER);
                    self.messages.log(Level::Error, text);
                    wipe(&mut self.secret);
                    self.action = SessionAction::Return(SessionOutcome::NoHelper);
                }
            },
            (SessionAction::Fork, SessionEvent::Forked(pid, error)) => {
                if pid == -1 {
                    let mut text: String = "fork() failed: ".to_owned();
                    text.append(error.as_str());
                    self.messages.log(Level::Error, text);
                    wipe(&mut self.secret);
                    self.action = SessionAction::Return(SessionOutcome::ForkFailed);
                } else if pid == 0 {
                    self.action = SessionAction::Detach;
                } else {
                    wipe(&mut self.secret);
                    self.action = SessionAction::Reap(pid);
                }
            },
            (SessionAction::Reap(_), SessionEvent::Reaped) => {
                self.messages.log(
                    Level::Debug,
                    joined("helper launched in background for '", self.username.as_str(), "'"),
                );
                self.action = SessionAction::Return(SessionOutcome::Launched);
            },
            (SessionAction::Detach, SessionEvent::Detached) => {
                self.action = SessionAction::ForkAgain;
            },
            (SessionAction::ForkAgain, SessionEvent::Forked(pid, _)) => {
                if pid == 0 {
                    self.action = SessionAction::Spawn;
                } else {
                    wipe(&mut self.secret);
                    self.action = SessionAction::Exit(0);
                }
            },
            (SessionAction::Spawn, SessionEvent::Spawned(Ok(()))) => {
                self.action = SessionAction::Write;
            },
            (SessionAction::Spawn, SessionEvent::Spawned(Err(error))) => {
                let mut text: String = "pam_tpm_gnome_keyring: spawn failed: ".to_owned();
                text.append(error.as_str());
                self.messages.put(Sink::Stderr, text);
                wipe(&mut self.secret);
                self.action = SessionAction::Exit(1);
            },
            (SessionAction::Write, SessionEvent::Written) => {
                wipe(&mut self.secret);
                self.action = SessionAction::Wait;
            },
            (SessionAction::Wait, SessionEvent::Waited) => {
                self.action = SessionAction::Exit(0);
            },
            _ => {},
        }
        assert(self@.log =~= session_next(old(self)@, event).log);
    }
}

/// Whether the passphrase still has a use when this is to be done next.
pub open spec fn needs_secret(action: SessionAction) -> bool {
    match action {
        SessionAction::FindHelper => true,
        SessionAction::Fork => true,
        SessionAction::Detach => true,
        SessionAction::ForkAgain => true,
        SessionAction::Spawn => true,
        SessionAction::Write => true,
        _ => false,
    }
}

/// Whether the action belongs to the child or the grandchild.
pub open spec fn is_below(action: SessionAction) -> bool {
    match action {
        SessionAction::Detach => true,
        SessionAction::ForkAgain => true,
        SessionAction::Exit(_) => true,
        _ => is_far_below(action),
    }
}

/// Whether the action is one of the grandchild's alone.
pub open spec fn is_far_below(action: SessionAction) -> bool {
    match action {
        SessionAction::Spawn => true,
        SessionAction::Write => true,
        SessionAction::Wait => true,
        _ => false,
    }
}

/// What was to be done when the event at `i` came.
pub open spec fn asked(start: SessionView, events: Seq<SessionEvent>, i: int) -> SessionAction {
    session_run(start, events.take(i)).action
}

/// Whether the phase asked at `i` to have the secret decrypted, and the command
/// gave this one.
pub open spec fn decrypted_at(
    start: SessionView,
    events: Seq<SessionEvent>,
    i: int,
    secret: Seq<u8>,
) -> bool {
    &&& 0 <= i < events.len()
    &&& asked(start, events, i) == SessionAction::Decrypt
    &&& events[i] matches SessionEvent::Output(output) && secret_of(output) == Ok::<
        Seq<u8>,
        SecretError,
    >(secret)
}

/// Whether the process that opens the session forked at `i`, and this process
/// is the child.
pub open spec fn child_at(start: SessionView, events: Seq<SessionEvent>, i: int) -> bool {
    &&& 0 <= i < events.len()
    &&& asked(start, events, i) == SessionAction::Fork
    &&& events[i] matches SessionEvent::Forked(pid, _) && pid == 0
}

/// Whether the child forked again at `i`, and this process is the grandchild.
pub open spec fn grandchild_at(start: SessionView, events: Seq<SessionEvent>, i: int) -> bool {
    &&& 0 <= i < events.len()
    &&& asked(start, events, i) == SessionAction::ForkAgain
    &&& events[i] matches SessionEvent::Forked(pid, _) && pid == 0
}

/// Whether the process that opens the session forked at `i`, and this process
/// is the parent of a child with this ID.
pub open spec fn parent_at(
    start: SessionView,
    events: Seq<SessionEvent>,
    i: int,
    child: i32,
) -> bool {
    &&& 0 <= i < events.len()
    &&& asked(start, events, i) == SessionAction::Fork
    &&& events[i] matches SessionEvent::Forked(pid, _) && pid == child && pid != 0 && pid != -1
}

/// Whether the process that opens the session waited at `i` for its child with
/// this ID, until that was no more.
pub open spec fn reaped_at(
    start: SessionView,
    events: Seq<SessionEvent>,
    i: int,
    child: i32,
) -> bool {
    &&& 0 <= i < events.len()
    &&& asked(start, events, i) == SessionAction::Reap(child)
    &&& events[i] is Reaped
}

/// Whether the process that opens the session forked, and after that waited for
/// its child.
pub open spec fn forked_and_reaped(start: SessionView, events: Seq<SessionEvent>) -> bool {
    exists|j: int, i: int, child: i32|
        j < i && #[trigger] parent_at(start, events, j, child) && #[trigger] reaped_at(
            start,
            events,
            i,
            child,
        )
}

/// Whether this process is on the far side of both forks.
pub open spec fn forked_twice(start: SessionView, events: Seq<SessionEvent>) -> bool {
    exists|j: int, i: int|
        j < i && #[trigger] child_at(start, events, j) && #[trigger] grandchild_at(start, events, i)
}

/// What holds of every state that the phase can come to.
spec fn session_inv(start: SessionView, s: SessionView, events: Seq<SessionEvent>) -> bool {
    &&& !needs_secret(s.action) ==> s.secret == zeros(s.secret.len())
    &&& needs_secret(s.action) ==> exists|i: int|
        #[trigger] decrypted_at(start, events, i, s.secret)
    &&& is_below(s.action) ==> exists|j: int| #[trigger] child_at(start, events, j)
    &&& is_far_below(s.action) ==> forked_twice(start, events)
    &&& s.action matches SessionAction::Reap(pid) ==> exists|i: int|
        #[trigger] parent_at(start, events, i, pid)
    &&& s.action == SessionAction::Return(SessionOutcome::Launched) ==> forked_and_reaped(
        start,
        events,
    )
}

/// What happened stays as it was when another event comes.
proof fn lemma_past_stays(start: SessionView, before: Seq<SessionEvent>, event: SessionEvent)
    ensures
        ({
            let after = before.push(event);
            &&& forall|i: int, secret: Seq<u8>| #[trigger]
                decrypted_at(start, before, i, secret) ==> decrypted_at(start, after, i, secret)
            &&& forall|i: int| #[trigger]
                child_at(start, before, i) ==> child_at(start, after, i)
            &&& forall|i: int| #[trigger]
                grandchild_at(start, before, i) ==> grandchild_at(start, after, i)
            &&& forall|i: int, pid: i32| #[trigger]
                parent_at(start, before, i, pid) ==> parent_at(start, after, i, pid)
            &&& forall|i: int, pid: i32| #[trigger]
                reaped_at(start, before, i, pid) ==> reaped_at(start, after, i, pid)
        }),
{
    let after = before.push(event);
    assert forall|i: int| 0 <= i < before.len() implies #[trigger] asked(start, after, i) == asked(
        start,
        before,
        i,
    ) by {
        assert(after.take(i) =~= before.take(i));
    }
}

/// What holds of a state still holds of it when another event comes.
proof fn lemma_inv_stays(
    start: SessionView,
    s: SessionView,
    before: Seq<SessionEvent>,
    event: SessionEvent,
)
    requires
        session_inv(start, s, before),
    ensures
        session_inv(start, s, before.push(event)),
{
    lemma_past_stays(start, before, event);
}

proof fn lemma_session_inv(user: UserItem, events: Seq<SessionEvent>)
    ensures
        session_inv(session_start(user), session_run(session_start(user), events), events),
    decreases events.len(),
{
    assert(zeros(0) =~= Seq::<u8>::empty());
    if events.len() > 0 {
        let start = session_start(user);
        let before = events.drop_last();
        let event = events.last();
        lemma_session_inv(user, before);
        assert(events =~= before.push(event));
        lemma_session_step(start, session_run(start, before), before, event);
    }
}

#[verifier::spinoff_prover]
proof fn lemma_session_step(
    start: SessionView,
    s: SessionView,
    before: Seq<SessionEvent>,
    event: SessionEvent,
)
    requires
        s == session_run(start, before),
        session_inv(start, s, before),
    ensures
        session_inv(start, session_next(s, event), before.push(event)),
{
    let events = before.push(event);
    let n = before.len() as int;
    let t = session_next(s, event);
    lemma_inv_stays(start, s, before, event);
    if t != s {
        assert(asked(start, events, n) == s.action) by {
            assert(events.take(n) =~= before);
        }
        assert(events[n] == event);
        if needs_secret(s.action) && needs_secret(t.action) {
            let i = choose|i: int| #[trigger] decrypted_at(start, events, i, s.secret);
            assert(t.secret == s.secret);
            assert(decrypted_at(start, events, i, t.secret));
        }
        match s.action {
            SessionAction::Decrypt => {
                assert(t.action is FindHelper ==> decrypted_at(start, events, n, t.secret));
            },
            SessionAction::Fork => {
                assert(t.action is Detach ==> child_at(start, events, n));
                if let SessionAction::Reap(pid) = t.action {
                    assert(parent_at(start, events, n, pid));
                }
            },
            SessionAction::ForkAgain => {
                let j = choose|j: int| #[trigger] child_at(start, before, j);
                assert(child_at(start, events, j)) by {
                    lemma_past_stays(start, before, event);
                }
                assert(t.action is Spawn ==> grandchild_at(start, events, n));
            },
            SessionAction::Reap(pid) => {
                let j = choose|j: int| #[trigger] parent_at(start, before, j, pid);
                assert(parent_at(start, events, j, pid)) by {
                    lemma_past_stays(start, before, event);
                }
                assert(reaped_at(start, events, n, pid));
            },
            _ => {},
        }
    }
}

/// The passphrase is in a process's memory only while the process has a use for
/// it: when the process that opens the session returns, when a child exits, and
/// when the passphrase has been written, all that is left is zero.
pub proof fn law_secret_is_wiped(user: UserItem, events: Seq<SessionEvent>)
    requires
        !needs_secret(session_run(session_start(user), events).action),
    ensures
        session_run(session_start(user), events).secret == zeros(
            session_run(session_start(user), events).secret.len(),
        ),
{
    lemma_session_inv(user, events);
}

/// What is written to the helper is the secret that the command gave when the
/// phase asked for it, whole.
pub proof fn law_helper_gets_the_secret(user: UserItem, events: Seq<SessionEvent>)
    requires
        session_run(session_start(user), events).action is Write,
    ensures
        exists|i: int|
            #[trigger] decrypted_at(
                session_start(user),
                events,
                i,
                session_run(session_start(user), events).secret,
            ),
{
    lemma_session_inv(user, events);
}

/// The helper is run by a grandchild: a process that is on the far side of the
/// fork of the process that opens the session, and of the fork of its child
/// after that, and so outlives the process that opens the session.
pub proof fn law_helper_runs_in_grandchild(user: UserItem, events: Seq<SessionEvent>)
    requires
        is_far_below(session_run(session_start(user), events).action),
    ensures
        forked_twice(session_start(user), events),
{
    lemma_session_inv(user, events);
}

/// The process that opens the session returns success only where it has forked
/// and has waited for its child after that, and otherwise asks to be left out of
/// account.
pub proof fn law_success_means_forked(user: UserItem, events: Seq<SessionEvent>)
    requires
        session_run(session_start(user), events).action is Return,
    ensures
        ({
            let outcome = session_run(session_start(user), events).action->Return_0;
            if outcome.spec_code() == PAM_SUCCESS {
                forked_and_reaped(session_start(user), events)
            } else {
                outcome.spec_code() == PAM_IGNORE
            }
        }),
{
    lemma_session_inv(user, events);
}

/// Only the process that opens the session returns to libpam: what follows a
/// fork of which a process is the child, up to its exit, never does.
pub proof fn law_children_never_return(s: SessionView, event: SessionEvent)
    requires
        is_below(s.action),
    ensures
        is_below(session_next(s, event).action),
        !(session_next(s, event).action is Return),
{
}

/// A return and an exit are final.
pub proof fn law_session_end_is_final(s: SessionView, event: SessionEvent)
    requires
        s.action is Return || s.action is Exit,
    ensures
        session_next(s, event) == s,
{
}

proof fn lemma_session_run_splits(s: SessionView, a: Seq<SessionEvent>, b: Seq<SessionEvent>)
    ensures
        session_run(s, a + b) == session_run(session_run(s, a), b),
    decreases b.len(),
{
    if b.len() == 0 {
        assert(a + b =~= a);
    } else {
        assert((a + b).drop_last() =~= a + b.drop_last());
        assert((a + b).last() == b.last());
        lemma_session_run_splits(s, a, b.drop_last());
    }
}

proof fn lemma_session_end_stays(s: SessionView, events: Seq<SessionEvent>)
    requires
        s.action is Return || s.action is Exit,
    ensures
        session_run(s, events) == s,
    decreases events.len(),
{
    if events.len() > 0 {
        lemma_session_end_stays(s, events.drop_last());
    }
}

/// What happens in the process that opens the session: the command comes back,
/// the helper is looked for, the process forks and waits for its child. What
/// follows is of no account.
pub open spec fn parent_events(
    output: Option<CommandOutput>,
    found: bool,
    pid: i32,
    error: String,
    rest: Seq<SessionEvent>,
) -> Seq<SessionEvent> {
    seq![
        SessionEvent::Output(output),
        SessionEvent::HelperFound(found),
        SessionEvent::Forked(pid, error),
        SessionEvent::Reaped,
    ] + rest
}

/// What the process that opens the session comes to.
pub open spec fn parent_outcome(
    user: UserItem,
    result: Result<Seq<u8>, SecretError>,
    found: bool,
    pid: i32,
) -> SessionOutcome {
    if user.username() is None {
        SessionOutcome::NoUser
    } else if let Err(e) = result {
        SessionOutcome::NoSecret(e)
    } else if !found {
        SessionOutcome::NoHelper
    } else if pid == -1 {
        SessionOutcome::ForkFailed
    } else {
        SessionOutcome::Launched
    }
}

/// What the process that opens the session logs, where `decryption` is logged
/// of how decrypting the secret went.
pub open spec fn parent_log(
    user: UserItem,
    decryption: Seq<Line>,
    has_secret: bool,
    found: bool,
    pid: i32,
    error: Seq<char>,
) -> Seq<Line> {
    match user.username() {
        None => seq![no_user_line()],
        Some(name) => seq![decrypting_line(name)] + decryption + if !has_secret {
            seq![no_secret_line(name)]
        } else if !found {
            seq![no_helper_line()]
        } else if pid == -1 {
            seq![launching_line(name), fork_failed_line(error)]
        } else {
            seq![launching_line(name), launched_line(name)]
        },
    }
}

/// The process that opens the session returns, and logs, what its user, the
/// decryption, the search for the helper and its fork call for.
#[verifier::spinoff_prover]
pub proof fn law_parent_comes_to_outcome(
    user: UserItem,
    output: Option<CommandOutput>,
    found: bool,
    pid: i32,
    error: String,
    rest: Seq<SessionEvent>,
)
    requires
        pid != 0,
    ensures
        ({
            let s = session_run(
                session_start(user),
                parent_events(output, found, pid, error, rest),
            );
            &&& s.action == SessionAction::Return(
                parent_outcome(user, secret_of(output), found, pid),
            )
            &&& s.log == parent_log(
                user,
                decrypted_lines(secret_of(output), session_start(user).username),
                secret_of(output) is Ok,
                found,
                pid,
                error@,
            )
        }),
{
    let events = seq![
        SessionEvent::Output(output),
        SessionEvent::HelperFound(found),
        SessionEvent::Forked(pid, error),
        SessionEvent::Reaped,
    ];
    let start = session_start(user);
    lemma_session_run_splits(start, events, rest);
    assert(events.drop_last() =~= events.take(3));
    assert(events.take(3).drop_last() =~= events.take(2));
    assert(events.take(2).drop_last() =~= events.take(1));
    assert(events.take(1).drop_last() =~= Seq::<SessionEvent>::empty());
    assert(events.take(3).last() == events[2]);
    assert(events.take(2).last() == events[1]);
    assert(events.take(1).last() == events[0]);
    let s1 = session_next(start, events[0]);
    let s2 = session_next(s1, events[1]);
    let s3 = session_next(s2, events[2]);
    let s4 = session_next(s3, events[3]);
    assert(session_run(start, Seq::<SessionEvent>::empty()) == start);
    assert(session_run(start, events.take(1)) == s1);
    assert(session_run(start, events.take(2)) == s2);
    assert(session_run(start, events.take(3)) == s3);
    assert(session_run(start, events) == s4);
    assert(s4.action is Return);
    lemma_session_end_stays(s4, rest);
    assert(s4.log =~= parent_log(
        user,
        decrypted_lines(secret_of(output), start.username),
        secret_of(output) is Ok,
        found,
        pid,
        error@,
    ));
}

/// What the process that opens the session returns and logs does not depend on
/// the bytes of the secret, nor on anything that happens beyond its fork: on
/// the second fork, on whether the helper starts, or on how it ends. Two
/// processes that agree on the user, on whether there is a secret, on whether
/// the helper is installed and on the fork return the same code, and their logs
/// differ at most in what is logged of how decrypting went. So success means
/// that the helper is on its way, and no more.
pub proof fn law_result_hides_secret_and_helper(
    user: UserItem,
    a: Option<CommandOutput>,
    b: Option<CommandOutput>,
    found: bool,
    pid: i32,
    error: String,
    rest_a: Seq<SessionEvent>,
    rest_b: Seq<SessionEvent>,
)
    requires
        pid != 0,
        secret_of(a) is Ok <==> secret_of(b) is Ok,
    ensures
        ({
            let name = session_start(user).username;
            let s = session_run(session_start(user), parent_events(a, found, pid, error, rest_a));
            let t = session_run(session_start(user), parent_events(b, found, pid, error, rest_b));
            &&& s.action is Return && t.action is Return
            &&& s.action->Return_0.spec_code() == t.action->Return_0.spec_code()
            &&& s.log == parent_log(
                user,
                decrypted_lines(secret_of(a), name),
                secret_of(a) is Ok,
                found,
                pid,
                error@,
            )
            &&& t.log == parent_log(
                user,
                decrypted_lines(secret_of(b), name),
                secret_of(a) is Ok,
                found,
                pid,
                error@,
            )
        }),
{
    law_parent_comes_to_outcome(user, a, found, pid, error, rest_a);
    law_parent_comes_to_outcome(user, b, found, pid, error, rest_b);
}

/// Of the secret, what the process that opens the session logs shows only its
/// length, or why there is none: two processes that agree on that, and on the
/// user, the search for the helper and the fork, log the same.
pub proof fn law_log_hides_the_secret(
    user: UserItem,
    a: Option<CommandOutput>,
    b: Option<CommandOutput>,
    found: bool,
    pid: i32,
    error: String,
    rest_a: Seq<SessionEvent>,
    rest_b: Seq<SessionEvent>,
)
    requires
        pid != 0,
        match (secret_of(a), secret_of(b)) {
            (Ok(s), Ok(t)) => s.len() == t.len(),
            (Err(e), Err(f)) => e == f,
            _ => false,
        },
    ensures
        session_run(session_start(user), parent_events(a, found, pid, error, rest_a)).log
            == session_run(session_start(user), parent_events(b, found, pid, error, rest_b)).log,
{
    law_result_hides_secret_and_helper(user, a, b, found, pid, error, rest_a, rest_b);
    crate::secret::law_decryption_log_hides_the_secret(a, b, session_start(user).username);
}

/// For a user who has not enrolled, the phase leaves nothing in the log but
/// what helps to find faults.
pub proof fn law_session_is_quiet_without_enrolment(user: UserItem, output: CommandOutput)
    requires
        user.username() is Some,
        !output.success,
    ensures
        session_next(session_start(user), SessionEvent::Output(Some(output))).action is Return,
        quiet(session_next(session_start(user), SessionEvent::Output(Some(output))).log),
{
}

/// A phase starts with decrypting the secret, for every user whose name is
/// known. Where the name is not known it is over, with a warning.
pub proof fn law_session_starts_with_decryption(user: UserItem, name: Seq<char>)
    ensures
        user.username() == Some(name) ==> session_start(user) == (SessionView {
            action: SessionAction::Decrypt,
            username: name,
            secret: Seq::<u8>::empty(),
            log: seq![
                Line {
                    sink: Sink::Log(Level::Debug),
                    text: "decrypting secret for '"@ + name + "' via clevis"@,
                },
            ],
        }),
        user.username() is None ==> {
            &&& session_start(user).action == SessionAction::Return(SessionOutcome::NoUser)
            &&& session_start(user).secret.len() == 0
            &&& session_start(user).log == seq![
                Line {
                    sink: Sink::Log(Level::Warning),
                    text: "could not get PAM_USER in session phase"@,
                },
            ]
        },
{
}

/// Every secret is kept for the helper: where the command succeeded and wrote a
/// secret, of any length, the helper is looked for next.
pub proof fn law_every_secret_is_kept_for_the_helper(
    s: SessionView,
    output: CommandOutput,
    plain: Seq<u8>,
)
    requires
        s.action is Decrypt,
        output.success,
        !plain.contains(0),
        output.stdout@ == plain.push(10) || (output.stdout@ == plain && plain.len() > 0
            && plain.last() != 10),
    ensures
        session_next(s, SessionEvent::Output(Some(output))) == (SessionView {
            action: SessionAction::FindHelper,
            username: s.username,
            secret: plain,
            log: s.log.push(
                Line {
                    sink: Sink::Log(Level::Debug),
                    text: "decrypted "@ + decimal(plain.len()) + " bytes for '"@ + s.username
                        + "'"@,
                },
            ),
        }),
{
    law_secret_is_what_was_written(plain, output);
    assert(s.log + decrypted_lines(secret_of(Some(output)), s.username) =~= s.log.push(
        decrypted_lines(secret_of(Some(output)), s.username)[0],
    ));
}

/// The phase returns for want of a secret only where there is none, and with
/// the reason why: the command did not run, failed, wrote nothing, or wrote a
/// zero byte.
pub proof fn law_no_launch_only_without_secret(s: SessionView, output: Option<CommandOutput>)
    requires
        s.action is Decrypt,
    ensures
        ({
            let t = session_next(s, SessionEvent::Output(output));
            &&& t.username == s.username
            &&& match t.action {
                SessionAction::FindHelper => true,
                SessionAction::Return(SessionOutcome::NoSecret(e)) => {
                    &&& t.secret == s.secret
                    &&& t.log == s.log + decrypted_lines(Err(e), s.username).push(
                        Line {
                            sink: Sink::Log(Level::Debug),
                            text: "no secret available for '"@ + s.username
                                + "', skipping unlock"@,
                        },
                    )
                    &&& match e {
                        SecretError::NotRun => output is None,
                        SecretError::Failed(code) => output is Some && !output->0.success && (
                        output->0.code == Some(code) || (output->0.code is None && code == -1)),
                        SecretError::Empty => output is Some && output->0.success
                            && output->0.stdout@.len() == 0,
                        SecretError::ZeroByte => output is Some && output->0.success
                            && output->0.stdout@.contains(0),
                    }
                },
                _ => false,
            }
        }),
{
}

/// Where the helper is installed the process forks next, with the secret in
/// hand; where it is not, the phase returns and nothing of the secret is left.
pub proof fn law_installed_helper_is_launched(s: SessionView, found: bool)
    requires
        s.action is FindHelper,
    ensures
        ({
            let t = session_next(s, SessionEvent::HelperFound(found));
            &&& t.username == s.username
            &&& found ==> {
                &&& t.action == SessionAction::Fork
                &&& t.secret == s.secret
                &&& t.log == s.log.push(
                    Line {
                        sink: Sink::Log(Level::Info),
                        text: "launching "@ + "/usr/local/bin/gkd-unlock"@ + " for '"@ + s.username
                            + "'"@,
                    },
                )
            }
            &&& !found ==> {
                &&& t.action == SessionAction::Return(SessionOutcome::NoHelper)
                &&& t.secret.len() == s.secret.len()
                &&& forall|i: int| 0 <= i < t.secret.len() ==> t.secret[i] == 0
                &&& t.log == s.log.push(
                    Line {
                        sink: Sink::Log(Level::Error),
                        text: "helper not found at "@ + "/usr/local/bin/gkd-unlock"@,
                    },
                )
            }
        }),
{
    assert(s.log + seq![launching_line(s.username)] =~= s.log.push(launching_line(s.username)));
    assert(s.log + seq![no_helper_line()] =~= s.log.push(no_helper_line()));
}

/// After the first fork the child goes on with the secret in hand, the parent
/// waits for that very child, and where there is no child the phase returns; in
/// these two nothing of the secret is left.
pub proof fn law_first_fork(s: SessionView, pid: i32, error: String)
    requires
        s.action is Fork,
    ensures
        ({
            let t = session_next(s, SessionEvent::Forked(pid, error));
            &&& t.username == s.username
            &&& pid == 0 ==> {
                &&& t.action == SessionAction::Detach
                &&& t.secret == s.secret
                &&& t.log == s.log
            }
            &&& pid != 0 ==> t.secret.len() == s.secret.len()
            &&& pid != 0 ==> forall|i: int| 0 <= i < t.secret.len() ==> t.secret[i] == 0
            &&& pid == -1 ==> {
                &&& t.action == SessionAction::Return(SessionOutcome::ForkFailed)
                &&& t.log == s.log.push(
                    Line {
                        sink: Sink::Log(Level::Error),
                        text: "fork() failed: "@ + error@,
                    },
                )
            }
            &&& pid != 0 && pid != -1 ==> {
                &&& t.action == SessionAction::Reap(pid)
                &&& t.log == s.log
            }
        }),
{
    assert(s.log + seq![] =~= s.log);
    assert(s.log + seq![fork_failed_line(error@)] =~= s.log.push(fork_failed_line(error@)));
}

/// The parent returns success once its child is no more.
pub proof fn law_parent_returns_when_child_is_reaped(s: SessionView)
    requires
        s.action is Reap,
    ensures
        session_next(s, SessionEvent::Reaped) == (SessionView {
            action: SessionAction::Return(SessionOutcome::Launched),
            username: s.username,
            secret: s.secret,
            log: s.log.push(
                Line {
                    sink: Sink::Log(Level::Debug),
                    text: "helper launched in background for '"@ + s.username + "'"@,
                },
            ),
        }),
        SessionOutcome::Launched.spec_code() == 0,
{
    assert(s.log + seq![launched_line(s.username)] =~= s.log.push(launched_line(s.username)));
}

/// The child starts a session of its own, forks again, and ends, whether or not
/// the fork worked; the grandchild goes on with the secret in hand and starts
/// the helper.
pub proof fn law_child_forks_again(s: SessionView, pid: i32, error: String)
    ensures
        s.action is Detach ==> session_next(s, SessionEvent::Detached) == (SessionView {
            action: SessionAction::ForkAgain,
            ..s
        }),
        s.action is ForkAgain && pid == 0 ==> session_next(s, SessionEvent::Forked(pid, error)) == (
        SessionView { action: SessionAction::Spawn, ..s }),
        s.action is ForkAgain && pid != 0 ==> {
            let t = session_next(s, SessionEvent::Forked(pid, error));
            &&& t.action == SessionAction::Exit(0)
            &&& t.log == s.log
            &&& t.username == s.username
            &&& t.secret.len() == s.secret.len()
            &&& forall|i: int| 0 <= i < t.secret.len() ==> t.secret[i] == 0
        },
{
    assert(s.log + seq![] =~= s.log);
}

/// Once the helper is started the secret is written to it next, intact, whatever
/// it is. Once it is written, and only then, the grandchild waits for the
/// helper, and ends when that has ended. A helper that does not start ends the
/// grandchild with an error.
pub proof fn law_started_helper_gets_the_secret(s: SessionView, error: String)
    ensures
        s.action is Spawn ==> session_next(s, SessionEvent::Spawned(Ok(()))) == (SessionView {
            action: SessionAction::Write,
            ..s
        }),
        s.action is Spawn ==> {
            let t = session_next(s, SessionEvent::Spawned(Err(error)));
            &&& t.action == SessionAction::Exit(1)
            &&& t.username == s.username
            &&& t.log == s.log.push(
                Line {
                    sink: Sink::Stderr,
                    text: "pam_tpm_gnome_keyring: spawn failed: "@ + error@,
                },
            )
            &&& t.secret.len() == s.secret.len()
            &&& forall|i: int| 0 <= i < t.secret.len() ==> t.secret[i] == 0
        },
        s.action is Write ==> {
            let t = session_next(s, SessionEvent::Written);
            &&& t.action == SessionAction::Wait
            &&& t.username == s.username
            &&& t.log == s.log
            &&& t.secret.len() == s.secret.len()
            &&& forall|i: int| 0 <= i < t.secret.len() ==> t.secret[i] == 0
        },
        s.action is Wait ==> session_next(s, SessionEvent::Waited) == (SessionView {
            action: SessionAction::Exit(0),
            ..s
        }),
{
    assert(s.log + seq![] =~= s.log);
    assert(s.log + seq![spawn_failed_line(error@)] =~= s.log.push(spawn_failed_line(error@)));
}

/// The grandchild comes to wait for the helper only by way of writing the secret
/// to it.
pub proof fn law_wait_follows_write(s: SessionView, event: SessionEvent)
    requires
        !(s.action is Wait),
        session_next(s, event).action is Wait,
    ensures
        s.action is Write,
        event is Written,
{
}

/// Every outcome but that of a launch has libpam leave the module out of
/// account.
pub proof fn law_session_codes(error: SecretError)
    ensures
        SessionOutcome::NoUser.spec_code() == 25,
        SessionOutcome::NoSecret(error).spec_code() == 25,
        SessionOutcome::NoHelper.spec_code() == 25,
        SessionOutcome::ForkFailed.spec_code() == 25,
        SessionOutcome::Launched.spec_code() == 0,
{
}

/// Whether the event is an answer to the action.
pub open spec fn answers(action: SessionAction, event: SessionEvent) -> bool {
    match action {
        SessionAction::Decrypt => event is Output,
        SessionAction::FindHelper => event is HelperFound,
        SessionAction::Fork => event is Forked,
        SessionAction::Reap(_) => event is Reaped,
        SessionAction::Detach => event is Detached,
        SessionAction::ForkAgain => event is Forked,
        SessionAction::Spawn => event is Spawned,
        SessionAction::Write => event is Written,
        SessionAction::Wait => event is Waited,
        SessionAction::Return(_) => false,
        SessionAction::Exit(_) => false,
    }
}

/// An event that is no answer to what was to be done changes nothing.
pub proof fn law_session_takes_answers_only(s: SessionView, event: SessionEvent)
    requires
        !answers(s.action, event),
    ensures
        session_next(s, event) == s,
{
}

/// The grandchild's way, for a user with any name and any secret: with the
/// helper installed and started, and this process the child of both forks, the
/// secret is to be written to the helper's standard input, whole; after that
/// nothing of it is left, and once the helper has ended so does the grandchild.
#[verifier::spinoff_prover]
pub proof fn law_grandchild_carried_through(
    user: UserItem,
    name: Seq<char>,
    output: CommandOutput,
    plain: Seq<u8>,
    e1: String,
    e2: String,
)
    requires
        user.username() == Some(name),
        output.success,
        !plain.contains(0),
        output.stdout@ == plain.push(10) || (output.stdout@ == plain && plain.len() > 0
            && plain.last() != 10),
    ensures
        ({
            let events = seq![
                SessionEvent::Output(Some(output)),
                SessionEvent::HelperFound(true),
                SessionEvent::Forked(0, e1),
                SessionEvent::Detached,
                SessionEvent::Forked(0, e2),
                SessionEvent::Spawned(Ok(())),
            ];
            let writing = session_run(session_start(user), events);
            let waiting = session_run(session_start(user), events.push(SessionEvent::Written));
            &&& writing.action == SessionAction::Write
            &&& writing.secret == plain
            &&& writing.username == name
            &&& waiting.action == SessionAction::Wait
            &&& forall|i: int| 0 <= i < waiting.secret.len() ==> waiting.secret[i] == 0
            &&& session_next(waiting, SessionEvent::Waited).action == SessionAction::Exit(0)
        }),
{
    let start = session_start(user);
    let events = seq![
        SessionEvent::Output(Some(output)),
        SessionEvent::HelperFound(true),
        SessionEvent::Forked(0, e1),
        SessionEvent::Detached,
        SessionEvent::Forked(0, e2),
        SessionEvent::Spawned(Ok(())),
    ];
    let all = events.push(SessionEvent::Written);
    assert(all.drop_last() =~= events);
    assert(events.drop_last() =~= events.take(5));
    assert(events.take(5).drop_last() =~= events.take(4));
    assert(events.take(4).drop_last() =~= events.take(3));
    assert(events.take(3).drop_last() =~= events.take(2));
    assert(events.take(2).drop_last() =~= events.take(1));
    assert(events.take(1).drop_last() =~= Seq::<SessionEvent>::empty());
    assert(session_run(start, Seq::<SessionEvent>::empty()) == start);
    law_every_secret_is_kept_for_the_helper(start, output, plain);
    let s1 = session_next(start, events[0]);
    assert(session_run(start, events.take(1)) == s1);
    law_installed_helper_is_launched(s1, true);
    let s2 = session_next(s1, events[1]);
    assert(session_run(start, events.take(2)) == s2);
    law_first_fork(s2, 0, e1);
    let s3 = session_next(s2, events[2]);
    assert(session_run(start, events.take(3)) == s3);
    law_child_forks_again(s3, 0, e2);
    let s4 = session_next(s3, events[3]);
    assert(session_run(start, events.take(4)) == s4);
    law_child_forks_again(s4, 0, e2);
    let s5 = session_next(s4, events[4]);
    assert(session_run(start, events.take(5)) == s5);
    law_started_helper_gets_the_secret(s5, e1);
    let s6 = session_next(s5, events[5]);
    assert(session_run(start, events) == s6);
    law_started_helper_gets_the_secret(s6, e1);
    let s7 = session_next(s6, SessionEvent::Written);
    assert(session_run(start, all) == s7);
    law_started_helper_gets_the_secret(s7, e1);
}

} // verus!
