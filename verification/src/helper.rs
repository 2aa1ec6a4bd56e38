//! The helper that unlocks a user's keyring in the background.
//!
//! The helper is started as root with the user's name as its argument and the
//! passphrase on its standard input. It becomes the user, waits for the keyring
//! daemon's control socket, and tries to unlock the keyring until that works or
//! half a minute has passed. A [`Helper`] says what to do next and is told what
//! came of it. It collects what is to be logged on the way.

use vstd::prelude::*;
use vstd::utf8::*;

use crate::bytes::{strip_newline, without_newline};
use crate::decimal::{decimal, push_decimal};
use crate::passwd::{
    entry, file_of, get_uid, is_about_another, law_listed_user_is_found, uid_of,
};
use crate::protocol::UnlockError;
use crate::syslog::{joined, logged, Level, Line, Messages, Sink};

verus! {

/// How long the helper keeps trying, in nanoseconds.
pub const PATIENCE: u128 = 30_000_000_000;

/// The pause while there is no socket, in milliseconds.
pub const PAUSE_NO_SOCKET: u64 = 200;

/// The pause while the socket belongs to someone else, in milliseconds.
pub const PAUSE_WRONG_OWNER: u64 = 500;

/// The pause after an attempt that failed, in milliseconds.
pub const PAUSE_FAILED: u64 = 2000;

/// Why the helper ends.
#[derive(Clone, Copy, Debug, PartialEq, Eq, Structural)]
pub enum ExitReason {
    /// No user's name was given.
    Usage,
    /// The passphrase is empty.
    EmptyPassphrase,
    /// The password file has no user ID for the user.
    UnknownUser,
    /// The helper could not become the user.
    SetUidFailed,
    /// The time is up.
    TimedOut,
    /// The keyring is unlocked.
    Unlocked,
}

impl ExitReason {
    /// The exit code that stands for the reason.
    pub open spec fn spec_code(self) -> i32 {
        match self {
            ExitReason::Unlocked => 0i32,
            ExitReason::TimedOut => 1i32,
            _ => 2i32,
        }
    }

    /// Gives the exit code that stands for the reason.
    pub fn code(&self) -> (code: i32)
        ensures
            code == self.spec_code(),
    {
        match self {
            ExitReason::Unlocked => 0,
            ExitReason::TimedOut => 1,
            _ => 2,
        }
    }
}

/// What is to be done next.
#[derive(Clone, Copy, Debug, PartialEq, Eq, Structural)]
pub enum HelperAction {
    /// Read the standard input to its end.
    ReadPassphrase,
    /// Read the password file.
    ReadPasswd,
    /// Become the user with this ID.
    SetUid(u32),
    /// Read the clock, for the start of the wait.
    StartClock,
    /// Read the clock, to see whether the time is up.
    ReadClock,
    /// Find out who owns the control socket.
    StatSocket,
    /// Try to unlock the keyring.
    Unlock,
    /// Sleep for so many milliseconds.
    Sleep(u64),
    /// End.
    Exit(ExitReason),
}

/// What came of what was to be done.
pub enum HelperEvent {
    /// The bytes of the standard input.
    Passphrase(Vec<u8>),
    /// The bytes of the password file, where it could be read.
    Passwd(Option<Vec<u8>>),
    /// What becoming the user returned, and the text of the error where that is
    /// not zero.
    UidSet(i32, String),
    /// The time in nanoseconds, by a clock that never goes back.
    Clock(u128),
    /// The owner of the control socket, where there is one.
    Owner(Option<u32>),
    /// What the attempt to unlock the keyring came to.
    Unlocked(Result<(), UnlockError>),
    /// The sleep is over.
    Woke,
}

/// The state of the helper.
#[verifier::ext_equal]
pub struct HelperView {
    /// What is to be done next.
    pub action: HelperAction,
    /// The user's name.
    pub username: Seq<char>,
    /// The passphrase, once it is read.
    pub passphrase: Seq<u8>,
    /// The user's ID, once it is known.
    pub uid: u32,
    /// When the wait started, once it has.
    pub started: u128,
    /// What is to be logged so far.
    pub log: Seq<Line>,
}

/// What is said where no user's name was given.
pub open spec fn usage_line() -> Line {
    Line { sink: Sink::Stderr, text: "usage: gkd-unlock <username>"@ }
}

/// What is logged where the passphrase is empty.
pub open spec fn empty_passphrase_line(username: Seq<char>) -> Line {
    logged(Level::Error, "received empty passphrase for '"@ + username + "'"@)
}

/// What is logged where the password file has no user ID for the user.
pub open spec fn unknown_user_line(username: Seq<char>) -> Line {
    logged(Level::Error, "user '"@ + username + "' not found in /etc/passwd"@)
}

/// What is logged where the helper could not become the user.
pub open spec fn set_uid_failed_line(uid: u32, error: Seq<char>) -> Line {
    logged(Level::Error, "setuid("@ + decimal(uid as nat) + ") failed: "@ + error)
}

/// What is logged once the helper is the user.
pub open spec fn dropped_line(uid: u32, username: Seq<char>) -> Line {
    logged(Level::Debug, "dropped to uid="@ + decimal(uid as nat) + " for '"@ + username + "'"@)
}

/// What is logged when the time is up.
pub open spec fn timed_out_line() -> Line {
    logged(Level::Error, "timed out after 30s waiting for successful unlock"@)
}

/// What is logged where the socket belongs to someone else.
pub open spec fn wrong_owner_line() -> Line {
    logged(Level::Debug, "socket owner mismatch, waiting…"@)
}

/// What is logged once the keyring is unlocked.
pub open spec fn unlocked_line(username: Seq<char>) -> Line {
    logged(Level::Info, "login keyring unlocked for '"@ + username + "'"@)
}

/// What is logged where an attempt to unlock the keyring failed.
pub open spec fn attempt_failed_line(error: UnlockError) -> Line {
    logged(Level::Debug, "unlock attempt failed ("@ + error.text() + "), retrying in 2s…"@)
}

/// The state that the helper starts from, given its argument.
pub open spec fn helper_start(username: Option<Seq<char>>) -> HelperView {
    HelperView {
        action: match username {
            Some(_) => HelperAction::ReadPassphrase,
            None => HelperAction::Exit(ExitReason::Usage),
        },
        username: match username {
            Some(name) => name,
            None => Seq::<char>::empty(),
        },
        passphrase: Seq::<u8>::empty(),
        uid: 0,
        started: 0,
        log: match username {
            Some(_) => Seq::<Line>::empty(),
            None => seq![usage_line()],
        },
    }
}

/// The user ID that the password file, if it could be read, gives for a user.
pub open spec fn uid_from(passwd: Option<Vec<u8>>, username: Seq<char>) -> Option<u32> {
    match passwd {
        Some(file) => uid_of(file@, encode_utf8(username)),
        None => None,
    }
}

/// The state after an event. An event that is no answer to what was to be done
/// changes nothing.
pub open spec fn helper_next(s: HelperView, event: HelperEvent) -> HelperView {
    match (s.action, event) {
        (HelperAction::ReadPassphrase, HelperEvent::Passphrase(bytes)) => {
            let passphrase = without_newline(bytes@);
            if passphrase.len() == 0 {
                HelperView {
                    action: HelperAction::Exit(ExitReason::EmptyPassphrase),
                    passphrase,
                    log: s.log.push(empty_passphrase_line(s.username)),
                    ..s
                }
            } else {
                HelperView { action: HelperAction::ReadPasswd, passphrase, ..s }
            }
        },
        (HelperAction::ReadPasswd, HelperEvent::Passwd(file)) => match uid_from(file, s.username) {
            Some(uid) => HelperView { action: HelperAction::SetUid(uid), uid, ..s },
            None => HelperView {
                action: HelperAction::Exit(ExitReason::UnknownUser),
                log: s.log.push(unknown_user_line(s.username)),
                ..s
            },
        },
        (HelperAction::SetUid(uid), HelperEvent::UidSet(rc, error)) => if rc == 0 {
            HelperView {
                action: HelperAction::StartClock,
                log: s.log.push(dropped_line(uid, s.username)),
                ..s
            }
        } else {
            HelperView {
                action: HelperAction::Exit(ExitReason::SetUidFailed),
                log: s.log.push(set_uid_failed_line(uid, error@)),
                ..s
            }
        },
        (HelperAction::StartClock, HelperEvent::Clock(now)) => HelperView {
            action: HelperAction::ReadClock,
            started: now,
            ..s
        },
        (HelperAction::ReadClock, HelperEvent::Clock(now)) => if now - s.started > PATIENCE {
            HelperView {
                action: HelperAction::Exit(ExitReason::TimedOut),
                log: s.log.push(timed_out_line()),
                ..s
            }
        } else {
            HelperView { action: HelperAction::StatSocket, ..s }
        },
        (HelperAction::StatSocket, HelperEvent::Owner(None)) => HelperView {
            action: HelperAction::Sleep(PAUSE_NO_SOCKET),
            ..s
        },
        (HelperAction::StatSocket, HelperEvent::Owner(Some(owner))) => if owner == s.uid {
            HelperView { action: HelperAction::Unlock, ..s }
        } else {
            HelperView {
                action: HelperAction::Sleep(PAUSE_WRONG_OWNER),
                log: s.log.push(wrong_owner_line()),
                ..s
            }
        },
        (HelperAction::Unlock, HelperEvent::Unlocked(Ok(()))) => HelperView {
            action: HelperAction::Exit(ExitReason::Unlocked),
            log: s.log.push(unlocked_line(s.username)),
            ..s
        },
        (HelperAction::Unlock, HelperEvent::Unlocked(Err(error))) => HelperView {
            action: HelperAction::Sleep(PAUSE_FAILED),
            log: s.log.push(attempt_failed_line(error)),
            ..s
        },
        (HelperAction::Sleep(_), HelperEvent::Woke) => HelperView {
            action: HelperAction::ReadClock,
            ..s
        },
        _ => s,
    }
}

/// The state after a run of events.
pub open spec fn helper_run(s: HelperView, events: Seq<HelperEvent>) -> HelperView
    decreases events.len(),
{
    if events.len() == 0 {
        s
    } else {
        helper_next(helper_run(s, events.drop_last()), events.last())
    }
}

/// The path of the control socket of the keyring of a user.
pub open spec fn socket_path_text(uid: u32) -> Seq<char> {
    "/run/user/"@ + decimal(uid as nat) + "/keyring/control"@
}

/// Gives the path of the control socket of the keyring of a user.
pub fn socket_path(uid: u32) -> (path: String)
    ensures
        path@ == socket_path_text(uid),
        path@ == "/run/user/"@ + decimal(uid as nat) + "/keyring/control"@,
{
    let mut path: String = String::new();
    path.append("/run/user/");
    push_decimal(&mut path, uid as u64);
    path.append("/keyring/control");
    assert(path@ =~= socket_path_text(uid));
    path
}

/// The helper.
pub struct Helper {
    action: HelperAction,
    username: String,
    passphrase: Vec<u8>,
    uid: u32,
    started: u128,
    messages: Messages,
}

impl View for Helper {
    type V = HelperView;

    closed spec fn view(&self) -> HelperView {
        HelperView {
            action: self.action,
            username: self.username@,
            passphrase: self.passphrase@,
            uid: self.uid,
            started: self.started,
            log: self.messages@,
        }
    }
}

impl Helper {
    /// Starts the helper with its argument, if it has one.
    pub fn new(username: Option<String>) -> (helper: Helper)
        ensures
            helper@ == helper_start(
                match username {
                    Some(name) => Some(name@),
                    None => None,
                },
            ),
    {
        let mut messages: Messages = Messages::new();
        match username {
            Some(name) => Helper {
                action: HelperAction::ReadPassphrase,
                username: name,
                passphrase: Vec::new(),
                uid: 0,
                started: 0,
                messages,
            },
            None => {
                messages.put(Sink::Stderr, "usage: gkd-unlock <username>".to_owned());
                assert(messages@ =~= seq![usage_line()]);
                Helper {
                    action: HelperAction::Exit(ExitReason::Usage),
                    username: String::new(),
                    passphrase: Vec::new(),
                    uid: 0,
                    started: 0,
                    messages,
                }
            },
        }
    }

    /// What is to be done next.
    pub fn action(&self) -> (action: HelperAction)
        ensures
            action == self@.action,
    {
        self.action
    }

    /// The user's name.
    pub fn username(&self) -> (username: &str)
        ensures
            username@ == self@.username,
    {
        self.username.as_str()
    }

    /// The passphrase, to unlock the keyring with.
    pub fn passphrase(&self) -> (passphrase: &[u8])
        ensures
            passphrase@ == self@.passphrase,
    {
        self.passphrase.as_slice()
    }

    /// The user's ID.
    pub fn uid(&self) -> (uid: u32)
        ensures
            uid == self@.uid,
    {
        self.uid
    }

    /// What is to be logged so far.
    pub fn messages(&self) -> (messages: &Messages)
        ensures
            messages@ == self@.log,
    {
        &self.messages
    }

    /// Takes in what came of the last action.
    pub fn step(&mut self, event: HelperEvent)
        ensures
            final(self)@ == helper_next(old(self)@, event),
    {
        match (self.action, event) {
            (HelperAction::ReadPassphrase, HelperEvent::Passphrase(bytes)) => {
                let mut passphrase: Vec<u8> = bytes;
                strip_newline(&mut passphrase);
                if passphrase.len() == 0 {
                    self.messages.log(
                        Level::Error,
                        joined("received empty passphrase for '", self.username.as_str(), "'"),
                    );
                    self.action = HelperAction::Exit(ExitReason::EmptyPassphrase);
                } else {
                    self.action = HelperAction::ReadPasswd;
                }
                self.passphrase = passphrase;
            },
            (HelperAction::ReadPasswd, HelperEvent::Passwd(file)) => {
                let uid: Option<u32> = match file {
                    Some(bytes) => get_uid(bytes.as_slice(), self.username.as_str()),
                    None => None,
                };
                match uid {
                    Some(uid) => {
                        self.uid = uid;
                        self.action = HelperAction::SetUid(uid);
                    },
                    None => {
                        self.messages.log(
                            Level::Error,
                            joined("user '", self.username.as_str(), "' not found in /etc/passwd"),
                        );
                        self.action = HelperAction::Exit(ExitReason::UnknownUser);
                    },
                }
            },
            (HelperAction::SetUid(uid), HelperEvent::UidSet(rc, error)) => {
                if rc == 0 {
                    let mut text: String = "dropped to uid=".to_owned();
                    push_decimal(&mut text, uid as u64);
                    text.append(" for '");
                    text.append(self.username.as_str());
                    text.append("'");
                    assert(text@ =~= dropped_line(uid, self.username@).text);
                    self.messages.log(Level::Debug, text);
                    self.action = HelperAction::StartClock;
                } else {
                    let mut text: String = "setuid(".to_owned();
                    push_decimal(&mut text, uid as u64);
                    text.append(") failed: ");
                    text.append(error.as_str());
                    assert(text@ =~= set_uid_failed_line(uid, error@).text);
                    self.messages.log(Level::Error, text);
                    self.action = HelperAction::Exit(ExitReason::SetUidFailed);
                }
            },
            (HelperAction::StartClock, HelperEvent::Clock(now)) => {
                self.started = now;
                self.action = HelperAction::ReadClock;
            },
            (HelperAction::ReadClock, HelperEvent::Clock(now)) => {
                if now > self.started && now - self.started > PATIENCE {
                    self.messages.log(
                        Level::Error,
                        "timed out after 30s waiting for successful unlock".to_owned(),
                    );
                    self.action = HelperAction::Exit(ExitReason::TimedOut);
                } else {
                    self.action = HelperAction::StatSocket;
                }
            },
            (HelperAction::StatSocket, HelperEvent::Owner(None)) => {
                self.action = HelperAction::Sleep(PAUSE_NO_SOCKET);
            },
            (HelperAction::StatSocket, HelperEvent::Owner(Some(owner))) => {
                if owner == self.uid {
                    self.action = HelperAction::Unlock;
                } else {
                    self.messages.log(Level::Debug, "socket owner mismatch, waiting…".to_owned());
                    self.action = HelperAction::Sleep(PAUSE_WRONG_OWNER);
                }
            },
            (HelperAction::Unlock, HelperEvent::Unlocked(Ok(()))) => {
                self.messages.log(
                    Level::Info,
                    joined("login keyring unlocked for '", self.username.as_str(), "'"),
                );
                self.action = HelperAction::Exit(ExitReason::Unlocked);
            },
            (HelperAction::Unlock, HelperEvent::Unlocked(Err(error))) => {
                self.messages.log(
                    Level::Debug,
                    joined(
                        "unlock attempt failed (",
                        error.message().as_str(),
                        "), retrying in 2s…",
                    ),
                );
                self.action = HelperAction::Sleep(PAUSE_FAILED);
            },
            (HelperAction::Sleep(_), HelperEvent::Woke) => {
                self.action = HelperAction::ReadClock;
            },
            _ => {},
        }
    }
}

/// Whether an action has to do with what is the user's, or comes after one that
/// has.
pub open spec fn is_for_the_user(action: HelperAction) -> bool {
    match action {
        HelperAction::StartClock => true,
        HelperAction::ReadClock => true,
        HelperAction::StatSocket => true,
        HelperAction::Unlock => true,
        HelperAction::Sleep(_) => true,
        HelperAction::Exit(ExitReason::TimedOut) => true,
        HelperAction::Exit(ExitReason::Unlocked) => true,
        _ => false,
    }
}

/// What was to be done when the event at `i` came.
pub open spec fn asked(start: HelperView, events: Seq<HelperEvent>, i: int) -> HelperAction {
    helper_run(start, events.take(i)).action
}

/// Whether the helper asked for the password file at `i`, and got one that gives
/// the user this ID.
pub open spec fn identified_at(
    start: HelperView,
    events: Seq<HelperEvent>,
    i: int,
    uid: u32,
) -> bool {
    &&& 0 <= i < events.len()
    &&& asked(start, events, i) == HelperAction::ReadPasswd
    &&& events[i] matches HelperEvent::Passwd(file) && uid_from(file, start.username) == Some(uid)
}

/// Whether the helper asked at `i` to become the user with this ID, and did.
pub open spec fn uid_set_at(
    start: HelperView,
    events: Seq<HelperEvent>,
    i: int,
    uid: u32,
) -> bool {
    &&& 0 <= i < events.len()
    &&& asked(start, events, i) == HelperAction::SetUid(uid)
    &&& events[i] matches HelperEvent::UidSet(rc, _) && rc == 0
}

/// Whether the helper looked the user up, and after that became the user with
/// the ID that it found.
pub open spec fn became_user(start: HelperView, events: Seq<HelperEvent>, uid: u32) -> bool {
    exists|j: int, i: int|
        j < i && #[trigger] identified_at(start, events, j, uid) && #[trigger] uid_set_at(
            start,
            events,
            i,
            uid,
        )
}

/// Whether the helper asked for the passphrase at `i`, and its standard input
/// held this one.
pub open spec fn supplied_at(
    start: HelperView,
    events: Seq<HelperEvent>,
    i: int,
    passphrase: Seq<u8>,
) -> bool {
    &&& 0 <= i < events.len()
    &&& asked(start, events, i) == HelperAction::ReadPassphrase
    &&& events[i] matches HelperEvent::Passphrase(bytes) && passphrase == without_newline(bytes@)
}

/// Whether the wait started at `i`, at this time.
pub open spec fn started_at(
    start: HelperView,
    events: Seq<HelperEvent>,
    i: int,
    started: u128,
) -> bool {
    &&& 0 <= i < events.len()
    &&& asked(start, events, i) == HelperAction::StartClock
    &&& events[i] == HelperEvent::Clock(started)
}

/// Whether the helper read the clock at `i`, and had waited long enough.
pub open spec fn late_at(
    start: HelperView,
    events: Seq<HelperEvent>,
    i: int,
    started: u128,
) -> bool {
    &&& 0 <= i < events.len()
    &&& asked(start, events, i) == HelperAction::ReadClock
    &&& events[i] matches HelperEvent::Clock(now) && now - started > PATIENCE
}

/// Whether the wait started at this time, and the time was up after that.
pub open spec fn ran_out(start: HelperView, events: Seq<HelperEvent>, started: u128) -> bool {
    exists|j: int, i: int|
        j < i && #[trigger] started_at(start, events, j, started) && #[trigger] late_at(
            start,
            events,
            i,
            started,
        )
}

/// Whether the helper tried to unlock the keyring at `i`, and did.
pub open spec fn unlocked_at(start: HelperView, events: Seq<HelperEvent>, i: int) -> bool {
    &&& 0 <= i < events.len()
    &&& asked(start, events, i) == HelperAction::Unlock
    &&& events[i] matches HelperEvent::Unlocked(Ok(()))
}

/// What holds of every state that the helper can come to.
spec fn helper_inv(start: HelperView, s: HelperView, events: Seq<HelperEvent>) -> bool {
    &&& s.action != HelperAction::ReadPassphrase && s.action != HelperAction::Exit(
        ExitReason::Usage,
    ) ==> exists|i: int| #[trigger] supplied_at(start, events, i, s.passphrase)
    &&& is_for_the_user(s.action) || s.action is SetUid ==> s.passphrase.len() > 0
    &&& s.action == HelperAction::ReadPasswd ==> s.passphrase.len() > 0
    &&& s.action matches HelperAction::SetUid(uid) ==> uid == s.uid && exists|j: int|
        #[trigger] identified_at(start, events, j, s.uid)
    &&& is_for_the_user(s.action) ==> became_user(start, events, s.uid)
    &&& is_for_the_user(s.action) && s.action != HelperAction::StartClock ==> exists|j: int|
        #[trigger] started_at(start, events, j, s.started)
    &&& s.action == HelperAction::Exit(ExitReason::TimedOut) ==> ran_out(start, events, s.started)
    &&& s.action == HelperAction::Exit(ExitReason::Unlocked) ==> exists|i: int|
        #[trigger] unlocked_at(start, events, i)
}

/// What happened stays as it was when another event comes.
proof fn lemma_past_stays(start: HelperView, before: Seq<HelperEvent>, event: HelperEvent)
    ensures
        ({
            let after = before.push(event);
            &&& forall|i: int, uid: u32| #[trigger]
                identified_at(start, before, i, uid) ==> identified_at(start, after, i, uid)
            &&& forall|i: int, uid: u32| #[trigger]
                uid_set_at(start, before, i, uid) ==> uid_set_at(start, after, i, uid)
            &&& forall|i: int, p: Seq<u8>| #[trigger]
                supplied_at(start, before, i, p) ==> supplied_at(start, after, i, p)
            &&& forall|i: int, t: u128| #[trigger]
                started_at(start, before, i, t) ==> started_at(start, after, i, t)
            &&& forall|i: int, t: u128| #[trigger]
                late_at(start, before, i, t) ==> late_at(start, after, i, t)
            &&& forall|i: int| #[trigger]
                unlocked_at(start, before, i) ==> unlocked_at(start, after, i)
        }),
{
    let after = before.push(event);
    assert forall|i: int| 0 <= i < before.len() implies #[trigger] asked(start, after, i) == asked(
        start,
        before,
        i,
    ) by {
        assert(after.take(i) =~= before.take(i));
    }
}

/// What holds of a state still holds of it when another event comes.
proof fn lemma_inv_stays(
    start: HelperView,
    s: HelperView,
    before: Seq<HelperEvent>,
    event: HelperEvent,
)
    requires
        helper_inv(start, s, before),
    ensures
        helper_inv(start, s, before.push(event)),
{
    lemma_past_stays(start, before, event);
}

proof fn lemma_helper_inv(username: Option<Seq<char>>, events: Seq<HelperEvent>)
    ensures
        helper_inv(
            helper_start(username),
            helper_run(helper_start(username), events),
            events,
        ),
        helper_run(helper_start(username), events).username == helper_start(username).username,
    decreases events.len(),
{
    if events.len() > 0 {
        let start = helper_start(username);
        let before = events.drop_last();
        let event = events.last();
        lemma_helper_inv(username, before);
        assert(events =~= before.push(event));
        lemma_helper_step(start, helper_run(start, before), before, event);
    }
}

#[verifier::spinoff_prover]
proof fn lemma_helper_step(
    start: HelperView,
    s: HelperView,
    before: Seq<HelperEvent>,
    event: HelperEvent,
)
    requires
        s == helper_run(start, before),
        s.username == start.username,
        helper_inv(start, s, before),
    ensures
        helper_inv(start, helper_next(s, event), before.push(event)),
{
    let events = before.push(event);
    let n = before.len() as int;
    let t = helper_next(s, event);
    lemma_inv_stays(start, s, before, event);
    if t != s {
        assert(asked(start, events, n) == s.action) by {
            assert(events.take(n) =~= before);
        }
        assert(events[n] == event);
        if !(s.action is ReadPassphrase) {
            let i = choose|i: int| #[trigger] supplied_at(start, events, i, s.passphrase);
            assert(t.passphrase == s.passphrase);
            assert(supplied_at(start, events, i, t.passphrase));
        }
        if is_for_the_user(s.action) && !(s.action is StartClock) {
            let j = choose|j: int| #[trigger] started_at(start, events, j, s.started);
            assert(t.started == s.started);
            assert(started_at(start, events, j, t.started));
        }
        match s.action {
            HelperAction::ReadPassphrase => {
                assert(supplied_at(start, events, n, t.passphrase));
            },
            HelperAction::ReadPasswd => {
                assert(t.action is SetUid ==> identified_at(start, events, n, t.uid));
            },
            HelperAction::SetUid(uid) => {
                let j = choose|j: int| #[trigger] identified_at(start, before, j, uid);
                assert(identified_at(start, events, j, uid)) by {
                    lemma_past_stays(start, before, event);
                }
                assert(t.action is StartClock ==> uid_set_at(start, events, n, uid));
            },
            HelperAction::StartClock => {
                assert(started_at(start, events, n, t.started));
            },
            HelperAction::ReadClock => {
                let j = choose|j: int| #[trigger] started_at(start, before, j, s.started);
                assert(started_at(start, events, j, s.started)) by {
                    lemma_past_stays(start, before, event);
                }
                assert(t.action is Exit ==> late_at(start, events, n, s.started));
            },
            HelperAction::Unlock => {
                assert(t.action is Exit ==> unlocked_at(start, events, n));
            },
            _ => {},
        }
    }
}

/// The helper becomes the user before it has to do with anything of the user's:
/// it looks at the socket, tries to unlock the keyring, or even starts to wait,
/// only after it has asked for the password file, has asked to become the user
/// with the very ID that the file gives, and has been told that it did. That ID
/// is the one that it goes by from then on.
pub proof fn law_becomes_user_first(username: Seq<char>, events: Seq<HelperEvent>)
    requires
        is_for_the_user(helper_run(helper_start(Some(username)), events).action),
    ensures
        became_user(
            helper_start(Some(username)),
            events,
            helper_run(helper_start(Some(username)), events).uid,
        ),
{
    lemma_helper_inv(Some(username), events);
}

/// The helper sets out to unlock the keyring only when it has just been told
/// that the socket belongs to the user.
pub proof fn law_unlocks_own_socket_only(s: HelperView, event: HelperEvent)
    requires
        !(s.action is Unlock),
        helper_next(s, event).action is Unlock,
    ensures
        s.action is StatSocket,
        event == HelperEvent::Owner(Some(s.uid)),
{
}

/// From the moment it is read, the passphrase is what the standard input held
/// but for one newline at its end; and where it is used it is not empty.
pub proof fn law_passphrase_is_the_input(username: Seq<char>, events: Seq<HelperEvent>)
    requires
        helper_run(helper_start(Some(username)), events).action != HelperAction::ReadPassphrase,
    ensures
        exists|i: int|
            #[trigger] supplied_at(
                helper_start(Some(username)),
                events,
                i,
                helper_run(helper_start(Some(username)), events).passphrase,
            ),
        helper_run(helper_start(Some(username)), events).action is Unlock ==> helper_run(
            helper_start(Some(username)),
            events,
        ).passphrase.len() > 0,
{
    lemma_helper_inv(Some(username), events);
    lemma_usage_is_first(username, events);
}

proof fn lemma_usage_is_first(username: Seq<char>, events: Seq<HelperEvent>)
    ensures
        helper_run(helper_start(Some(username)), events).action != HelperAction::Exit(
            ExitReason::Usage,
        ),
    decreases events.len(),
{
    if events.len() > 0 {
        lemma_usage_is_first(username, events.drop_last());
    }
}

/// The helper reports success only where it tried to unlock the keyring and
/// that succeeded.
pub proof fn law_success_is_an_unlocked_keyring(
    username: Option<Seq<char>>,
    events: Seq<HelperEvent>,
)
    requires
        helper_run(helper_start(username), events).action matches HelperAction::Exit(reason)
            && reason.spec_code() == 0,
    ensures
        exists|i: int| #[trigger] unlocked_at(helper_start(username), events, i),
{
    lemma_helper_inv(username, events);
}

/// The helper gives up for want of time only where more than half a minute
/// passed between two readings of the clock, of which the first started the
/// wait.
pub proof fn law_gives_up_only_late(username: Option<Seq<char>>, events: Seq<HelperEvent>)
    requires
        helper_run(helper_start(username), events).action == HelperAction::Exit(
            ExitReason::TimedOut,
        ),
    ensures
        ran_out(
            helper_start(username),
            events,
            helper_run(helper_start(username), events).started,
        ),
{
    lemma_helper_inv(username, events);
}

/// A round of looking for the socket and trying to unlock the keyring starts
/// only while there is time.
pub proof fn law_rounds_start_in_time(s: HelperView, event: HelperEvent)
    requires
        !(s.action is StatSocket),
        helper_next(s, event).action is StatSocket,
    ensures
        s.action is ReadClock,
        event matches HelperEvent::Clock(now) && now - s.started <= PATIENCE,
{
}

/// When the time is up the helper ends, and its exit code says so.
pub proof fn law_time_up_ends_the_wait(s: HelperView, now: u128)
    requires
        s.action is ReadClock,
        now - s.started > PATIENCE,
    ensures
        helper_next(s, HelperEvent::Clock(now)).action == HelperAction::Exit(ExitReason::TimedOut),
        ExitReason::TimedOut.spec_code() == 1,
{
}

/// A pause is as long as its cause asks for, and no other pause is made.
pub proof fn law_pauses(s: HelperView, event: HelperEvent)
    requires
        !(s.action is Sleep),
        helper_next(s, event).action is Sleep,
    ensures
        ({
            let pause = helper_next(s, event).action->Sleep_0;
            ||| pause == 200 && s.action is StatSocket && event == HelperEvent::Owner(None)
            ||| pause == 500 && s.action is StatSocket && exists|o: u32|
                o != s.uid && event == HelperEvent::Owner(Some(o))
            ||| pause == 2000 && s.action is Unlock && exists|e: UnlockError|
                event == HelperEvent::Unlocked(Err(e))
        }),
{
    if s.action is StatSocket && event != HelperEvent::Owner(None) {
        let o = event->Owner_0->0;
        assert(o != s.uid && event == HelperEvent::Owner(Some(o)));
    }
    if s.action is Unlock {
        assert(event == HelperEvent::Unlocked(Err(event->Unlocked_0->Err_0)));
    }
}

/// An attempt that failed is made again while there is time: after the pause
/// the helper looks for the socket anew.
pub proof fn law_failure_is_retried(s: HelperView, error: UnlockError, now: u128)
    requires
        s.action is Unlock,
        now - s.started <= PATIENCE,
    ensures
        helper_next(
            helper_next(
                helper_next(s, HelperEvent::Unlocked(Err(error))),
                HelperEvent::Woke,
            ),
            HelperEvent::Clock(now),
        ) == (HelperView {
            action: HelperAction::StatSocket,
            log: s.log.push(attempt_failed_line(error)),
            ..s
        }),
{
}

/// Whether two runs of events are the same but for the passphrase: where one
/// reads a passphrase, so does the other, and neither or both are empty.
pub open spec fn same_but_for_passphrase(a: Seq<HelperEvent>, b: Seq<HelperEvent>) -> bool {
    &&& a.len() == b.len()
    &&& forall|i: int| 0 <= i < a.len() ==> #[trigger] alike(a[i], b[i])
}

/// Whether two events are the same, or both read a passphrase and neither or
/// both are empty.
pub open spec fn alike(a: HelperEvent, b: HelperEvent) -> bool {
    match (a, b) {
        (HelperEvent::Passphrase(p), HelperEvent::Passphrase(q)) => {
            (without_newline(p@).len() == 0) == (without_newline(q@).len() == 0)
        },
        _ => a == b,
    }
}

/// Nothing that is logged shows anything of the passphrase but whether it is
/// empty, nor does what the helper does or how it ends: with another passphrase
/// in its place, and all else the same, these are the same.
pub proof fn law_helper_log_hides_the_passphrase(
    username: Option<Seq<char>>,
    a: Seq<HelperEvent>,
    b: Seq<HelperEvent>,
)
    requires
        same_but_for_passphrase(a, b),
    ensures
        helper_run(helper_start(username), a).log == helper_run(helper_start(username), b).log,
        helper_run(helper_start(username), a).action == helper_run(
            helper_start(username),
            b,
        ).action,
{
    lemma_same_but_for_passphrase(username, a, b);
}

proof fn lemma_same_but_for_passphrase(
    username: Option<Seq<char>>,
    a: Seq<HelperEvent>,
    b: Seq<HelperEvent>,
)
    requires
        same_but_for_passphrase(a, b),
    ensures
        helper_run(helper_start(username), a) == (HelperView {
            passphrase: helper_run(helper_start(username), a).passphrase,
            ..helper_run(helper_start(username), b)
        }),
    decreases a.len(),
{
    if a.len() > 0 {
        let a0 = a.drop_last();
        let b0 = b.drop_last();
        assert forall|i: int| 0 <= i < a0.len() implies #[trigger] alike(a0[i], b0[i]) by {
            assert(alike(a[i], b[i]));
        }
        lemma_same_but_for_passphrase(username, a0, b0);
        assert(alike(a[a.len() - 1], b[b.len() - 1]));
    }
}

/// The end is the end.
pub proof fn law_exit_is_final(s: HelperView, event: HelperEvent)
    requires
        s.action is Exit,
    ensures
        helper_next(s, event) == s,
{
}

/// The helper starts with reading the passphrase, for every user's name; without
/// a name it is over.
pub proof fn law_helper_starts_with_the_passphrase(name: Seq<char>)
    ensures
        helper_start(Some(name)) == (HelperView {
            action: HelperAction::ReadPassphrase,
            username: name,
            passphrase: Seq::<u8>::empty(),
            uid: 0,
            started: 0,
            log: Seq::<Line>::empty(),
        }),
        helper_start(None).action == HelperAction::Exit(ExitReason::Usage),
        helper_start(None).log == seq![
            Line { sink: Sink::Stderr, text: "usage: gkd-unlock <username>"@ },
        ],
{
}

/// Every passphrase but an empty one is taken, as it is, with or without one
/// newline behind it, and the password file is read next; an empty one ends the
/// helper.
pub proof fn law_every_passphrase_is_taken(s: HelperView, bytes: Vec<u8>, plain: Seq<u8>)
    requires
        s.action is ReadPassphrase,
        bytes@ == plain.push(10) || (bytes@ == plain && (plain.len() == 0 || plain.last() != 10)),
    ensures
        plain.len() > 0 ==> helper_next(s, HelperEvent::Passphrase(bytes)) == (HelperView {
            action: HelperAction::ReadPasswd,
            passphrase: plain,
            ..s
        }),
        plain.len() == 0 ==> helper_next(s, HelperEvent::Passphrase(bytes)) == (HelperView {
            action: HelperAction::Exit(ExitReason::EmptyPassphrase),
            passphrase: plain,
            log: s.log.push(
                Line {
                    sink: Sink::Log(Level::Error),
                    text: "received empty passphrase for '"@ + s.username + "'"@,
                },
            ),
            ..s
        }),
{
    assert(plain.push(10).drop_last() =~= plain);
}

/// Every user ID that the password file gives for the user's name is the one
/// that the helper asks to become; where it gives none, or cannot be read, the
/// helper ends.
pub proof fn law_password_file_decides_on_the_id(s: HelperView, file: Option<Vec<u8>>)
    requires
        s.action is ReadPasswd,
    ensures
        ({
            let t = helper_next(s, HelperEvent::Passwd(file));
            let found = if file is Some {
                uid_of(file->0@, encode_utf8(s.username))
            } else {
                None
            };
            match found {
                Some(uid) => t == (HelperView { action: HelperAction::SetUid(uid), uid, ..s }),
                None => t == (HelperView {
                    action: HelperAction::Exit(ExitReason::UnknownUser),
                    log: s.log.push(
                        Line {
                            sink: Sink::Log(Level::Error),
                            text: "user '"@ + s.username + "' not found in /etc/passwd"@,
                        },
                    ),
                    ..s
                }),
            }
        }),
{
}

/// A user who is listed in the password file, behind any number of others, is
/// the one that the helper asks to become.
pub proof fn law_listed_user_is_become(
    s: HelperView,
    file: Vec<u8>,
    others: Seq<Seq<u8>>,
    placeholder: Seq<u8>,
    uid: u32,
    remainder: Seq<u8>,
    more: Seq<u8>,
)
    requires
        s.action is ReadPasswd,
        forall|i: int|
            0 <= i < others.len() ==> is_about_another(
                #[trigger] others[i],
                encode_utf8(s.username),
            ),
        !encode_utf8(s.username).contains(58) && !encode_utf8(s.username).contains(10),
        !placeholder.contains(58) && !placeholder.contains(10),
        !remainder.contains(10),
        more.len() == 0 || more[0] == 10,
        valid_utf8(file@),
        file@ == file_of(others) + (entry(encode_utf8(s.username), placeholder, uid, remainder)
            + more),
    ensures
        helper_next(s, HelperEvent::Passwd(Some(file))).action == HelperAction::SetUid(uid),
        helper_next(s, HelperEvent::Passwd(Some(file))).uid == uid,
{
    law_listed_user_is_found(
        others,
        encode_utf8(s.username),
        placeholder,
        uid,
        remainder,
        more,
    );
}

/// Having become the user, the helper starts its clock, and not having become
/// the user, it ends, whoever the user is.
pub proof fn law_becoming_the_user_starts_the_wait(
    s: HelperView,
    uid: u32,
    rc: i32,
    error: String,
)
    requires
        s.action == HelperAction::SetUid(uid),
    ensures
        helper_next(s, HelperEvent::UidSet(rc, error)) == (if rc == 0 {
            HelperView {
                action: HelperAction::StartClock,
                log: s.log.push(
                    Line {
                        sink: Sink::Log(Level::Debug),
                        text: "dropped to uid="@ + decimal(uid as nat) + " for '"@ + s.username
                            + "'"@,
                    },
                ),
                ..s
            }
        } else {
            HelperView {
                action: HelperAction::Exit(ExitReason::SetUidFailed),
                log: s.log.push(
                    Line {
                        sink: Sink::Log(Level::Error),
                        text: "setuid("@ + decimal(uid as nat) + ") failed: "@ + error@,
                    },
                ),
                ..s
            }
        }),
{
}

/// Whether the helper waits for the keyring: it has become the user and started
/// its clock, and has not ended.
pub open spec fn is_waiting(action: HelperAction) -> bool {
    action is ReadClock || action is StatSocket || action is Unlock || action is Sleep
}

/// The wait starts when the clock is read first, and the time is up when more
/// than thirty seconds have passed since; until then the helper looks at the
/// socket, whatever it has tried before.
pub proof fn law_thirty_seconds(s: HelperView, now: u128)
    ensures
        s.action is StartClock ==> helper_next(s, HelperEvent::Clock(now)) == (HelperView {
            action: HelperAction::ReadClock,
            started: now,
            ..s
        }),
        s.action is ReadClock ==> helper_next(s, HelperEvent::Clock(now)) == (if now - s.started
            <= 30_000_000_000 {
            HelperView { action: HelperAction::StatSocket, ..s }
        } else {
            HelperView {
                action: HelperAction::Exit(ExitReason::TimedOut),
                log: s.log.push(
                    Line {
                        sink: Sink::Log(Level::Error),
                        text: "timed out after 30s waiting for successful unlock"@,
                    },
                ),
                ..s
            }
        }),
{
}

/// Whenever the helper has looked at the socket and it is the user's own, the
/// next thing is to try to unlock the keyring, whatever was tried or logged
/// before. Where there is no socket, or it is someone else's, the helper pauses.
pub proof fn law_own_socket_is_tried(s: HelperView, owner: Option<u32>)
    requires
        s.action is StatSocket,
    ensures
        owner == Some(s.uid) ==> helper_next(s, HelperEvent::Owner(owner)) == (HelperView {
            action: HelperAction::Unlock,
            ..s
        }),
        owner is None ==> helper_next(s, HelperEvent::Owner(owner)) == (HelperView {
            action: HelperAction::Sleep(200),
            ..s
        }),
        owner is Some && owner != Some(s.uid) ==> helper_next(s, HelperEvent::Owner(owner)) == (
        HelperView {
            action: HelperAction::Sleep(500),
            log: s.log.push(
                Line {
                    sink: Sink::Log(Level::Debug),
                    text: "socket owner mismatch, waiting…"@,
                },
            ),
            ..s
        }),
{
}

/// An attempt that succeeds ends the helper with success; one that fails, for
/// whatever reason and however often, leads to a pause; and after a pause the
/// clock is read again.
pub proof fn law_attempts_end_or_pause(s: HelperView, error: UnlockError)
    ensures
        s.action is Unlock ==> helper_next(s, HelperEvent::Unlocked(Ok(()))) == (HelperView {
            action: HelperAction::Exit(ExitReason::Unlocked),
            log: s.log.push(
                Line {
                    sink: Sink::Log(Level::Info),
                    text: "login keyring unlocked for '"@ + s.username + "'"@,
                },
            ),
            ..s
        }),
        s.action is Unlock ==> helper_next(s, HelperEvent::Unlocked(Err(error))) == (HelperView {
            action: HelperAction::Sleep(2000),
            log: s.log.push(
                Line {
                    sink: Sink::Log(Level::Debug),
                    text: "unlock attempt failed ("@ + error.text() + "), retrying in 2s…"@,
                },
            ),
            ..s
        }),
        s.action is Sleep ==> helper_next(s, HelperEvent::Woke) == (HelperView {
            action: HelperAction::ReadClock,
            ..s
        }),
{
}

/// While it waits the helper ends in two ways only: an attempt succeeded, or the
/// clock was read when more than thirty seconds had passed. Anything else leaves
/// it waiting, with the same passphrase, for the same user, by the same clock.
pub proof fn law_wait_ends_in_two_ways_only(s: HelperView, event: HelperEvent)
    requires
        is_waiting(s.action),
    ensures
        ({
            let t = helper_next(s, event);
            &&& t.passphrase == s.passphrase && t.uid == s.uid && t.started == s.started
                && t.username == s.username
            &&& {
                ||| is_waiting(t.action)
                ||| t.action == HelperAction::Exit(ExitReason::Unlocked) && s.action is Unlock
                    && event matches HelperEvent::Unlocked(Ok(()))
                ||| t.action == HelperAction::Exit(ExitReason::TimedOut) && s.action is ReadClock
                    && (event matches HelperEvent::Clock(now) && now - s.started > 30_000_000_000)
            }
        }),
{
}

/// Once it has become the user the helper ends in these two ways only, whatever
/// happens.
pub proof fn law_user_waits_to_the_end(s: HelperView, events: Seq<HelperEvent>)
    requires
        s.action is StartClock || is_waiting(s.action),
    ensures
        helper_run(s, events).action matches HelperAction::Exit(reason) ==> reason
            == ExitReason::Unlocked || reason == ExitReason::TimedOut,
        helper_run(s, events).passphrase == s.passphrase,
        helper_run(s, events).uid == s.uid,
        helper_run(s, events).username == s.username,
{
    lemma_user_waits_to_the_end(s, events);
}

proof fn lemma_user_waits_to_the_end(s: HelperView, events: Seq<HelperEvent>)
    requires
        s.action is StartClock || is_waiting(s.action),
    ensures
        ({
            let t = helper_run(s, events);
            &&& t.action is StartClock || is_waiting(t.action) || t.action == HelperAction::Exit(
                ExitReason::Unlocked,
            ) || t.action == HelperAction::Exit(ExitReason::TimedOut)
            &&& t.passphrase == s.passphrase && t.uid == s.uid && t.username == s.username
        }),
    decreases events.len(),
{
    if events.len() > 0 {
        lemma_user_waits_to_the_end(s, events.drop_last());
    }
}

/// What happens in rounds that come to nothing: at each of these times the
/// socket is the user's own, and the attempt to unlock the keyring fails with
/// this error.
pub open spec fn failing_rounds(uid: u32, rounds: Seq<(u128, UnlockError)>) -> Seq<HelperEvent>
    decreases rounds.len(),
{
    if rounds.len() == 0 {
        Seq::<HelperEvent>::empty()
    } else {
        failing_rounds(uid, rounds.drop_last()) + seq![
            HelperEvent::Clock(rounds.last().0),
            HelperEvent::Owner(Some(uid)),
            HelperEvent::Unlocked(Err(rounds.last().1)),
            HelperEvent::Woke,
        ]
    }
}

/// Attempts go on until the time is up: however many have failed, and with
/// whatever errors, at any time within the thirty seconds at which the socket is
/// the user's own another one is made, with the passphrase that was read.
pub proof fn law_attempts_go_on(s: HelperView, rounds: Seq<(u128, UnlockError)>, now: u128)
    requires
        s.action is ReadClock,
        forall|i: int|
            0 <= i < rounds.len() ==> (#[trigger] rounds[i]).0 - s.started <= 30_000_000_000,
        now - s.started <= 30_000_000_000,
    ensures
        ({
            let t = helper_run(
                s,
                failing_rounds(s.uid, rounds) + seq![
                    HelperEvent::Clock(now),
                    HelperEvent::Owner(Some(s.uid)),
                ],
            );
            &&& t.action == HelperAction::Unlock
            &&& t.passphrase == s.passphrase
            &&& t.log.len() == s.log.len() + rounds.len()
        }),
{
    lemma_failing_rounds(s, rounds);
    let before = failing_rounds(s.uid, rounds);
    let clock = before.push(HelperEvent::Clock(now));
    let all = before + seq![HelperEvent::Clock(now), HelperEvent::Owner(Some(s.uid))];
    assert(all.drop_last() =~= clock);
    assert(clock.drop_last() =~= before);
    let t0 = helper_run(s, before);
    let t1 = helper_next(t0, HelperEvent::Clock(now));
    assert(helper_run(s, clock) == t1);
    assert(helper_run(s, all) == helper_next(t1, HelperEvent::Owner(Some(s.uid))));
}

proof fn lemma_failing_rounds(s: HelperView, rounds: Seq<(u128, UnlockError)>)
    requires
        s.action is ReadClock,
        forall|i: int|
            0 <= i < rounds.len() ==> (#[trigger] rounds[i]).0 - s.started <= 30_000_000_000,
    ensures
        ({
            let t = helper_run(s, failing_rounds(s.uid, rounds));
            &&& t.action is ReadClock
            &&& t.passphrase == s.passphrase && t.uid == s.uid && t.started == s.started
            &&& t.log.len() == s.log.len() + rounds.len()
        }),
    decreases rounds.len(),
{
    if rounds.len() > 0 {
        let front = rounds.drop_last();
        let (time, error) = rounds.last();
        assert forall|i: int| 0 <= i < front.len() implies (#[trigger] front[i]).0 - s.started
            <= 30_000_000_000 by {
            assert(front[i] == rounds[i]);
        }
        assert(rounds[rounds.len() - 1].0 == time);
        lemma_failing_rounds(s, front);
        let e0 = failing_rounds(s.uid, front);
        let e1 = e0.push(HelperEvent::Clock(time));
        let e2 = e1.push(HelperEvent::Owner(Some(s.uid)));
        let e3 = e2.push(HelperEvent::Unlocked(Err(error)));
        let e4 = failing_rounds(s.uid, rounds);
        assert(e4 =~= e3.push(HelperEvent::Woke));
        assert(e1.drop_last() =~= e0 && e2.drop_last() =~= e1 && e3.drop_last() =~= e2);
        assert(e4.drop_last() =~= e3);
        let t0 = helper_run(s, e0);
        let t1 = helper_next(t0, HelperEvent::Clock(time));
        let t2 = helper_next(t1, HelperEvent::Owner(Some(s.uid)));
        let t3 = helper_next(t2, HelperEvent::Unlocked(Err(error)));
        assert(helper_run(s, e1) == t1);
        assert(helper_run(s, e2) == t2);
        assert(helper_run(s, e3) == t3);
        assert(helper_run(s, e4) == helper_next(t3, HelperEvent::Woke));
    }
}

/// The exit code is zero for an unlocked keyring, one where the time was up, and
/// two where the helper could not so much as try.
pub proof fn law_exit_codes()
    ensures
        ExitReason::Unlocked.spec_code() == 0,
        ExitReason::TimedOut.spec_code() == 1,
        ExitReason::Usage.spec_code() == 2,
        ExitReason::EmptyPassphrase.spec_code() == 2,
        ExitReason::UnknownUser.spec_code() == 2,
        ExitReason::SetUidFailed.spec_code() == 2,
{
}

/// Whether the event is an answer to the action.
pub open spec fn answers(action: HelperAction, event: HelperEvent) -> bool {
    match action {
        HelperAction::ReadPassphrase => event is Passphrase,
        HelperAction::ReadPasswd => event is Passwd,
        HelperAction::SetUid(_) => event is UidSet,
        HelperAction::StartClock => event is Clock,
        HelperAction::ReadClock => event is Clock,
        HelperAction::StatSocket => event is Owner,
        HelperAction::Unlock => event is Unlocked,
        HelperAction::Sleep(_) => event is Woke,
        HelperAction::Exit(_) => false,
    }
}

/// An event that is no answer to what was to be done changes nothing.
pub proof fn law_helper_takes_answers_only(s: HelperView, event: HelperEvent)
    requires
        !answers(s.action, event),
    ensures
        helper_next(s, event) == s,
{
}

/// The path of the socket differs from user to user in the user ID alone, which
/// stands in it in decimal.
pub proof fn law_socket_path_names_the_user(uid: u32)
    ensures
        socket_path_text(uid) == "/run/user/"@ + decimal(uid as nat) + "/keyring/control"@,
{
}

} // verus!
