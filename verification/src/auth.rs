//! The authentication phase: the decrypted passphrase becomes the
//! authentication token, so that the keyring's own module can stash it.
//!
//! An [`AuthPhase`] says what to do next, is told what came of it, and returns
//! with an [`AuthOutcome`]. It collects what is to be logged on the way. It
//! holds the passphrase while that is in use, and overwrites it then.

use vstd::prelude::*;

use crate::bytes::{c_string, lacks, wipe, zeros};
use crate::decimal::{decimal, push_signed_decimal, signed_decimal};
use crate::pam::{get_username, UserItem, PAM_IGNORE, PAM_SUCCESS};
use crate::secret::{
    decrypt_tpm_secret, decrypted_lines, decrypting_line, law_secret_is_what_was_written,
    log_decrypted, log_decrypting, secret_of, CommandOutput, SecretError,
};
use crate::syslog::{joined, logged, quiet, Level, Line, Messages, Sink};

verus! {

/// What the phase came to.
#[derive(Clone, Copy, Debug, PartialEq, Eq, Structural)]
pub enum AuthOutcome {
    /// The user is not known.
    NoUser,
    /// An earlier module has set a token.
    TokenPresent,
    /// There is no secret.
    NoSecret(SecretError),
    /// Setting the token returned this.
    TokenSet(i32),
}

impl AuthOutcome {
    /// The result code that stands for the outcome.
    pub open spec fn spec_code(self) -> i32 {
        match self {
            AuthOutcome::TokenSet(rc) => rc,
            _ => PAM_IGNORE,
        }
    }

    /// Gives the result code that stands for the outcome.
    pub fn code(&self) -> (code: i32)
        ensures
            code == self.spec_code(),
    {
        match self {
            AuthOutcome::TokenSet(rc) => *rc,
            _ => PAM_IGNORE,
        }
    }
}

/// What is to be done next.
#[derive(Clone, Copy, Debug, PartialEq, Eq, Structural)]
pub enum AuthAction {
    /// Find out how long the authentication token is.
    ReadToken,
    /// Run the command that decrypts the user's secret.
    Decrypt,
    /// Set the authentication token.
    SetToken,
    /// Return.
    Return(AuthOutcome),
}

/// What came of what was to be done.
pub enum AuthEvent {
    /// The length of the authentication token, where there is one.
    Token(Option<usize>),
    /// What the command came back with, where it could be run.
    Output(Option<CommandOutput>),
    /// What setting the token returned.
    TokenSet(i32),
}

/// The state of the phase.
#[verifier::ext_equal]
pub struct AuthView {
    /// What is to be done next.
    pub action: AuthAction,
    /// The user's name.
    pub username: Seq<char>,
    /// What is left of the secret that the command gave.
    pub secret: Seq<u8>,
    /// The token as a C string, while it is in use.
    pub token: Seq<u8>,
    /// What is to be logged so far.
    pub log: Seq<Line>,
}

/// The state that the phase starts from. Nothing is done without a user.
pub open spec fn auth_start(user: UserItem) -> AuthView {
    AuthView {
        action: match user.username() {
            None => AuthAction::Return(AuthOutcome::NoUser),
            Some(_) => AuthAction::ReadToken,
        },
        username: match user.username() {
            Some(name) => name,
            None => Seq::<char>::empty(),
        },
        secret: Seq::<u8>::empty(),
        token: Seq::<u8>::empty(),
        log: Seq::<Line>::empty(),
    }
}

/// Whether there is a token and it is not empty.
pub open spec fn present(token_len: Option<usize>) -> bool {
    token_len matches Some(n) && n > 0
}

/// What is logged where an earlier module has set a token.
pub open spec fn present_line() -> Line {
    logged(Level::Debug, "PAM_AUTHTOK already set by earlier module, skipping"@)
}

/// What is logged when setting the token returned `rc`.
pub open spec fn token_line(rc: i32, username: Seq<char>) -> Line {
    if rc == PAM_SUCCESS {
        logged(Level::Info, "PAM_AUTHTOK set for '"@ + username + "'"@)
    } else {
        logged(Level::Error, "pam_set_item failed with rc="@ + signed_decimal(rc as int))
    }
}

/// The state after an event. The secret is overwritten as soon as the token is
/// made of it, and the token as soon as it is set. An event that is no answer
/// to what was to be done changes nothing.
pub open spec fn auth_next(s: AuthView, event: AuthEvent) -> AuthView {
    match (s.action, event) {
        (AuthAction::ReadToken, AuthEvent::Token(len)) => if present(len) {
            AuthView {
                action: AuthAction::Return(AuthOutcome::TokenPresent),
                log: s.log.push(present_line()),
                ..s
            }
        } else {
            AuthView {
                action: AuthAction::Decrypt,
                log: s.log.push(decrypting_line(s.username)),
                ..s
            }
        },
        (AuthAction::Decrypt, AuthEvent::Output(output)) => match secret_of(output) {
            Ok(secret) => AuthView {
                action: AuthAction::SetToken,
                secret: zeros(secret.len()),
                token: secret.push(0),
                log: s.log + decrypted_lines(secret_of(output), s.username),
                ..s
            },
            Err(e) => AuthView {
                action: AuthAction::Return(AuthOutcome::NoSecret(e)),
                log: s.log + decrypted_lines(secret_of(output), s.username),
                ..s
            },
        },
        (AuthAction::SetToken, AuthEvent::TokenSet(rc)) => AuthView {
            action: AuthAction::Return(AuthOutcome::TokenSet(rc)),
            token: zeros(s.token.len()),
            log: s.log.push(token_line(rc, s.username)),
            ..s
        },
        _ => s,
    }
}

/// The state after a run of events.
pub open spec fn auth_run(s: AuthView, events: Seq<AuthEvent>) -> AuthView
    decreases events.len(),
{
    if events.len() == 0 {
        s
    } else {
        auth_next(auth_run(s, events.drop_last()), events.last())
    }
}

/// The authentication phase.
pub struct AuthPhase {
    action: AuthAction,
    username: String,
    secret: Vec<u8>,
    token: Vec<u8>,
    messages: Messages,
}

impl View for AuthPhase {
    type V = AuthView;

    closed spec fn view(&self) -> AuthView {
        AuthView {
            action: self.action,
            username: self.username@,
            secret: self.secret@,
            token: self.token@,
            log: self.messages@,
        }
    }
}

impl AuthPhase {
    /// Starts the phase.
    pub fn new(user: &UserItem) -> (phase: AuthPhase)
        ensures
            phase@ == auth_start(*user),
    {
        match get_username(user) {
            Some(username) => AuthPhase {
                action: AuthAction::ReadToken,
                username,
                secret: Vec::new(),
                token: Vec::new(),
                messages: Messages::new(),
            },
            None => AuthPhase {
                action: AuthAction::Return(AuthOutcome::NoUser),
                username: String::new(),
                secret: Vec::new(),
                token: Vec::new(),
                messages: Messages::new(),
            },
        }
    }

    /// What is to be done next.
    pub fn action(&self) -> (action: AuthAction)
        ensures
            action == self@.action,
    {
        self.action
    }

    /// The user's name.
    pub fn username(&self) -> (username: &str)
        ensures
            username@ == self@.username,
    {
        self.username.as_str()
    }

    /// The token as a C string, to be set when it is its turn.
    pub fn token(&self) -> (token: &[u8])
        ensures
            token@ == self@.token,
    {
        self.token.as_slice()
    }

    /// What is to be logged so far.
    pub fn messages(&self) -> (messages: &Messages)
        ensures
            messages@ == self@.log,
    {
        &self.messages
    }

    /// Takes in what came of the last action.
    pub fn step(&mut self, event: AuthEvent)
        ensures
            final(self)@ == auth_next(old(self)@, event),
    {
        match (self.action, event) {
            (AuthAction::ReadToken, AuthEvent::Token(len)) => {
                let present: bool = match len {
                    Some(n) => n > 0,
                    None => false,
                };
                if present {
                    self.messages.log(
                        Level::Debug,
                        "PAM_AUTHTOK already set by earlier module, skipping".to_owned(),
                    );
                    self.action = AuthAction::Return(AuthOutcome::TokenPresent);
                } else {
                    log_decrypting(&mut self.messages, self.username.as_str());
                    self.action = AuthAction::Decrypt;
                }
            },
            (AuthAction::Decrypt, AuthEvent::Output(output)) => {
                let mut output: Option<CommandOutput> = output;
                let result = decrypt_tpm_secret(&mut output);
                log_decrypted(&mut self.messages, &result, self.username.as_str());
                match result {
                    Ok(secret) => {
                        self.secret = secret;
                        self.token = c_string(self.secret.as_slice());
                        wipe(&mut self.secret);
                        self.action = AuthAction::SetToken;
                    },
                    Err(e) => {
                        self.action = AuthAction::Return(AuthOutcome::NoSecret(e));
                    },
                }
            },
            (AuthAction::SetToken, AuthEvent::TokenSet(rc)) => {
                wipe(&mut self.token);
                if rc == PAM_SUCCESS {
                    self.messages.log(
                        Level::Info,
                        joined("PAM_AUTHTOK set for '", self.username.as_str(), "'"),
                    );
                } else {
                    let mut text: String = "pam_set_item failed with rc=".to_owned();
                    push_signed_decimal(&mut text, rc);
                    self.messages.log(Level::Error, text);
                }
                self.action = AuthAction::Return(AuthOutcome::TokenSet(rc));
            },
            _ => {},
        }
    }
}

/// What was to be done when the event at `i` came.
pub open spec fn asked(start: AuthView, events: Seq<AuthEvent>, i: int) -> AuthAction {
    auth_run(start, events.take(i)).action
}

/// Whether the phase asked at `i` to have the secret decrypted, and the command
/// gave this one.
pub open spec fn decrypted_at(
    start: AuthView,
    events: Seq<AuthEvent>,
    i: int,
    secret: Seq<u8>,
) -> bool {
    &&& 0 <= i < events.len()
    &&& asked(start, events, i) == AuthAction::Decrypt
    &&& events[i] matches AuthEvent::Output(output) && secret_of(output) == Ok::<
        Seq<u8>,
        SecretError,
    >(secret)
}

/// Whether the phase looked for a token at `i`, and there was none, or an empty
/// one.
pub open spec fn no_token_at(start: AuthView, events: Seq<AuthEvent>, i: int) -> bool {
    &&& 0 <= i < events.len()
    &&& asked(start, events, i) == AuthAction::ReadToken
    &&& events[i] matches AuthEvent::Token(len) && !present(len)
}

/// What happened stays as it was when another event comes.
proof fn lemma_past_stays(start: AuthView, before: Seq<AuthEvent>, event: AuthEvent)
    ensures
        ({
            let after = before.push(event);
            &&& forall|i: int, secret: Seq<u8>| #[trigger]
                decrypted_at(start, before, i, secret) ==> decrypted_at(start, after, i, secret)
            &&& forall|i: int| #[trigger]
                no_token_at(start, before, i) ==> no_token_at(start, after, i)
        }),
{
    let after = before.push(event);
    assert forall|i: int| 0 <= i < before.len() implies #[trigger] asked(start, after, i) == asked(
        start,
        before,
        i,
    ) by {
        assert(after.take(i) =~= before.take(i));
    }
}

/// Whether an action is one that a token set earlier rules out.
pub open spec fn is_past_token(action: AuthAction) -> bool {
    match action {
        AuthAction::Decrypt => true,
        AuthAction::SetToken => true,
        AuthAction::Return(AuthOutcome::NoSecret(_)) => true,
        AuthAction::Return(AuthOutcome::TokenSet(_)) => true,
        _ => false,
    }
}

proof fn lemma_auth_inv(user: UserItem, events: Seq<AuthEvent>)
    ensures
        ({
            let s = auth_run(auth_start(user), events);
            &&& s.username == auth_start(user).username
            &&& s.secret == zeros(s.secret.len())
            &&& !(s.action is SetToken) ==> s.token == zeros(s.token.len())
            &&& s.action is SetToken ==> exists|i: int|
                #[trigger] decrypted_at(auth_start(user), events, i, s.token.drop_last())
                    && s.token == s.token.drop_last().push(0)
            &&& is_past_token(s.action) ==> exists|i: int|
                #[trigger] no_token_at(auth_start(user), events, i)
            &&& user.username() is None ==> s == auth_start(user)
        }),
    decreases events.len(),
{
    assert(zeros(0) =~= Seq::<u8>::empty());
    if events.len() > 0 {
        let start = auth_start(user);
        let before = events.drop_last();
        let event = events.last();
        let n = before.len() as int;
        lemma_auth_inv(user, before);
        assert(events =~= before.push(event));
        lemma_past_stays(start, before, event);
        let s = auth_run(start, before);
        let t = auth_next(s, event);
        assert(asked(start, events, n) == s.action) by {
            assert(events.take(n) =~= before);
        }
        assert(events[n] == event);
        if t.action is SetToken {
            if s.action is SetToken {
                let i = choose|i: int|
                    #[trigger] decrypted_at(start, before, i, s.token.drop_last()) && s.token
                        == s.token.drop_last().push(0);
                assert(decrypted_at(start, events, i, t.token.drop_last()));
            } else {
                let secret = secret_of(event->Output_0)->Ok_0;
                assert(t.token.drop_last() =~= secret);
                assert(decrypted_at(start, events, n, t.token.drop_last()));
            }
        }
        if is_past_token(s.action) {
            let i = choose|i: int| #[trigger] no_token_at(start, before, i);
            assert(no_token_at(start, events, i));
        } else if is_past_token(t.action) {
            assert(no_token_at(start, events, n));
        }
    }
}

/// A return is final.
pub proof fn law_auth_return_is_final(s: AuthView, events: Seq<AuthEvent>)
    requires
        s.action is Return,
    ensures
        auth_run(s, events) == s,
    decreases events.len(),
{
    if events.len() > 0 {
        law_auth_return_is_final(s, events.drop_last());
    }
}

/// A token that an earlier module has set is left alone: told of one, the phase
/// returns, and stays so whatever happens.
pub proof fn law_token_is_not_overridden(s: AuthView, len: usize, events: Seq<AuthEvent>)
    requires
        s.action is ReadToken,
        len > 0,
    ensures
        auth_run(auth_next(s, AuthEvent::Token(Some(len))), events).action == AuthAction::Return(
            AuthOutcome::TokenPresent,
        ),
{
    law_auth_return_is_final(auth_next(s, AuthEvent::Token(Some(len))), events);
}

/// Decrypting the secret and setting the token come up only where the phase has
/// looked for a token before, and found none, or an empty one.
pub proof fn law_token_is_looked_for_first(user: UserItem, events: Seq<AuthEvent>)
    requires
        is_past_token(auth_run(auth_start(user), events).action),
    ensures
        exists|i: int| #[trigger] no_token_at(auth_start(user), events, i),
{
    lemma_auth_inv(user, events);
}

/// Without a user the phase returns at once: the token is not looked at and
/// nothing is decrypted or logged, whatever happens.
pub proof fn law_no_user_nothing_done(user: UserItem, events: Seq<AuthEvent>)
    requires
        user.username() is None,
    ensures
        auth_run(auth_start(user), events) == auth_start(user),
        auth_start(user).action == AuthAction::Return(AuthOutcome::NoUser),
        auth_start(user).log.len() == 0,
{
    lemma_auth_inv(user, events);
}

/// The token is touched only where setting it decides what the phase returns:
/// where the phase returns with anything else, it has at no time asked for the
/// token to be set.
pub proof fn law_token_untouched_otherwise(user: UserItem, events: Seq<AuthEvent>, k: int)
    requires
        0 <= k <= events.len(),
        auth_run(auth_start(user), events).action matches AuthAction::Return(outcome) && !(
        outcome is TokenSet),
    ensures
        !(auth_run(auth_start(user), events.take(k)).action is SetToken),
{
    if auth_run(auth_start(user), events.take(k)).action is SetToken {
        lemma_set_token_leads_on(user, events, k);
    }
}

proof fn lemma_set_token_leads_on(user: UserItem, events: Seq<AuthEvent>, k: int)
    requires
        0 <= k <= events.len(),
        auth_run(auth_start(user), events.take(k)).action is SetToken,
    ensures
        ({
            let action = auth_run(auth_start(user), events).action;
            action is SetToken || (action matches AuthAction::Return(outcome)
                && outcome is TokenSet)
        }),
    decreases events.len(),
{
    if k == events.len() {
        assert(events.take(k) =~= events);
    } else {
        assert(events.drop_last().take(k) =~= events.take(k));
        lemma_set_token_leads_on(user, events.drop_last(), k);
    }
}

/// The secret that the command gave is overwritten whenever the phase says what
/// to do next. The token made of it is there only while it is to be set; before
/// that and after that, all that is there is zero.
pub proof fn law_passphrase_is_wiped(user: UserItem, events: Seq<AuthEvent>)
    ensures
        ({
            let s = auth_run(auth_start(user), events);
            &&& s.secret == zeros(s.secret.len())
            &&& !(s.action is SetToken) ==> s.token == zeros(s.token.len())
        }),
{
    lemma_auth_inv(user, events);
}

/// The token that is set is the secret that the command gave when the phase
/// asked for it, whole, as a C string.
pub proof fn law_token_is_the_secret(user: UserItem, events: Seq<AuthEvent>)
    requires
        auth_run(auth_start(user), events).action is SetToken,
    ensures
        exists|i: int, secret: Seq<u8>|
            #[trigger] decrypted_at(auth_start(user), events, i, secret) && auth_run(
                auth_start(user),
                events,
            ).token == secret.push(0) && lacks(secret, 0),
{
    lemma_auth_inv(user, events);
    let s = auth_run(auth_start(user), events);
    let i = choose|i: int|
        #[trigger] decrypted_at(auth_start(user), events, i, s.token.drop_last()) && s.token
            == s.token.drop_last().push(0);
    let secret = s.token.drop_last();
    assert(decrypted_at(auth_start(user), events, i, secret) && s.token == secret.push(0) && lacks(secret, 0));
}

/// Where setting the token is not reached, the phase asks to be left out of
/// account.
pub proof fn law_auth_ignores_otherwise(outcome: AuthOutcome)
    requires
        !(outcome is TokenSet),
    ensures
        outcome.spec_code() == PAM_IGNORE,
{
}

/// For a user who has not enrolled, the phase leaves nothing in the log but
/// what helps to find faults.
pub proof fn law_auth_is_quiet_without_enrolment(
    user: UserItem,
    len: Option<usize>,
    output: CommandOutput,
)
    requires
        !output.success,
    ensures
        quiet(
            auth_next(
                auth_next(auth_start(user), AuthEvent::Token(len)),
                AuthEvent::Output(Some(output)),
            ).log,
        ),
{
}

/// A phase starts with looking for a token, for every user whose name is known,
/// and with nothing logged. Where the name is not known it is over.
pub proof fn law_auth_starts_with_the_token(user: UserItem, name: Seq<char>)
    ensures
        user.username() == Some(name) ==> auth_start(user) == (AuthView {
            action: AuthAction::ReadToken,
            username: name,
            secret: Seq::<u8>::empty(),
            token: Seq::<u8>::empty(),
            log: Seq::<Line>::empty(),
        }),
        user.username() is None ==> {
            &&& auth_start(user).action == AuthAction::Return(AuthOutcome::NoUser)
            &&& auth_start(user).secret.len() == 0
            &&& auth_start(user).token.len() == 0
            &&& auth_start(user).log.len() == 0
        },
{
}

/// Where there is no token, or an empty one, the secret is decrypted next,
/// whoever the user is; where there is one, however short or long, it is not.
pub proof fn law_token_decides_on_decryption(s: AuthView, len: Option<usize>)
    requires
        s.action is ReadToken,
    ensures
        ({
            let t = auth_next(s, AuthEvent::Token(len));
            &&& t.action == (if len is None || len->0 == 0 {
                AuthAction::Decrypt
            } else {
                AuthAction::Return(AuthOutcome::TokenPresent)
            })
            &&& t.username == s.username && t.secret == s.secret && t.token == s.token
            &&& t.log == s.log.push(
                Line {
                    sink: Sink::Log(Level::Debug),
                    text: if t.action is Decrypt {
                        "decrypting secret for '"@ + s.username + "' via clevis"@
                    } else {
                        "PAM_AUTHTOK already set by earlier module, skipping"@
                    },
                },
            )
        }),
{
}

/// Every secret becomes the token: where the command succeeded and wrote a
/// secret, of any length, the token is to be set next, and it is that secret
/// and a zero byte.
pub proof fn law_every_secret_becomes_the_token(
    s: AuthView,
    output: CommandOutput,
    plain: Seq<u8>,
)
    requires
        s.action is Decrypt,
        output.success,
        !plain.contains(0),
        output.stdout@ == plain.push(10) || (output.stdout@ == plain && plain.len() > 0
            && plain.last() != 10),
    ensures
        ({
            let t = auth_next(s, AuthEvent::Output(Some(output)));
            &&& t.action == AuthAction::SetToken
            &&& t.token == plain.push(0)
            &&& t.username == s.username
            &&& t.log == s.log.push(
                Line {
                    sink: Sink::Log(Level::Debug),
                    text: "decrypted "@ + decimal(plain.len()) + " bytes for '"@ + s.username
                        + "'"@,
                },
            )
            &&& t.secret.len() == plain.len()
            &&& forall|i: int| 0 <= i < t.secret.len() ==> t.secret[i] == 0
        }),
{
    law_secret_is_what_was_written(plain, output);
    assert(s.log + decrypted_lines(secret_of(Some(output)), s.username) =~= s.log.push(
        decrypted_lines(secret_of(Some(output)), s.username)[0],
    ));
}

/// The phase returns for want of a secret only where there is none, and with
/// the reason why: the command did not run, failed, wrote nothing, or wrote a
/// zero byte.
pub proof fn law_no_token_only_without_secret(s: AuthView, output: Option<CommandOutput>)
    requires
        s.action is Decrypt,
    ensures
        auth_next(s, AuthEvent::Output(output)).action is SetToken || auth_next(
            s,
            AuthEvent::Output(output),
        ).action is Return,
        auth_next(s, AuthEvent::Output(output)).action matches AuthAction::Return(outcome) ==> {
            &&& auth_next(s, AuthEvent::Output(output)).token == s.token
            &&& auth_next(s, AuthEvent::Output(output)).secret == s.secret
            &&& auth_next(s, AuthEvent::Output(output)).username == s.username
            &&& auth_next(s, AuthEvent::Output(output)).log == s.log + decrypted_lines(
                Err(outcome->NoSecret_0),
                s.username,
            )
            &&& match outcome {
                AuthOutcome::NoSecret(SecretError::NotRun) => output is None,
                AuthOutcome::NoSecret(SecretError::Failed(code)) => output is Some
                    && !output->0.success && (output->0.code == Some(code) || (output->0.code
                    is None && code == -1)),
                AuthOutcome::NoSecret(SecretError::Empty) => output is Some && output->0.success
                    && output->0.stdout@.len() == 0,
                AuthOutcome::NoSecret(SecretError::ZeroByte) => output is Some
                    && output->0.success && output->0.stdout@.contains(0),
                _ => false,
            }
        },
{
}

/// What setting the token returned is what the phase returns, whatever it is,
/// and it is logged.
pub proof fn law_result_of_setting_is_returned(s: AuthView, rc: i32)
    requires
        s.action is SetToken,
    ensures
        ({
            let t = auth_next(s, AuthEvent::TokenSet(rc));
            &&& t.action == AuthAction::Return(AuthOutcome::TokenSet(rc))
            &&& t.token.len() == s.token.len()
            &&& forall|i: int| 0 <= i < t.token.len() ==> t.token[i] == 0
            &&& t.secret == s.secret && t.username == s.username
            &&& t.log == s.log.push(
                if rc == 0 {
                    Line {
                        sink: Sink::Log(Level::Info),
                        text: "PAM_AUTHTOK set for '"@ + s.username + "'"@,
                    }
                } else {
                    Line {
                        sink: Sink::Log(Level::Error),
                        text: "pam_set_item failed with rc="@ + signed_decimal(rc as int),
                    }
                },
            )
        }),
        AuthOutcome::TokenSet(rc).spec_code() == rc,
{
}

/// Outcomes short of setting the token have libpam leave the module out of
/// account, whatever the reason.
pub proof fn law_auth_codes(error: SecretError)
    ensures
        AuthOutcome::NoUser.spec_code() == 25,
        AuthOutcome::TokenPresent.spec_code() == 25,
        AuthOutcome::NoSecret(error).spec_code() == 25,
{
}

/// Whether the event is an answer to the action.
pub open spec fn answers(action: AuthAction, event: AuthEvent) -> bool {
    match action {
        AuthAction::ReadToken => event is Token,
        AuthAction::Decrypt => event is Output,
        AuthAction::SetToken => event is TokenSet,
        AuthAction::Return(_) => false,
    }
}

/// An event that is no answer to what was to be done changes nothing.
pub proof fn law_auth_takes_answers_only(s: AuthView, event: AuthEvent)
    requires
        !answers(s.action, event),
    ensures
        auth_next(s, event) == s,
{
}

/// A phase carried through, for a user with any name, no token or an empty one,
/// and any secret: the token is set to the secret and a zero byte, what that
/// returned is returned, and nothing of the secret is left.
pub proof fn law_auth_carried_through(
    user: UserItem,
    name: Seq<char>,
    len: Option<usize>,
    output: CommandOutput,
    plain: Seq<u8>,
    rc: i32,
)
    requires
        user.username() == Some(name),
        len is None || len->0 == 0,
        output.success,
        !plain.contains(0),
        output.stdout@ == plain.push(10) || (output.stdout@ == plain && plain.len() > 0
            && plain.last() != 10),
    ensures
        ({
            let events = seq![AuthEvent::Token(len), AuthEvent::Output(Some(output))];
            let set = auth_run(auth_start(user), events);
            let done = auth_run(auth_start(user), events.push(AuthEvent::TokenSet(rc)));
            &&& set.action == AuthAction::SetToken && set.token == plain.push(0)
            &&& done.action == AuthAction::Return(AuthOutcome::TokenSet(rc))
            &&& forall|i: int| 0 <= i < done.token.len() ==> done.token[i] == 0
            &&& forall|i: int| 0 <= i < done.secret.len() ==> done.secret[i] == 0
        }),
{
    let start = auth_start(user);
    let events = seq![AuthEvent::Token(len), AuthEvent::Output(Some(output))];
    let one = seq![AuthEvent::Token(len)];
    let all = events.push(AuthEvent::TokenSet(rc));
    let s1 = auth_next(start, AuthEvent::Token(len));
    assert(events.drop_last() =~= one);
    assert(one.drop_last() =~= Seq::<AuthEvent>::empty());
    assert(all.drop_last() =~= events);
    assert(auth_run(start, Seq::<AuthEvent>::empty()) == start);
    assert(auth_run(start, one) == s1);
    law_every_secret_becomes_the_token(s1, output, plain);
    let s2 = auth_next(s1, AuthEvent::Output(Some(output)));
    assert(auth_run(start, events) == s2);
    law_result_of_setting_is_returned(s2, rc);
    assert(auth_run(start, all) == auth_next(s2, AuthEvent::TokenSet(rc)));
}

} // verus!
