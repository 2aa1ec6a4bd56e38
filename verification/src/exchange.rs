//! One attempt to unlock the keyring over the control socket.
//!
//! An [`Exchange`] says what to do next with the socket, is told how that went,
//! and ends with the daemon's verdict or with what went wrong.

use vstd::prelude::*;

use crate::bytes::be_value;
use crate::protocol::{
    law_request_spells_its_lengths, reply_size, reply_verdict, unlock_request, unlock_request_bytes, verdict, UnlockError,
    MAX_PASSPHRASE,
};

verus! {

/// What is to be done next.
#[derive(Debug)]
pub enum ExchangeAction {
    /// Connect to the socket.
    Connect,
    /// Send one byte with the credentials of this process.
    SendCredentials,
    /// Write the request.
    Write,
    /// Read the four bytes of the reply's length.
    ReadSize,
    /// Read so many bytes, the remainder of the reply.
    ReadBody(u32),
    /// Nothing: the attempt has come to this.
    Finish(Result<(), UnlockError>),
}

/// How what was to be done went. The texts are those of the operating system.
#[derive(Debug)]
pub enum ExchangeEvent {
    /// The socket is connected, or not.
    Connected(Result<(), String>),
    /// What sending the credentials returned, and the text of the error where
    /// that is negative.
    CredentialsSent(isize, String),
    /// The request is written, or not.
    Written(Result<(), String>),
    /// The four bytes of the length, or none.
    SizeRead(Result<[u8; 4], String>),
    /// The remainder of the reply, or none.
    BodyRead(Result<Vec<u8>, String>),
}

/// The state of an exchange: what is to be done next, and the request.
pub struct ExchangeView {
    pub action: ExchangeAction,
    pub request: Seq<u8>,
}

/// The state that an exchange starts from.
pub open spec fn exchange_start(passphrase: Seq<u8>) -> ExchangeView {
    ExchangeView { action: ExchangeAction::Connect, request: unlock_request_bytes(passphrase) }
}

/// What is to be done after `action` when `event` came of it. An event that is
/// no answer to the action leaves it to be done; so does a remainder that is
/// not as long as was asked for.
pub open spec fn action_after(action: ExchangeAction, event: ExchangeEvent) -> ExchangeAction {
    match (action, event) {
        (ExchangeAction::Connect, ExchangeEvent::Connected(Ok(()))) => {
            ExchangeAction::SendCredentials
        },
        (ExchangeAction::Connect, ExchangeEvent::Connected(Err(e))) => {
            ExchangeAction::Finish(Err(UnlockError::Connect(e)))
        },
        (ExchangeAction::SendCredentials, ExchangeEvent::CredentialsSent(rc, e)) => if rc < 0 {
            ExchangeAction::Finish(Err(UnlockError::Credentials(e)))
        } else {
            ExchangeAction::Write
        },
        (ExchangeAction::Write, ExchangeEvent::Written(Ok(()))) => ExchangeAction::ReadSize,
        (ExchangeAction::Write, ExchangeEvent::Written(Err(e))) => {
            ExchangeAction::Finish(Err(UnlockError::Write(e)))
        },
        (ExchangeAction::ReadSize, ExchangeEvent::SizeRead(Ok(word))) => if be_value(word@) < 8 {
            ExchangeAction::Finish(Err(UnlockError::TooShort(be_value(word@) as u32)))
        } else {
            ExchangeAction::ReadBody((be_value(word@) - 4) as u32)
        },
        (ExchangeAction::ReadSize, ExchangeEvent::SizeRead(Err(e))) => {
            ExchangeAction::Finish(Err(UnlockError::ReadSize(e)))
        },
        (ExchangeAction::ReadBody(n), ExchangeEvent::BodyRead(Ok(body))) => if body@.len() == n {
            ExchangeAction::Finish(verdict(be_value(body@)))
        } else {
            action
        },
        (ExchangeAction::ReadBody(n), ExchangeEvent::BodyRead(Err(e))) => {
            ExchangeAction::Finish(Err(UnlockError::ReadBody(e)))
        },
        _ => action,
    }
}

/// The state after an event.
pub open spec fn exchange_next(state: ExchangeView, event: ExchangeEvent) -> ExchangeView {
    ExchangeView { action: action_after(state.action, event), request: state.request }
}

/// The state after a run of events.
pub open spec fn exchange_run(state: ExchangeView, events: Seq<ExchangeEvent>) -> ExchangeView
    decreases events.len(),
{
    if events.len() == 0 {
        state
    } else {
        exchange_next(exchange_run(state, events.drop_last()), events.last())
    }
}

/// One attempt to unlock the keyring.
pub struct Exchange {
    action: ExchangeAction,
    request: Vec<u8>,
}

impl View for Exchange {
    type V = ExchangeView;

    closed spec fn view(&self) -> ExchangeView {
        ExchangeView { action: self.action, request: self.request@ }
    }
}

impl Exchange {
    /// What is asked for after the length of a reply has room for a result
    /// code.
    #[verifier::type_invariant]
    spec fn body_holds_code(self) -> bool {
        self.action matches ExchangeAction::ReadBody(n) ==> n >= 4
    }

    /// Starts an attempt to unlock the keyring with `passphrase`.
    pub fn new(passphrase: &[u8]) -> (exchange: Exchange)
        requires
            passphrase@.len() <= MAX_PASSPHRASE,
        ensures
            exchange@ == exchange_start(passphrase@),
    {
        Exchange { action: ExchangeAction::Connect, request: unlock_request(passphrase) }
    }

    /// What is to be done next.
    pub fn action(&self) -> (action: &ExchangeAction)
        ensures
            *action == self@.action,
    {
        &self.action
    }

    /// Gives up the exchange for what is to be done next.
    pub fn into_action(self) -> (action: ExchangeAction)
        ensures
            action == self@.action,
    {
        self.action
    }

    /// The request, to be written when it is its turn.
    pub fn request(&self) -> (request: &[u8])
        ensures
            request@ == self@.request,
    {
        self.request.as_slice()
    }

    /// Takes in how the last action went.
    pub fn step(&mut self, event: ExchangeEvent)
        ensures
            final(self)@ == exchange_next(old(self)@, event),
    {
        proof {
            use_type_invariant(&*self);
        }
        match (&self.action, event) {
            (ExchangeAction::Connect, ExchangeEvent::Connected(Ok(()))) => {
                self.action = ExchangeAction::SendCredentials;
            },
            (ExchangeAction::Connect, ExchangeEvent::Connected(Err(e))) => {
                self.action = ExchangeAction::Finish(Err(UnlockError::Connect(e)));
            },
            (ExchangeAction::SendCredentials, ExchangeEvent::CredentialsSent(rc, e)) => {
                self.action = if rc < 0 {
                    ExchangeAction::Finish(Err(UnlockError::Credentials(e)))
                } else {
                    ExchangeAction::Write
                };
            },
            (ExchangeAction::Write, ExchangeEvent::Written(Ok(()))) => {
                self.action = ExchangeAction::ReadSize;
            },
            (ExchangeAction::Write, ExchangeEvent::Written(Err(e))) => {
                self.action = ExchangeAction::Finish(Err(UnlockError::Write(e)));
            },
            (ExchangeAction::ReadSize, ExchangeEvent::SizeRead(Ok(word))) => {
                self.action = match reply_size(word.as_slice()) {
                    Ok(n) => ExchangeAction::ReadBody(n - 4),
                    Err(e) => ExchangeAction::Finish(Err(e)),
                };
            },
            (ExchangeAction::ReadSize, ExchangeEvent::SizeRead(Err(e))) => {
                self.action = ExchangeAction::Finish(Err(UnlockError::ReadSize(e)));
            },
            (ExchangeAction::ReadBody(n), ExchangeEvent::BodyRead(Ok(body))) => {
                if body.len() == *n as usize {
                    self.action = ExchangeAction::Finish(reply_verdict(body.as_slice()));
                }
            },
            (ExchangeAction::ReadBody(_), ExchangeEvent::BodyRead(Err(e))) => {
                self.action = ExchangeAction::Finish(Err(UnlockError::ReadBody(e)));
            },
            _ => {},
        }
    }
}

/// What was to be done when the event at `i` came.
pub open spec fn asked(start: ExchangeView, events: Seq<ExchangeEvent>, i: int) -> ExchangeAction {
    exchange_run(start, events.take(i)).action
}

/// Whether the socket was to be connected at `i`, and was.
pub open spec fn connected_at(start: ExchangeView, events: Seq<ExchangeEvent>, i: int) -> bool {
    &&& 0 <= i < events.len()
    &&& asked(start, events, i) is Connect
    &&& events[i] matches ExchangeEvent::Connected(Ok(()))
}

/// Whether the credentials were to be sent at `i`, and were.
pub open spec fn introduced_at(start: ExchangeView, events: Seq<ExchangeEvent>, i: int) -> bool {
    &&& 0 <= i < events.len()
    &&& asked(start, events, i) is SendCredentials
    &&& events[i] matches ExchangeEvent::CredentialsSent(rc, _) && rc >= 0
}

/// Whether the request was to be written at `i`, and was.
pub open spec fn written_at(start: ExchangeView, events: Seq<ExchangeEvent>, i: int) -> bool {
    &&& 0 <= i < events.len()
    &&& asked(start, events, i) is Write
    &&& events[i] matches ExchangeEvent::Written(Ok(()))
}

/// Whether the remainder of the reply was to be read at `i`, and was, and holds
/// the code for success.
pub open spec fn granted_at(start: ExchangeView, events: Seq<ExchangeEvent>, i: int) -> bool {
    &&& 0 <= i < events.len()
    &&& asked(start, events, i) is ReadBody
    &&& events[i] matches ExchangeEvent::BodyRead(Ok(body)) && body@.len() == asked(
        start,
        events,
        i,
    )->ReadBody_0 && be_value(body@) == 0
}

/// Whether the socket was connected and the credentials were sent after that.
pub open spec fn introduced(start: ExchangeView, events: Seq<ExchangeEvent>) -> bool {
    exists|c: int, i: int|
        c < i && #[trigger] connected_at(start, events, c) && #[trigger] introduced_at(
            start,
            events,
            i,
        )
}

/// Whether the socket was connected, the credentials were sent after that, and
/// the request was written after that.
pub open spec fn requested(start: ExchangeView, events: Seq<ExchangeEvent>) -> bool {
    exists|c: int, i: int, w: int|
        c < i < w && #[trigger] connected_at(start, events, c) && #[trigger] introduced_at(
            start,
            events,
            i,
        ) && #[trigger] written_at(start, events, w)
}

/// Whether the socket was connected, the credentials were sent after that, the
/// request was written after that, and the daemon replied with the code for
/// success after that.
pub open spec fn granted(start: ExchangeView, events: Seq<ExchangeEvent>) -> bool {
    exists|c: int, i: int, w: int, r: int|
        c < i < w < r && #[trigger] connected_at(start, events, c) && #[trigger] introduced_at(
            start,
            events,
            i,
        ) && #[trigger] written_at(start, events, w) && #[trigger] granted_at(start, events, r)
}

/// What holds of every state that an exchange can come to, by what is to be
/// done next.
spec fn exchange_inv(
    start: ExchangeView,
    action: ExchangeAction,
    events: Seq<ExchangeEvent>,
) -> bool {
    match action {
        ExchangeAction::Connect => true,
        ExchangeAction::SendCredentials => exists|c: int| #[trigger] connected_at(start, events, c),
        ExchangeAction::Write => introduced(start, events),
        ExchangeAction::ReadSize => requested(start, events),
        ExchangeAction::ReadBody(n) => requested(start, events) && n >= 4,
        ExchangeAction::Finish(Ok(())) => granted(start, events),
        ExchangeAction::Finish(Err(_)) => true,
    }
}

/// What happened stays as it was when another event comes.
proof fn lemma_past_stays(start: ExchangeView, before: Seq<ExchangeEvent>, event: ExchangeEvent)
    ensures
        ({
            let after = before.push(event);
            &&& forall|i: int| #[trigger]
                connected_at(start, before, i) ==> connected_at(start, after, i)
            &&& forall|i: int| #[trigger]
                introduced_at(start, before, i) ==> introduced_at(start, after, i)
            &&& forall|i: int| #[trigger]
                written_at(start, before, i) ==> written_at(start, after, i)
            &&& forall|i: int| #[trigger]
                granted_at(start, before, i) ==> granted_at(start, after, i)
        }),
{
    let after = before.push(event);
    assert forall|i: int| 0 <= i < before.len() implies #[trigger] asked(start, after, i) == asked(
        start,
        before,
        i,
    ) by {
        assert(after.take(i) =~= before.take(i));
    }
}

/// What holds of a state still holds of it when another event comes.
proof fn lemma_inv_stays(
    start: ExchangeView,
    action: ExchangeAction,
    before: Seq<ExchangeEvent>,
    event: ExchangeEvent,
)
    requires
        exchange_inv(start, action, before),
    ensures
        exchange_inv(start, action, before.push(event)),
{
    lemma_past_stays(start, before, event);
}

proof fn lemma_exchange_inv(start: ExchangeView, events: Seq<ExchangeEvent>)
    requires
        start.action is Connect,
    ensures
        exchange_inv(start, exchange_run(start, events).action, events),
        exchange_run(start, events).request == start.request,
    decreases events.len(),
{
    if events.len() > 0 {
        let before = events.drop_last();
        let event = events.last();
        lemma_exchange_inv(start, before);
        assert(events =~= before.push(event));
        lemma_exchange_step(start, exchange_run(start, before).action, before, event);
    }
}

#[verifier::spinoff_prover]
proof fn lemma_exchange_step(
    start: ExchangeView,
    action: ExchangeAction,
    before: Seq<ExchangeEvent>,
    event: ExchangeEvent,
)
    requires
        action == exchange_run(start, before).action,
        exchange_inv(start, action, before),
    ensures
        exchange_inv(start, action_after(action, event), before.push(event)),
{
    let events = before.push(event);
    let n = before.len() as int;
    let after = action_after(action, event);
    lemma_inv_stays(start, action, before, event);
    if after != action {
        lemma_past_stays(start, before, event);
        assert(asked(start, events, n) == action) by {
            assert(events.take(n) =~= before);
        }
        assert(events[n] == event);
        match action {
            ExchangeAction::Connect => {
                assert(after is SendCredentials ==> connected_at(start, events, n));
            },
            ExchangeAction::SendCredentials => {
                let c = choose|c: int| #[trigger] connected_at(start, before, c);
                assert(connected_at(start, events, c));
                assert(after is Write ==> introduced_at(start, events, n));
            },
            ExchangeAction::Write => {
                let (c, i) = choose|c: int, i: int|
                    c < i && #[trigger] connected_at(start, before, c) && #[trigger] introduced_at(
                        start,
                        before,
                        i,
                    );
                assert(connected_at(start, events, c) && introduced_at(start, events, i));
                assert(after is ReadSize ==> written_at(start, events, n));
            },
            ExchangeAction::ReadBody(_) => {
                let (c, i, w) = choose|c: int, i: int, w: int|
                    c < i < w && #[trigger] connected_at(start, before, c)
                        && #[trigger] introduced_at(start, before, i) && #[trigger] written_at(
                        start,
                        before,
                        w,
                    );
                assert(connected_at(start, events, c) && introduced_at(start, events, i));
                assert(written_at(start, events, w));
                if after is Finish && after->Finish_0 is Ok {
                    assert(granted_at(start, events, n));
                }
            },
            _ => {},
        }
    }
}

/// The request, and the passphrase in it, is written only to a socket that was
/// connected and on which the credentials were sent after that.
pub proof fn law_credentials_before_request(passphrase: Seq<u8>, events: Seq<ExchangeEvent>)
    requires
        exchange_run(exchange_start(passphrase), events).action is Write,
    ensures
        introduced(exchange_start(passphrase), events),
{
    lemma_exchange_inv(exchange_start(passphrase), events);
}

/// The keyring counts as unlocked only where the socket was connected, the
/// credentials went out after that, the request after those, and the daemon
/// replied to it with the code for success.
pub proof fn law_success_is_the_daemons(passphrase: Seq<u8>, events: Seq<ExchangeEvent>)
    requires
        exchange_run(exchange_start(passphrase), events).action == ExchangeAction::Finish(Ok(())),
    ensures
        granted(exchange_start(passphrase), events),
{
    lemma_exchange_inv(exchange_start(passphrase), events);
}

/// Whatever happens on the socket, what is written to it is the request for the
/// passphrase that the exchange was started with.
pub proof fn law_request_is_kept(passphrase: Seq<u8>, events: Seq<ExchangeEvent>)
    ensures
        exchange_run(exchange_start(passphrase), events).request == unlock_request_bytes(
            passphrase,
        ),
{
    lemma_exchange_inv(exchange_start(passphrase), events);
}

/// A remainder of a reply is asked for only where it has room for the result
/// code.
pub proof fn law_body_holds_code(passphrase: Seq<u8>, events: Seq<ExchangeEvent>)
    ensures
        exchange_run(exchange_start(passphrase), events).action matches ExchangeAction::ReadBody(n)
            ==> n >= 4,
{
    lemma_exchange_inv(exchange_start(passphrase), events);
}

/// A finished exchange stays as it is.
pub proof fn law_finish_is_final(state: ExchangeView, event: ExchangeEvent)
    requires
        state.action is Finish,
    ensures
        exchange_next(state, event) == state,
{
}

/// What an attempt comes to, in one piece, from how each of its steps went: the
/// first step that fails decides; where none does, the daemon's code.
pub open spec fn outcome(
    connect: Result<(), String>,
    sent: isize,
    send_error: String,
    write: Result<(), String>,
    size: Result<[u8; 4], String>,
    body: Result<Vec<u8>, String>,
) -> Result<(), UnlockError> {
    if let Err(e) = connect {
        Err(UnlockError::Connect(e))
    } else if sent < 0 {
        Err(UnlockError::Credentials(send_error))
    } else if let Err(e) = write {
        Err(UnlockError::Write(e))
    } else if let Err(e) = size {
        Err(UnlockError::ReadSize(e))
    } else if be_value(size->Ok_0@) < 8 {
        Err(UnlockError::TooShort(be_value(size->Ok_0@) as u32))
    } else if let Err(e) = body {
        Err(UnlockError::ReadBody(e))
    } else {
        verdict(be_value(body->Ok_0@))
    }
}

/// Carried through, an exchange comes to its outcome.
#[verifier::spinoff_prover]
pub proof fn law_exchange_comes_to_outcome(
    passphrase: Seq<u8>,
    connect: Result<(), String>,
    sent: isize,
    send_error: String,
    write: Result<(), String>,
    size: Result<[u8; 4], String>,
    body: Result<Vec<u8>, String>,
)
    requires
        size is Ok && be_value(size->Ok_0@) >= 8 && body is Ok ==> body->Ok_0@.len() == be_value(
            size->Ok_0@,
        ) - 4,
    ensures
        exchange_run(
            exchange_start(passphrase),
            seq![
                ExchangeEvent::Connected(connect),
                ExchangeEvent::CredentialsSent(sent, send_error),
                ExchangeEvent::Written(write),
                ExchangeEvent::SizeRead(size),
                ExchangeEvent::BodyRead(body),
            ],
        ).action == ExchangeAction::Finish(
            outcome(connect, sent, send_error, write, size, body),
        ),
{
    let events = seq![
        ExchangeEvent::Connected(connect),
        ExchangeEvent::CredentialsSent(sent, send_error),
        ExchangeEvent::Written(write),
        ExchangeEvent::SizeRead(size),
        ExchangeEvent::BodyRead(body),
    ];
    let start = exchange_start(passphrase);
    assert(events.drop_last() =~= events.take(4));
    assert(events.take(4).drop_last() =~= events.take(3));
    assert(events.take(3).drop_last() =~= events.take(2));
    assert(events.take(2).drop_last() =~= events.take(1));
    assert(events.take(1).drop_last() =~= Seq::<ExchangeEvent>::empty());
    assert(events.take(4).last() == events[3]);
    assert(events.take(3).last() == events[2]);
    assert(events.take(2).last() == events[1]);
    assert(events.take(1).last() == events[0]);
    let s1 = exchange_next(start, events[0]);
    let s2 = exchange_next(s1, events[1]);
    let s3 = exchange_next(s2, events[2]);
    let s4 = exchange_next(s3, events[3]);
    assert(exchange_run(start, Seq::<ExchangeEvent>::empty()) == start);
    assert(exchange_run(start, events.take(1)) == s1);
    assert(exchange_run(start, events.take(2)) == s2);
    assert(exchange_run(start, events.take(3)) == s3);
    assert(exchange_run(start, events.take(4)) == s4);
    assert(exchange_run(start, events) == exchange_next(s4, events[4]));
}

/// Each step that goes well leads to the next, whatever the request holds: the
/// credentials follow the connection, the request the credentials, the length of
/// the reply the request, and as many bytes as are left of the reply its length.
/// Each that goes wrong ends the attempt with its own error.
pub proof fn law_steps_of_an_exchange(
    state: ExchangeView,
    e: String,
    sent: isize,
    word: [u8; 4],
    body: Vec<u8>,
)
    ensures
        state.action is Connect ==> {
            &&& exchange_next(state, ExchangeEvent::Connected(Ok(()))).action is SendCredentials
            &&& exchange_next(state, ExchangeEvent::Connected(Err(e))).action
                == ExchangeAction::Finish(Err(UnlockError::Connect(e)))
        },
        state.action is SendCredentials ==> exchange_next(
            state,
            ExchangeEvent::CredentialsSent(sent, e),
        ).action == (if sent < 0 {
            ExchangeAction::Finish(Err(UnlockError::Credentials(e)))
        } else {
            ExchangeAction::Write
        }),
        state.action is Write ==> {
            &&& exchange_next(state, ExchangeEvent::Written(Ok(()))).action is ReadSize
            &&& exchange_next(state, ExchangeEvent::Written(Err(e))).action
                == ExchangeAction::Finish(Err(UnlockError::Write(e)))
        },
        state.action is ReadSize ==> {
            let n = word@[0] * 0x100_0000 + word@[1] * 0x1_0000 + word@[2] * 0x100 + word@[3];
            &&& exchange_next(state, ExchangeEvent::SizeRead(Ok(word))).action == (if n < 8 {
                ExchangeAction::Finish(Err(UnlockError::TooShort(n as u32)))
            } else {
                ExchangeAction::ReadBody((n - 4) as u32)
            })
            &&& exchange_next(state, ExchangeEvent::SizeRead(Err(e))).action
                == ExchangeAction::Finish(Err(UnlockError::ReadSize(e)))
        },
        state.action matches ExchangeAction::ReadBody(left) ==> {
            let n = body@[0] * 0x100_0000 + body@[1] * 0x1_0000 + body@[2] * 0x100 + body@[3];
            &&& body@.len() == left && left >= 4 ==> exchange_next(
                state,
                ExchangeEvent::BodyRead(Ok(body)),
            ).action == ExchangeAction::Finish(
                if n == 0 {
                    Ok::<(), UnlockError>(())
                } else if n == 1 {
                    Err(UnlockError::Denied)
                } else if n == 2 {
                    Err(UnlockError::Failed)
                } else if n == 3 {
                    Err(UnlockError::NoDaemon)
                } else {
                    Err(UnlockError::Unknown(n as u32))
                },
            )
            &&& body@.len() != left ==> exchange_next(
                state,
                ExchangeEvent::BodyRead(Ok(body)),
            ) == state
            &&& exchange_next(state, ExchangeEvent::BodyRead(Err(e))).action
                == ExchangeAction::Finish(Err(UnlockError::ReadBody(e)))
        },
{
}

/// Whether the event is an answer to the action.
pub open spec fn answers(action: ExchangeAction, event: ExchangeEvent) -> bool {
    match action {
        ExchangeAction::Connect => event is Connected,
        ExchangeAction::SendCredentials => event is CredentialsSent,
        ExchangeAction::Write => event is Written,
        ExchangeAction::ReadSize => event is SizeRead,
        ExchangeAction::ReadBody(_) => event is BodyRead,
        ExchangeAction::Finish(_) => false,
    }
}

/// An event that is no answer to what was to be done changes nothing, and none
/// changes the request.
pub proof fn law_exchange_takes_answers_only(state: ExchangeView, event: ExchangeEvent)
    ensures
        !answers(state.action, event) ==> exchange_next(state, event) == state,
        exchange_next(state, event).request == state.request,
{
}

/// An exchange starts with connecting, and has for its request the lengths and
/// the passphrase, spelled in bytes.
pub proof fn law_exchange_starts_with_the_request(passphrase: Seq<u8>)
    requires
        passphrase.len() <= 0xffff_fff3,
    ensures
        ({
            let m = exchange_start(passphrase).request;
            &&& exchange_start(passphrase).action is Connect
            &&& m.len() == 12 + passphrase.len()
            &&& m[0] * 0x100_0000 + m[1] * 0x1_0000 + m[2] * 0x100 + m[3] == 12 + passphrase.len()
            &&& m[4] * 0x100_0000 + m[5] * 0x1_0000 + m[6] * 0x100 + m[7] == 1
            &&& m[8] * 0x100_0000 + m[9] * 0x1_0000 + m[10] * 0x100 + m[11] == passphrase.len()
            &&& m.skip(12) == passphrase
        }),
{
    law_request_spells_its_lengths(passphrase);
}

} // verus!
