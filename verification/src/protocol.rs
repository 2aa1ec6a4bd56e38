//! The messages of the keyring daemon's control socket.
//!
//! All numbers are 32 bits wide and big-endian. A request to unlock is its own
//! length, the operation, the length of the passphrase, and the passphrase
//! without a terminator. The daemon replies with the length of its reply and a
//! result code.

use vstd::prelude::*;

use crate::bytes::{be_value, be_word, push_be_word, read_be_word};
use crate::decimal::{decimal, push_decimal};

verus! {

/// The operation that unlocks the login keyring.
pub const OP_UNLOCK: u32 = 1;

/// The longest passphrase whose request has a length that 32 bits can hold.
pub const MAX_PASSPHRASE: u32 = 0xffff_fff3;

/// The request to unlock the keyring with `passphrase`.
pub open spec fn unlock_request_bytes(passphrase: Seq<u8>) -> Seq<u8> {
    be_word((12 + passphrase.len()) as u32) + be_word(OP_UNLOCK) + be_word(passphrase.len() as u32)
        + passphrase
}

/// The passphrase that a receiver finds in a message: there is one where the
/// message is a complete request to unlock.
pub open spec fn requested_passphrase(message: Seq<u8>) -> Option<Seq<u8>> {
    if message.len() >= 12 && be_value(message) == message.len() && be_value(message.skip(4))
        == OP_UNLOCK && be_value(message.skip(8)) == message.len() - 12 {
        Some(message.skip(12))
    } else {
        None
    }
}

/// Builds the request to unlock the keyring with `passphrase`.
pub fn unlock_request(passphrase: &[u8]) -> (message: Vec<u8>)
    requires
        passphrase@.len() <= MAX_PASSPHRASE,
    ensures
        message@ == unlock_request_bytes(passphrase@),
        message@.len() == 12 + passphrase@.len(),
        message@[0] * 0x100_0000 + message@[1] * 0x1_0000 + message@[2] * 0x100 + message@[3] == 12
            + passphrase@.len(),
        message@[4] * 0x100_0000 + message@[5] * 0x1_0000 + message@[6] * 0x100 + message@[7] == 1,
        message@[8] * 0x100_0000 + message@[9] * 0x1_0000 + message@[10] * 0x100 + message@[11]
            == passphrase@.len(),
        message@.skip(12) == passphrase@,
{
    proof {
        law_request_spells_its_lengths(passphrase@);
    }
    let n: u32 = passphrase.len() as u32;
    let mut message: Vec<u8> = Vec::new();
    push_be_word(&mut message, 12 + n);
    push_be_word(&mut message, OP_UNLOCK);
    push_be_word(&mut message, n);
    message.extend_from_slice(passphrase);
    message
}

/// The bytes of a request spell what it is, in base 256 and most significant
/// first: the first four its whole length, the next four the number one, which
/// asks the daemon to unlock, the next four the length of the passphrase. The
/// passphrase follows, as it is, and nothing follows that.
pub proof fn law_request_spells_its_lengths(passphrase: Seq<u8>)
    requires
        passphrase.len() <= 0xffff_fff3,
    ensures
        ({
            let m = unlock_request_bytes(passphrase);
            &&& m.len() == 12 + passphrase.len()
            &&& m[0] * 0x100_0000 + m[1] * 0x1_0000 + m[2] * 0x100 + m[3] == 12 + passphrase.len()
            &&& m[4] * 0x100_0000 + m[5] * 0x1_0000 + m[6] * 0x100 + m[7] == 1
            &&& m[8] * 0x100_0000 + m[9] * 0x1_0000 + m[10] * 0x100 + m[11] == passphrase.len()
            &&& m.skip(12) == passphrase
        }),
{
    let m = unlock_request_bytes(passphrase);
    let total = be_word((12 + passphrase.len()) as u32);
    let op = be_word(OP_UNLOCK);
    let n = be_word(passphrase.len() as u32);
    crate::bytes::law_word_is_spelled_by_its_bytes((12 + passphrase.len()) as u32);
    crate::bytes::law_word_is_spelled_by_its_bytes(OP_UNLOCK);
    crate::bytes::law_word_is_spelled_by_its_bytes(passphrase.len() as u32);
    assert(m[0] == total[0] && m[1] == total[1] && m[2] == total[2] && m[3] == total[3]);
    assert(m[4] == op[0] && m[5] == op[1] && m[6] == op[2] && m[7] == op[3]);
    assert(m[8] == n[0] && m[9] == n[1] && m[10] == n[2] && m[11] == n[3]);
    assert(m.skip(12) =~= passphrase);
}

/// A passphrase may be as long as leaves room for its request: its length and
/// the twelve bytes in front of it fill the 32 bits of the request's length.
pub proof fn law_longest_passphrase_fills_the_length()
    ensures
        12 + MAX_PASSPHRASE == u32::MAX,
{
}

/// What a request says of itself holds: it is as long as its first word says,
/// its second word is the operation, its third the length of the passphrase,
/// and what follows is the passphrase.
pub proof fn law_request_layout(passphrase: Seq<u8>)
    requires
        passphrase.len() <= MAX_PASSPHRASE,
    ensures
        unlock_request_bytes(passphrase).len() == 12 + passphrase.len(),
        be_value(unlock_request_bytes(passphrase)) == 12 + passphrase.len(),
        be_value(unlock_request_bytes(passphrase).skip(4)) == OP_UNLOCK,
        be_value(unlock_request_bytes(passphrase).skip(8)) == passphrase.len(),
        unlock_request_bytes(passphrase).skip(12) == passphrase,
{
    let m = unlock_request_bytes(passphrase);
    let total = be_word((12 + passphrase.len()) as u32);
    let op = be_word(OP_UNLOCK);
    let n = be_word(passphrase.len() as u32);
    crate::bytes::law_be_word_round_trip((12 + passphrase.len()) as u32);
    crate::bytes::law_be_word_round_trip(OP_UNLOCK);
    crate::bytes::law_be_word_round_trip(passphrase.len() as u32);
    assert(m.take(4) =~= total);
    assert(be_value(m) == be_value(m.take(4)));
    assert(m.skip(4).take(4) =~= op);
    assert(be_value(m.skip(4)) == be_value(m.skip(4).take(4)));
    assert(m.skip(8).take(4) =~= n);
    assert(be_value(m.skip(8)) == be_value(m.skip(8).take(4)));
    assert(m.skip(12) =~= passphrase);
}

/// The daemon finds in the request the passphrase that was put there.
pub proof fn law_request_round_trip(passphrase: Seq<u8>)
    requires
        passphrase.len() <= MAX_PASSPHRASE,
    ensures
        requested_passphrase(unlock_request_bytes(passphrase)) == Some(passphrase),
{
    law_request_layout(passphrase);
}

/// Two passphrases never have the same request.
pub proof fn law_request_is_injective(a: Seq<u8>, b: Seq<u8>)
    requires
        a.len() <= MAX_PASSPHRASE,
        b.len() <= MAX_PASSPHRASE,
        unlock_request_bytes(a) == unlock_request_bytes(b),
    ensures
        a == b,
{
    law_request_round_trip(a);
    law_request_round_trip(b);
}

/// A message that holds a passphrase is the request for that passphrase.
pub proof fn law_only_requests_hold_passphrases(message: Seq<u8>)
    requires
        requested_passphrase(message) is Some,
    ensures
        message == unlock_request_bytes(requested_passphrase(message)->0),
{
    let p = message.skip(12);
    let w0 = message.take(4);
    let w1 = message.skip(4).take(4);
    let w2 = message.skip(8).take(4);
    assert(be_value(w0) == be_value(message));
    assert(be_value(w1) == be_value(message.skip(4)));
    assert(be_value(w2) == be_value(message.skip(8)));
    crate::bytes::law_be_value_round_trip(w0);
    crate::bytes::law_be_value_round_trip(w1);
    crate::bytes::law_be_value_round_trip(w2);
    assert(message =~= w0 + w1 + w2 + p);
}

/// Why an attempt to unlock the keyring came to nothing. The texts are those of
/// the operating system.
#[derive(Debug)]
pub enum UnlockError {
    /// The socket could not be connected to.
    Connect(String),
    /// The credentials could not be sent.
    Credentials(String),
    /// The request could not be written.
    Write(String),
    /// The length of the reply could not be read.
    ReadSize(String),
    /// The reply says that it is too short to hold a result code.
    TooShort(u32),
    /// The reply could not be read.
    ReadBody(String),
    /// The daemon denied the request.
    Denied,
    /// The daemon failed to carry the request out.
    Failed,
    /// There is no daemon to carry the request out.
    NoDaemon,
    /// The daemon replied with a code that has no meaning.
    Unknown(u32),
}

/// What a result code says.
pub open spec fn verdict(code: int) -> Result<(), UnlockError> {
    if code == 0 {
        Ok(())
    } else if code == 1 {
        Err(UnlockError::Denied)
    } else if code == 2 {
        Err(UnlockError::Failed)
    } else if code == 3 {
        Err(UnlockError::NoDaemon)
    } else {
        Err(UnlockError::Unknown(code as u32))
    }
}

/// Zero is the one code for success. One, two and three have a meaning each,
/// and any other code is reported as it is.
pub proof fn law_result_codes(code: u32)
    ensures
        match verdict(code as int) {
            Ok(()) => code == 0,
            Err(UnlockError::Denied) => code == 1,
            Err(UnlockError::Failed) => code == 2,
            Err(UnlockError::NoDaemon) => code == 3,
            Err(UnlockError::Unknown(n)) => code > 3 && n == code,
            Err(_) => false,
        },
{
}

/// Reads the length of a reply. A reply holds its length and a result code, so
/// that its length is eight at least.
pub fn reply_size(word: &[u8]) -> (r: Result<u32, UnlockError>)
    requires
        word@.len() >= 4,
    ensures
        r == (if be_value(word@) < 8 {
            Err::<u32, UnlockError>(UnlockError::TooShort(be_value(word@) as u32))
        } else {
            Ok::<u32, UnlockError>(be_value(word@) as u32)
        }),
        ({
            let n = word@[0] * 0x100_0000 + word@[1] * 0x1_0000 + word@[2] * 0x100 + word@[3];
            match r {
                Ok(size) => n >= 8 && size == n,
                Err(UnlockError::TooShort(size)) => n < 8 && size == n,
                Err(_) => false,
            }
        }),
{
    let n: u32 = read_be_word(word);
    if n < 8 {
        Err(UnlockError::TooShort(n))
    } else {
        Ok(n)
    }
}

/// Reads the result code at the start of what follows a reply's length.
pub fn reply_verdict(body: &[u8]) -> (r: Result<(), UnlockError>)
    requires
        body@.len() >= 4,
    ensures
        r == verdict(be_value(body@)),
        ({
            let n = body@[0] * 0x100_0000 + body@[1] * 0x1_0000 + body@[2] * 0x100 + body@[3];
            match r {
                Ok(()) => n == 0,
                Err(UnlockError::Denied) => n == 1,
                Err(UnlockError::Failed) => n == 2,
                Err(UnlockError::NoDaemon) => n == 3,
                Err(UnlockError::Unknown(code)) => n > 3 && code == n,
                Err(_) => false,
            }
        }),
{
    match read_be_word(body) {
        0 => Ok(()),
        1 => Err(UnlockError::Denied),
        2 => Err(UnlockError::Failed),
        3 => Err(UnlockError::NoDaemon),
        n => Err(UnlockError::Unknown(n)),
    }
}

impl UnlockError {
    /// The error in words.
    pub open spec fn text(self) -> Seq<char> {
        match self {
            UnlockError::Connect(e) => "connect: "@ + e@,
            UnlockError::Credentials(e) => "sendmsg: "@ + e@,
            UnlockError::Write(e) => "write: "@ + e@,
            UnlockError::ReadSize(e) => "read size: "@ + e@,
            UnlockError::TooShort(n) => "response too short ("@ + decimal(n as nat) + " bytes)"@,
            UnlockError::ReadBody(e) => "read body: "@ + e@,
            UnlockError::Denied => "daemon returned DENIED (wrong passphrase?)"@,
            UnlockError::Failed => "daemon returned FAILED"@,
            UnlockError::NoDaemon => "daemon returned NO_DAEMON"@,
            UnlockError::Unknown(n) => "daemon returned unknown result code "@ + decimal(n as nat),
        }
    }

    /// Puts the error into words.
    pub fn message(&self) -> (m: String)
        ensures
            m@ == self.text(),
    {
        let mut m: String = String::new();
        match self {
            UnlockError::Connect(e) => {
                m.append("connect: ");
                m.append(e.as_str());
            },
            UnlockError::Credentials(e) => {
                m.append("sendmsg: ");
                m.append(e.as_str());
            },
            UnlockError::Write(e) => {
                m.append("write: ");
                m.append(e.as_str());
            },
            UnlockError::ReadSize(e) => {
                m.append("read size: ");
                m.append(e.as_str());
            },
            UnlockError::TooShort(n) => {
                m.append("response too short (");
                push_decimal(&mut m, *n as u64);
                m.append(" bytes)");
            },
            UnlockError::ReadBody(e) => {
                m.append("read body: ");
                m.append(e.as_str());
            },
            UnlockError::Denied => {
                m.append("daemon returned DENIED (wrong passphrase?)");
            },
            UnlockError::Failed => {
                m.append("daemon returned FAILED");
            },
            UnlockError::NoDaemon => {
                m.append("daemon returned NO_DAEMON");
            },
            UnlockError::Unknown(n) => {
                m.append("daemon returned unknown result code ");
                push_decimal(&mut m, *n as u64);
            },
        }
        assert(m@ =~= self.text());
        m
    }
}

/// An error in words names the step that failed and then, whole, the text of
/// the operating system or the number that the daemon sent.
pub proof fn law_errors_in_words(e: String, n: u32)
    ensures
        UnlockError::Connect(e).text() == "connect: "@ + e@,
        UnlockError::Credentials(e).text() == "sendmsg: "@ + e@,
        UnlockError::Write(e).text() == "write: "@ + e@,
        UnlockError::ReadSize(e).text() == "read size: "@ + e@,
        UnlockError::ReadBody(e).text() == "read body: "@ + e@,
        UnlockError::TooShort(n).text() == "response too short ("@ + decimal(n as nat)
            + " bytes)"@,
        UnlockError::Unknown(n).text() == "daemon returned unknown result code "@ + decimal(
            n as nat,
        ),
        UnlockError::Denied.text() == "daemon returned DENIED (wrong passphrase?)"@,
        UnlockError::Failed.text() == "daemon returned FAILED"@,
        UnlockError::NoDaemon.text() == "daemon returned NO_DAEMON"@,
{
}

} // verus!
