//! What is logged: messages and how grave they are, and the records that the
//! system log gets for them.

use vstd::prelude::*;
use vstd::utf8::*;

use crate::bytes::{c_string, lacks, occurs};

verus! {

/// The facility for authentication.
pub const LOG_AUTH: i32 = 32;

/// What the PAM module's records are identified by in the log.
pub const MODULE_IDENT: &'static str = "pam_tpm_gnome_keyring";

/// What the helper's records are identified by in the log.
pub const HELPER_IDENT: &'static str = "gkd-unlock";

/// The tag that the texts of the PAM module's records start with.
pub const MODULE_TAG: &'static str = "pam_tpm_gnome_keyring: ";

/// The tag that the texts of the helper's records start with.
pub const HELPER_TAG: &'static str = "gkd-unlock: ";

/// How grave a message is.
#[derive(Clone, Copy, Debug, PartialEq, Eq, Structural)]
pub enum Level {
    /// An error.
    Error,
    /// A warning.
    Warning,
    /// Something of interest.
    Info,
    /// Something of interest for finding faults.
    Debug,
}

impl Level {
    /// The number of the level.
    pub open spec fn number(self) -> i32 {
        match self {
            Level::Error => 3i32,
            Level::Warning => 4i32,
            Level::Info => 6i32,
            Level::Debug => 7i32,
        }
    }

    /// The priority of a message of this level: the facility, and the level in
    /// the bits that the facility leaves free.
    pub fn priority(&self) -> (p: i32)
        ensures
            p == LOG_AUTH | self.number(),
            p == LOG_AUTH + self.number(),
            p == (match *self {
                Level::Error => 35i32,
                Level::Warning => 36i32,
                Level::Info => 38i32,
                Level::Debug => 39i32,
            }),
    {
        assert(32i32 | 3i32 == 35i32) by (bit_vector);
        assert(32i32 | 4i32 == 36i32) by (bit_vector);
        assert(32i32 | 6i32 == 38i32) by (bit_vector);
        assert(32i32 | 7i32 == 39i32) by (bit_vector);
        match self {
            Level::Error => LOG_AUTH | 3,
            Level::Warning => LOG_AUTH | 4,
            Level::Info => LOG_AUTH | 6,
            Level::Debug => LOG_AUTH | 7,
        }
    }
}

/// Where a message goes.
#[derive(Clone, Copy, Debug, PartialEq, Eq, Structural)]
pub enum Sink {
    /// To the system log, at this level.
    Log(Level),
    /// To the standard error.
    Stderr,
}

/// A message and where it goes.
#[verifier::ext_equal]
pub struct Line {
    pub sink: Sink,
    pub text: Seq<char>,
}

/// A line for the system log.
pub open spec fn logged(level: Level, text: Seq<char>) -> Line {
    Line { sink: Sink::Log(level), text }
}

/// Whether no line is graver than what helps to find faults.
pub open spec fn quiet(lines: Seq<Line>) -> bool {
    forall|i: int|
        0 <= i < lines.len() ==> (#[trigger] lines[i]).sink == Sink::Log(Level::Debug)
}

/// One message, and where it is to go.
pub struct Message {
    /// Where it is to go.
    pub sink: Sink,
    /// What it says.
    pub text: String,
}

impl View for Message {
    type V = Line;

    open spec fn view(&self) -> Line {
        Line { sink: self.sink, text: self.text@ }
    }
}

/// The messages of a phase so far, in order.
pub struct Messages {
    list: Vec<Message>,
}

impl View for Messages {
    type V = Seq<Line>;

    closed spec fn view(&self) -> Seq<Line> {
        self.list@.map_values(|m: Message| m@)
    }
}

impl Messages {
    /// No messages.
    pub fn new() -> (messages: Messages)
        ensures
            messages@ == Seq::<Line>::empty(),
    {
        let messages = Messages { list: Vec::new() };
        assert(messages@ =~= Seq::<Line>::empty());
        messages
    }

    /// Adds a message.
    pub fn put(&mut self, sink: Sink, text: String)
        ensures
            final(self)@ == old(self)@.push(Line { sink, text: text@ }),
    {
        let ghost before = self@;
        self.list.push(Message { sink, text });
        assert(self@ =~= before.push(Line { sink, text: text@ }));
    }

    /// Adds a message for the system log.
    pub fn log(&mut self, level: Level, text: String)
        ensures
            final(self)@ == old(self)@.push(logged(level, text@)),
    {
        self.put(Sink::Log(level), text);
    }

    /// How many messages there are.
    pub fn len(&self) -> (n: usize)
        ensures
            n == self@.len(),
    {
        self.list.len()
    }

    /// The message at `i`.
    pub fn get(&self, i: usize) -> (message: &Message)
        requires
            i < self@.len(),
        ensures
            message@ == self@[i as int],
    {
        &self.list[i]
    }
}

/// Puts three texts together.
pub fn joined(a: &str, b: &str, c: &str) -> (text: String)
    ensures
        text@ == a@ + b@ + c@,
{
    let mut text: String = String::new();
    text.append(a);
    text.append(b);
    text.append(c);
    assert(text@ =~= a@ + b@ + c@);
    text
}

/// What the system log gets for a message.
pub struct Record {
    /// What the record is identified by, as a C string.
    pub ident: Vec<u8>,
    /// The facility and the level.
    pub priority: i32,
    /// The tagged message, as a C string.
    pub text: Vec<u8>,
}

/// The bytes of a tagged message.
pub open spec fn tagged(tag: Seq<char>, message: Seq<char>) -> Seq<u8> {
    encode_utf8(tag + message)
}

/// Whether a record is one for `text`, at `level`, identified by `ident`.
pub open spec fn is_record(record: Record, ident: Seq<char>, level: Level, text: Seq<u8>) -> bool {
    &&& record.ident@ == encode_utf8(ident).push(0)
    &&& record.priority == LOG_AUTH | level.number()
    &&& record.priority == LOG_AUTH + level.number()
    &&& record.text@ == text.push(0)
}

/// The bytes of a text of ASCII characters other than zero hold no zero.
proof fn lemma_plain_text_lacks_zero(s: Seq<char>)
    requires
        forall|i: int| 0 <= i < s.len() ==> '\0' < #[trigger] s[i] && s[i] <= '\u{7f}',
    ensures
        lacks(encode_utf8(s), 0),
{
    assert(is_ascii_chars(s));
    is_ascii_chars_encode_utf8(s);
    let b = encode_utf8(s);
    assert forall|i: int| 0 <= i < b.len() implies b[i] != 0 by {
        assert(b[i] == s[i] as u8);
    }
}

/// The identifiers are C strings whole: no zero byte cuts one short.
pub proof fn law_identifiers_are_whole()
    ensures
        lacks(encode_utf8(MODULE_IDENT@), 0),
        lacks(encode_utf8(HELPER_IDENT@), 0),
{
    reveal_strlit("pam_tpm_gnome_keyring");
    reveal_strlit("gkd-unlock");
    lemma_plain_text_lacks_zero(MODULE_IDENT@);
    lemma_plain_text_lacks_zero(HELPER_IDENT@);
}

/// A record, byte for byte: the identifier and the tagged text, each ended by a
/// zero byte, and for the priority the number of the authentication facility
/// and that of the level.
pub proof fn law_records_byte_for_byte(record: Record, level: Level, message: Seq<char>)
    ensures
        is_record(record, MODULE_IDENT@, level, tagged(MODULE_TAG@, message)) ==> {
            &&& record.ident@ == encode_utf8("pam_tpm_gnome_keyring"@).push(0)
            &&& record.text@ == encode_utf8("pam_tpm_gnome_keyring: "@ + message).push(0)
        },
        is_record(record, HELPER_IDENT@, level, tagged(HELPER_TAG@, message)) ==> {
            &&& record.ident@ == encode_utf8("gkd-unlock"@).push(0)
            &&& record.text@ == encode_utf8("gkd-unlock: "@ + message).push(0)
        },
        is_record(record, MODULE_IDENT@, level, tagged(MODULE_TAG@, message)) || is_record(
            record,
            HELPER_IDENT@,
            level,
            tagged(HELPER_TAG@, message),
        ) ==> match level {
            Level::Error => record.priority == 35,
            Level::Warning => record.priority == 36,
            Level::Info => record.priority == 38,
            Level::Debug => record.priority == 39,
        },
{
}

/// Builds the record for a message of the PAM module. There is none where a
/// zero byte would cut the text short.
pub fn module_record(level: Level, message: &str) -> (record: Option<Record>)
    ensures
        record is Some <==> lacks(tagged(MODULE_TAG@, message@), 0),
        record is Some <==> !encode_utf8("pam_tpm_gnome_keyring: "@ + message@).contains(0),
        record matches Some(r) ==> is_record(
            r,
            MODULE_IDENT@,
            level,
            tagged(MODULE_TAG@, message@),
        ),
{
    let mut text: String = MODULE_TAG.to_owned();
    text.append(message);
    let bytes: &[u8] = text.as_str().as_bytes();
    if occurs(bytes, 0) {
        return None;
    }
    proof {
        law_identifiers_are_whole();
    }
    Some(
        Record {
            ident: c_string(MODULE_IDENT.as_bytes()),
            priority: level.priority(),
            text: c_string(bytes),
        },
    )
}

/// Builds the record for a message of the helper. The text ends with a zero
/// byte, whether or not it holds another.
pub fn helper_record(level: Level, message: &str) -> (record: Record)
    ensures
        is_record(record, HELPER_IDENT@, level, tagged(HELPER_TAG@, message@)),
{
    let mut text: String = HELPER_TAG.to_owned();
    text.append(message);
    let mut bytes: Vec<u8> = Vec::new();
    bytes.extend_from_slice(text.as_str().as_bytes());
    bytes.push(0);
    assert(bytes@ =~= tagged(HELPER_TAG@, message@).push(0));
    proof {
        law_identifiers_are_whole();
    }
    Record {
        ident: c_string(HELPER_IDENT.as_bytes()),
        priority: level.priority(),
        text: bytes,
    }
}

} // verus!
