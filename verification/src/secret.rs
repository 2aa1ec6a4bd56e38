//! The secret that the TPM protects: the command that decrypts it, and what
//! the command's output is worth.

use vstd::prelude::*;

use crate::bytes::{lacks, occurs, strip_newline, wipe, without_newline, zeros};
use crate::decimal::{decimal, push_decimal, push_signed_decimal, signed_decimal};
use crate::syslog::{joined, logged, quiet, Level, Line, Messages, Sink};

verus! {

/// The shell script that decrypts a user's secret. It exits with 1 where the
/// user has enrolled none.
pub const DECRYPT_SCRIPT: &'static str = "f=\"$HOME/.config/gnome-keyring-unlock/secret.jwe\"; [ -f \"$f\" ] || exit 1; clevis decrypt < \"$f\" 2>/dev/null";

/// The program and arguments that decrypt the secret of `username`, as that
/// user.
pub open spec fn decrypt_argv(username: Seq<char>) -> Seq<Seq<char>> {
    seq![
        "runuser"@,
        "-u"@,
        username,
        "--"@,
        "sh"@,
        "-c"@,
        DECRYPT_SCRIPT@,
    ]
}

/// The texts of a list of strings.
pub open spec fn texts(list: Seq<String>) -> Seq<Seq<char>> {
    list.map_values(|s: String| s@)
}

/// Builds the command that decrypts the secret of `username`. The name is an
/// argument of its own; the script that the shell runs does not depend on it.
pub fn decrypt_command(username: &str) -> (argv: Vec<String>)
    ensures
        texts(argv@) == decrypt_argv(username@),
        argv@.len() == 7,
        argv@[0]@ == "runuser"@,
        argv@[1]@ == "-u"@,
        argv@[2]@ == username@,
        argv@[3]@ == "--"@,
        argv@[4]@ == "sh"@,
        argv@[5]@ == "-c"@,
        argv@[6]@
            == "f=\"$HOME/.config/gnome-keyring-unlock/secret.jwe\"; [ -f \"$f\" ] || exit 1; clevis decrypt < \"$f\" 2>/dev/null"@,
{
    let mut argv: Vec<String> = Vec::new();
    argv.push("runuser".to_owned());
    argv.push("-u".to_owned());
    argv.push(username.to_owned());
    argv.push("--".to_owned());
    argv.push("sh".to_owned());
    argv.push("-c".to_owned());
    argv.push(DECRYPT_SCRIPT.to_owned());
    assert(texts(argv@) =~= decrypt_argv(username@));
    argv
}

/// What a command came back with.
pub struct CommandOutput {
    /// Whether it exited with success.
    pub success: bool,
    /// Its exit code, where it exited.
    pub code: Option<i32>,
    /// What it wrote to its standard output.
    pub stdout: Vec<u8>,
}

/// Why there is no secret.
#[derive(Clone, Copy, Debug, PartialEq, Eq, Structural)]
pub enum SecretError {
    /// The command could not be run.
    NotRun,
    /// The command failed, with this exit code, or -1 where it has none.
    Failed(i32),
    /// The command wrote nothing.
    Empty,
    /// The secret holds a zero byte.
    ZeroByte,
}

/// The secret that the decrypting command gave: all it wrote but for one
/// newline at the end. There is none where the command did not run or failed,
/// wrote nothing, or wrote a zero byte.
pub open spec fn secret_of(output: Option<CommandOutput>) -> Result<Seq<u8>, SecretError> {
    match output {
        None => Err(SecretError::NotRun),
        Some(o) => if !o.success {
            Err(SecretError::Failed(match o.code {
                Some(c) => c,
                None => (-1) as i32,
            }))
        } else if o.stdout@.len() == 0 {
            Err(SecretError::Empty)
        } else if !lacks(without_newline(o.stdout@), 0) {
            Err(SecretError::ZeroByte)
        } else {
            Ok(without_newline(o.stdout@))
        },
    }
}

/// Whether `after` is the output `before` with everything that the command
/// wrote overwritten or taken away.
pub open spec fn nothing_left(
    before: Option<CommandOutput>,
    after: Option<CommandOutput>,
) -> bool {
    match (before, after) {
        (Some(b), Some(a)) => {
            &&& a.success == b.success
            &&& a.code == b.code
            &&& a.stdout@ == zeros(a.stdout@.len())
        },
        (None, None) => true,
        _ => false,
    }
}

/// Takes the secret from the output of the decrypting command. What the command
/// wrote does not stay behind in the output: an accepted secret is moved out of
/// it, and anything else is overwritten.
pub fn decrypt_tpm_secret(output: &mut Option<CommandOutput>) -> (r: Result<Vec<u8>, SecretError>)
    ensures
        match r {
            Ok(secret) => secret_of(*old(output)) == Ok::<Seq<u8>, SecretError>(secret@),
            Err(e) => secret_of(*old(output)) == Err::<Seq<u8>, SecretError>(e),
        },
        nothing_left(*old(output), *final(output)),
        r is Ok ==> (*final(output))->0.stdout@.len() == 0,
        *final(output) matches Some(left) ==> forall|i: int|
            0 <= i < left.stdout@.len() ==> left.stdout@[i] == 0,
{
    match output {
        None => Err(SecretError::NotRun),
        Some(o) => {
            if !o.success {
                wipe(&mut o.stdout);
                return Err(SecretError::Failed(o.code.unwrap_or(-1)));
            }
            if o.stdout.len() == 0 {
                assert(o.stdout@ =~= zeros(0));
                return Err(SecretError::Empty);
            }
            strip_newline(&mut o.stdout);
            if occurs(o.stdout.as_slice(), 0) {
                wipe(&mut o.stdout);
                return Err(SecretError::ZeroByte);
            }
            let mut secret: Vec<u8> = Vec::new();
            std::mem::swap(&mut secret, &mut o.stdout);
            assert(o.stdout@ =~= zeros(0));
            Ok(secret)
        },
    }
}

/// What is logged before a user's secret is decrypted.
pub open spec fn decrypting_line(username: Seq<char>) -> Line {
    logged(Level::Debug, "decrypting secret for '"@ + username + "' via clevis"@)
}

/// Logs that a user's secret is about to be decrypted.
pub fn log_decrypting(messages: &mut Messages, username: &str)
    ensures
        final(messages)@ == old(messages)@.push(decrypting_line(username@)),
{
    messages.log(Level::Debug, joined("decrypting secret for '", username, "' via clevis"));
}

/// What is logged of how decrypting a user's secret went: of a secret, its
/// length; of none, why there is none. A command that failed is nothing to
/// worry about, since it fails for every user who has not enrolled.
pub open spec fn decrypted_lines(
    result: Result<Seq<u8>, SecretError>,
    username: Seq<char>,
) -> Seq<Line> {
    match result {
        Ok(secret) => seq![
            logged(
                Level::Debug,
                "decrypted "@ + decimal(secret.len()) + " bytes for '"@ + username + "'"@,
            ),
        ],
        Err(SecretError::NotRun) => seq![],
        Err(SecretError::Failed(code)) => seq![
            logged(Level::Debug, "clevis runuser exited "@ + signed_decimal(code as int)),
        ],
        Err(SecretError::Empty) => seq![
            logged(Level::Warning, "clevis produced empty output for '"@ + username + "'"@),
        ],
        Err(SecretError::ZeroByte) => seq![
            logged(Level::Error, "decrypted secret contains null bytes — refusing"@),
        ],
    }
}

/// What was made of the output, as a specification sees it.
pub open spec fn result_view(result: Result<Vec<u8>, SecretError>) -> Result<
    Seq<u8>,
    SecretError,
> {
    match result {
        Ok(secret) => Ok(secret@),
        Err(e) => Err(e),
    }
}

/// Logs how decrypting a user's secret went.
pub fn log_decrypted(
    messages: &mut Messages,
    result: &Result<Vec<u8>, SecretError>,
    username: &str,
)
    ensures
        final(messages)@ == old(messages)@ + decrypted_lines(result_view(*result), username@),
{
    match result {
        Ok(secret) => {
            let mut text: String = String::new();
            text.append("decrypted ");
            push_decimal(&mut text, secret.len() as u64);
            text.append(" bytes for '");
            text.append(username);
            text.append("'");
            assert(text@ =~= "decrypted "@ + decimal(secret@.len()) + " bytes for '"@ + username@
                + "'"@);
            messages.log(Level::Debug, text);
        },
        Err(SecretError::NotRun) => {},
        Err(SecretError::Failed(code)) => {
            let mut text: String = "clevis runuser exited ".to_owned();
            push_signed_decimal(&mut text, *code);
            messages.log(Level::Debug, text);
        },
        Err(SecretError::Empty) => {
            messages.log(
                Level::Warning,
                joined("clevis produced empty output for '", username, "'"),
            );
        },
        Err(SecretError::ZeroByte) => {
            messages.log(
                Level::Error,
                "decrypted secret contains null bytes — refusing".to_owned(),
            );
        },
    }
    assert(messages@ =~= old(messages)@ + decrypted_lines(result_view(*result), username@));
}

/// What is logged of a decryption shows the user's name, the exit code and the
/// length of the secret, and nothing else: two outputs that agree on why there
/// is no secret, or on how long it is, leave the same messages.
pub proof fn law_decryption_log_hides_the_secret(
    a: Option<CommandOutput>,
    b: Option<CommandOutput>,
    username: Seq<char>,
)
    requires
        match (secret_of(a), secret_of(b)) {
            (Ok(s), Ok(t)) => s.len() == t.len(),
            (Err(e), Err(f)) => e == f,
            _ => false,
        },
    ensures
        decrypted_lines(secret_of(a), username) == decrypted_lines(secret_of(b), username),
{
}

/// A command that fails, as it does for a user who has not enrolled, leaves
/// nothing in the log but what helps to find faults.
pub proof fn law_failed_command_is_quiet(output: CommandOutput, username: Seq<char>)
    requires
        !output.success,
    ensures
        decrypting_line(username).sink == Sink::Log(Level::Debug),
        quiet(decrypted_lines(secret_of(Some(output)), username)),
{
}

/// An accepted secret holds no zero byte, so that it can be handed on as a C
/// string whole.
pub proof fn law_secret_has_no_zero_byte(output: Option<CommandOutput>)
    ensures
        secret_of(output) matches Ok(secret) ==> lacks(secret, 0),
{
}

/// Nothing is accepted from a command that failed.
pub proof fn law_failed_command_gives_no_secret(output: CommandOutput)
    requires
        !output.success,
    ensures
        secret_of(Some(output)) is Err,
{
}

/// The newline that a command may write behind the secret makes no difference.
pub proof fn law_final_newline_is_dropped(plain: CommandOutput, newline: CommandOutput)
    requires
        plain.success,
        newline.success,
        plain.stdout@.len() > 0,
        plain.stdout@.last() != 10,
        newline.stdout@ == plain.stdout@.push(10),
    ensures
        secret_of(Some(newline)) == secret_of(Some(plain)),
{
    assert(newline.stdout@.drop_last() =~= plain.stdout@);
}

/// A command that succeeded gives what it wrote for the secret, of any length
/// and with any bytes but zero: whole, or without the newline behind it.
pub proof fn law_secret_is_what_was_written(plain: Seq<u8>, output: CommandOutput)
    requires
        output.success,
        !plain.contains(0),
        output.stdout@ == plain.push(10) || (output.stdout@ == plain && plain.len() > 0
            && plain.last() != 10),
    ensures
        secret_of(Some(output)) == Ok::<Seq<u8>, SecretError>(plain),
{
    assert(plain.push(10).drop_last() =~= plain);
    assert forall|i: int| 0 <= i < plain.len() implies plain[i] != 0 by {
        assert(plain.contains(plain[i]));
    }
}

/// There is no secret for four reasons, and each is told apart: the command did
/// not run, it failed, it wrote nothing, or it wrote a zero byte.
pub proof fn law_reasons_for_no_secret(output: CommandOutput)
    ensures
        secret_of(None) == Err::<Seq<u8>, SecretError>(SecretError::NotRun),
        !output.success && output.code is Some ==> secret_of(Some(output)) == Err::<
            Seq<u8>,
            SecretError,
        >(SecretError::Failed(output.code->0)),
        !output.success && output.code is None ==> secret_of(Some(output)) == Err::<
            Seq<u8>,
            SecretError,
        >(SecretError::Failed(-1i32)),
        output.success && output.stdout@.len() == 0 ==> secret_of(Some(output)) == Err::<
            Seq<u8>,
            SecretError,
        >(SecretError::Empty),
        output.success && output.stdout@.contains(0) ==> secret_of(Some(output)) == Err::<
            Seq<u8>,
            SecretError,
        >(SecretError::ZeroByte),
{
    let written = output.stdout@;
    if written.contains(0) {
        let i = choose|i: int| 0 <= i < written.len() && written[i] == 0;
        assert(without_newline(written)[i] == 0);
    }
}

/// What is logged of a decryption, message by message.
pub proof fn law_decryption_messages(secret: Seq<u8>, code: i32, username: Seq<char>)
    ensures
        decrypting_line(username) == (Line {
            sink: Sink::Log(Level::Debug),
            text: "decrypting secret for '"@ + username + "' via clevis"@,
        }),
        decrypted_lines(Ok(secret), username) == seq![
            Line {
                sink: Sink::Log(Level::Debug),
                text: "decrypted "@ + decimal(secret.len()) + " bytes for '"@ + username + "'"@,
            },
        ],
        decrypted_lines(Err(SecretError::NotRun), username).len() == 0,
        decrypted_lines(Err(SecretError::Failed(code)), username) == seq![
            Line {
                sink: Sink::Log(Level::Debug),
                text: "clevis runuser exited "@ + signed_decimal(code as int),
            },
        ],
        decrypted_lines(Err(SecretError::Empty), username) == seq![
            Line {
                sink: Sink::Log(Level::Warning),
                text: "clevis produced empty output for '"@ + username + "'"@,
            },
        ],
        decrypted_lines(Err(SecretError::ZeroByte), username) == seq![
            Line {
                sink: Sink::Log(Level::Error),
                text: "decrypted secret contains null bytes — refusing"@,
            },
        ],
{
}

} // verus!
