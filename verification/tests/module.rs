use pam_tpm_gnome_keyring::auth::{AuthAction, AuthEvent, AuthOutcome, AuthPhase};
use pam_tpm_gnome_keyring::bytes::{c_string, occurs, strip_newline, wipe};
use pam_tpm_gnome_keyring::helper::{Helper, HelperEvent};
use pam_tpm_gnome_keyring::pam::{
    get_username, pam_sm_authenticate, pam_sm_close_session, pam_sm_open_session, pam_sm_setcred,
    UserItem,
};
use pam_tpm_gnome_keyring::protocol::unlock_request;
use pam_tpm_gnome_keyring::secret::{
    decrypt_command, decrypt_tpm_secret, CommandOutput, SecretError,
};
use pam_tpm_gnome_keyring::session::{
    helper_command, SessionAction, SessionEvent, SessionOutcome, SessionPhase,
};
use pam_tpm_gnome_keyring::syslog::{helper_record, module_record, Level, Messages, Sink};

fn alice() -> UserItem {
    UserItem { status: 0, name: Some(b"alice".to_vec()) }
}

fn nobody() -> UserItem {
    UserItem { status: 0, name: None }
}

fn lines(messages: &Messages) -> Vec<(Sink, String)> {
    (0..messages.len())
        .map(|i| {
            let message = messages.get(i);
            (message.sink, message.text.clone())
        })
        .collect()
}

fn line(level: Level, text: &str) -> (Sink, String) {
    (Sink::Log(level), String::from(text))
}

fn failed(code: Option<i32>) -> Option<CommandOutput> {
    Some(CommandOutput { success: false, code, stdout: b"pw".to_vec() })
}

fn wrote(stdout: &[u8]) -> Option<CommandOutput> {
    Some(CommandOutput { success: true, code: Some(0), stdout: stdout.to_vec() })
}

#[test]
fn usernames() {
    assert_eq!(get_username(&alice()), Some(String::from("alice")));
    let named = |status: i32, name: Option<Vec<u8>>| get_username(&UserItem { status, name });
    assert_eq!(named(0, Some("jürgen".as_bytes().to_vec())), Some(String::from("jürgen")));
    assert_eq!(named(0, Some(Vec::new())), Some(String::new()));
    assert_eq!(named(0, None), None);
    assert_eq!(named(10, Some(b"alice".to_vec())), None);
    assert_eq!(named(0, Some(vec![0xff, 0xfe])), None);
}

#[test]
fn commands() {
    assert_eq!(
        decrypt_command("alice"),
        vec![
            "runuser",
            "-u",
            "alice",
            "--",
            "sh",
            "-c",
            "f=\"$HOME/.config/gnome-keyring-unlock/secret.jwe\"; \
             [ -f \"$f\" ] || exit 1; \
             clevis decrypt < \"$f\" 2>/dev/null",
        ]
    );
    assert_eq!(helper_command("alice"), vec!["/usr/local/bin/gkd-unlock", "alice"]);
}

#[test]
fn secrets() {
    let secret = |output: Option<CommandOutput>| {
        let mut output = output;
        decrypt_tpm_secret(&mut output)
    };
    assert_eq!(secret(wrote(b"pw")), Ok(b"pw".to_vec()));
    assert_eq!(secret(wrote(b"pw\n")), Ok(b"pw".to_vec()));
    assert_eq!(secret(wrote(b"pw\n\n")), Ok(b"pw\n".to_vec()));
    assert_eq!(secret(wrote(b"\n")), Ok(Vec::new()));
    assert_eq!(secret(wrote(b"")), Err(SecretError::Empty));
    assert_eq!(secret(wrote(b"p\0w\n")), Err(SecretError::ZeroByte));
    assert_eq!(secret(None), Err(SecretError::NotRun));
    assert_eq!(secret(failed(Some(1))), Err(SecretError::Failed(1)));
    assert_eq!(secret(failed(None)), Err(SecretError::Failed(-1)));
}

#[test]
fn nothing_stays_in_the_output() {
    let left = |output: Option<CommandOutput>| {
        let mut output = output;
        let _ = decrypt_tpm_secret(&mut output);
        output.map(|o| (o.success, o.code, o.stdout))
    };
    assert_eq!(left(wrote(b"pw\n")), Some((true, Some(0), Vec::new())));
    assert_eq!(left(wrote(b"p\0w\n")), Some((true, Some(0), vec![0, 0, 0])));
    assert_eq!(left(failed(Some(1))), Some((false, Some(1), vec![0, 0])));
    assert_eq!(left(wrote(b"")), Some((true, Some(0), Vec::new())));
    assert_eq!(left(None), None);
}

#[test]
fn small_things_with_bytes() {
    let mut v = b"secret".to_vec();
    wipe(&mut v);
    assert_eq!(v, vec![0; 6]);
    let mut v = b"a\n".to_vec();
    strip_newline(&mut v);
    strip_newline(&mut v);
    assert_eq!(v, b"a".to_vec());
    assert!(occurs(b"abc", b'c'));
    assert!(!occurs(b"abc", b'd'));
    assert_eq!(c_string(b"ab"), b"ab\0".to_vec());
}

fn decrypting() -> AuthPhase {
    let mut p = AuthPhase::new(&alice());
    p.step(AuthEvent::Token(None));
    assert_eq!(p.action(), AuthAction::Decrypt);
    p
}

#[test]
fn token_is_set() {
    for len in [None, Some(0)] {
        let mut p = AuthPhase::new(&alice());
        assert_eq!(p.action(), AuthAction::ReadToken);
        assert_eq!(p.username(), "alice");
        p.step(AuthEvent::Output(wrote(b"early")));
        assert_eq!(p.action(), AuthAction::ReadToken);
        p.step(AuthEvent::Token(len));
        assert_eq!(p.action(), AuthAction::Decrypt);
        p.step(AuthEvent::Output(wrote(b"pw\n")));
        assert_eq!(p.action(), AuthAction::SetToken);
        assert_eq!(p.token().to_vec(), b"pw\0".to_vec());
        p.step(AuthEvent::TokenSet(0));
        assert_eq!(p.action(), AuthAction::Return(AuthOutcome::TokenSet(0)));
        assert_eq!(p.token().to_vec(), vec![0, 0, 0]);
        p.step(AuthEvent::Output(wrote(b"other")));
        assert_eq!(p.action(), AuthAction::Return(AuthOutcome::TokenSet(0)));
        assert_eq!(
            lines(p.messages()),
            vec![
                line(Level::Debug, "decrypting secret for 'alice' via clevis"),
                line(Level::Debug, "decrypted 2 bytes for 'alice'"),
                line(Level::Info, "PAM_AUTHTOK set for 'alice'"),
            ]
        );
    }
}

#[test]
fn token_that_cannot_be_set() {
    let mut p = decrypting();
    p.step(AuthEvent::Output(wrote(b"pw")));
    p.step(AuthEvent::TokenSet(5));
    assert_eq!(p.action(), AuthAction::Return(AuthOutcome::TokenSet(5)));
    assert_eq!(p.token().to_vec(), vec![0, 0, 0]);
    assert_eq!(
        lines(p.messages())[2..],
        [line(Level::Error, "pam_set_item failed with rc=5")]
    );
}

#[test]
fn token_of_an_earlier_module_stays() {
    let mut p = AuthPhase::new(&alice());
    p.step(AuthEvent::Token(Some(8)));
    assert_eq!(p.action(), AuthAction::Return(AuthOutcome::TokenPresent));
    p.step(AuthEvent::Output(wrote(b"pw")));
    assert_eq!(p.action(), AuthAction::Return(AuthOutcome::TokenPresent));
    assert!(p.token().is_empty());
    assert_eq!(
        lines(p.messages()),
        vec![line(Level::Debug, "PAM_AUTHTOK already set by earlier module, skipping")]
    );
}

#[test]
fn no_token_without_user_or_secret() {
    let mut p = AuthPhase::new(&nobody());
    assert_eq!(p.action(), AuthAction::Return(AuthOutcome::NoUser));
    p.step(AuthEvent::Token(None));
    assert_eq!(p.action(), AuthAction::Return(AuthOutcome::NoUser));
    assert_eq!(lines(p.messages()), vec![]);
    let mut p = decrypting();
    p.step(AuthEvent::Output(wrote(b"a\0b")));
    assert_eq!(
        p.action(),
        AuthAction::Return(AuthOutcome::NoSecret(SecretError::ZeroByte))
    );
    assert_eq!(
        lines(p.messages())[1..],
        [line(Level::Error, "decrypted secret contains null bytes — refusing")]
    );
}

#[test]
fn decryptions_that_fail_are_logged() {
    let logged = |output: Option<CommandOutput>| {
        let mut p = decrypting();
        p.step(AuthEvent::Output(output));
        lines(p.messages())[1..].to_vec()
    };
    assert_eq!(logged(None), vec![]);
    assert_eq!(logged(failed(Some(127))), vec![line(Level::Debug, "clevis runuser exited 127")]);
    assert_eq!(logged(failed(None)), vec![line(Level::Debug, "clevis runuser exited -1")]);
    assert_eq!(
        logged(wrote(b"")),
        vec![line(Level::Warning, "clevis produced empty output for 'alice'")]
    );
}

#[test]
fn user_without_enrolment_is_no_news() {
    let debug = |lines: Vec<(Sink, String)>| {
        lines.iter().all(|l| l.0 == Sink::Log(Level::Debug))
    };
    let mut p = decrypting();
    p.step(AuthEvent::Output(failed(Some(1))));
    assert!(debug(lines(p.messages())));
    let mut p = SessionPhase::new(&alice());
    p.step(SessionEvent::Output(failed(Some(1))));
    assert_eq!(lines(p.messages()).len(), 3);
    assert!(debug(lines(p.messages())));
}

#[test]
fn authentication_codes() {
    assert_eq!(AuthOutcome::NoUser.code(), 25);
    assert_eq!(AuthOutcome::TokenPresent.code(), 25);
    assert_eq!(AuthOutcome::NoSecret(SecretError::NotRun).code(), 25);
    assert_eq!(AuthOutcome::TokenSet(0).code(), 0);
    assert_eq!(AuthOutcome::TokenSet(5).code(), 5);
}

fn forked(pid: i32) -> SessionEvent {
    SessionEvent::Forked(pid, String::from("no memory"))
}

fn forking() -> SessionPhase {
    let mut p = SessionPhase::new(&alice());
    assert_eq!(p.action(), SessionAction::Decrypt);
    p.step(SessionEvent::Output(wrote(b"pw\n")));
    assert_eq!(p.action(), SessionAction::FindHelper);
    p.step(SessionEvent::HelperFound(true));
    assert_eq!(p.action(), SessionAction::Fork);
    assert_eq!(p.secret().to_vec(), b"pw".to_vec());
    p
}

#[test]
fn parent_of_the_launch() {
    let mut p = forking();
    p.step(forked(42));
    assert_eq!(p.action(), SessionAction::Reap(42));
    assert_eq!(p.secret().to_vec(), vec![0, 0]);
    p.step(SessionEvent::Reaped);
    assert_eq!(p.action(), SessionAction::Return(SessionOutcome::Launched));
    assert_eq!(
        lines(p.messages()),
        vec![
            line(Level::Debug, "decrypting secret for 'alice' via clevis"),
            line(Level::Debug, "decrypted 2 bytes for 'alice'"),
            line(Level::Info, "launching /usr/local/bin/gkd-unlock for 'alice'"),
            line(Level::Debug, "helper launched in background for 'alice'"),
        ]
    );
}

#[test]
fn result_does_not_depend_on_the_secret_or_the_helper() {
    let parent = |stdout: &[u8], rest: Vec<SessionEvent>| {
        let mut p = SessionPhase::new(&alice());
        p.step(SessionEvent::Output(wrote(stdout)));
        p.step(SessionEvent::HelperFound(true));
        p.step(forked(42));
        p.step(SessionEvent::Reaped);
        for event in rest {
            p.step(event);
        }
        (p.action(), lines(p.messages()))
    };
    assert_eq!(
        parent(b"one", vec![]),
        parent(
            b"two\n",
            vec![forked(-1), SessionEvent::Spawned(Err(String::from("gone"))), SessionEvent::Waited]
        )
    );
    assert_eq!(parent(b"one", vec![]).0, parent(b"longer", vec![]).0);
}

#[test]
fn child_of_the_launch() {
    for pid in [43, -1] {
        let mut p = forking();
        p.step(forked(0));
        assert_eq!(p.action(), SessionAction::Detach);
        p.step(SessionEvent::Detached);
        assert_eq!(p.action(), SessionAction::ForkAgain);
        p.step(forked(pid));
        assert_eq!(p.action(), SessionAction::Exit(0));
        assert_eq!(p.secret().to_vec(), vec![0, 0]);
    }
}

fn grandchild() -> SessionPhase {
    let mut p = forking();
    p.step(forked(0));
    p.step(SessionEvent::Detached);
    p.step(forked(0));
    assert_eq!(p.action(), SessionAction::Spawn);
    assert_eq!(p.username(), "alice");
    p
}

#[test]
fn grandchild_of_the_launch() {
    let mut p = grandchild();
    p.step(SessionEvent::Spawned(Ok(())));
    assert_eq!(p.action(), SessionAction::Write);
    assert_eq!(p.secret().to_vec(), b"pw".to_vec());
    p.step(SessionEvent::Written);
    assert_eq!(p.action(), SessionAction::Wait);
    assert_eq!(p.secret().to_vec(), vec![0, 0]);
    p.step(SessionEvent::Waited);
    assert_eq!(p.action(), SessionAction::Exit(0));
    p.step(SessionEvent::Reaped);
    assert_eq!(p.action(), SessionAction::Exit(0));
}

#[test]
fn helper_that_does_not_start() {
    let mut p = grandchild();
    p.step(SessionEvent::Spawned(Err(String::from("no such file"))));
    assert_eq!(p.action(), SessionAction::Exit(1));
    assert_eq!(p.secret().to_vec(), vec![0, 0]);
    assert_eq!(
        lines(p.messages())[3..],
        [(
            Sink::Stderr,
            String::from("pam_tpm_gnome_keyring: spawn failed: no such file")
        )]
    );
}

#[test]
fn launches_that_fail() {
    let p = SessionPhase::new(&UserItem { status: 4, name: None });
    assert_eq!(p.action(), SessionAction::Return(SessionOutcome::NoUser));
    assert_eq!(
        lines(p.messages()),
        vec![line(Level::Warning, "could not get PAM_USER in session phase")]
    );

    let mut p = SessionPhase::new(&alice());
    p.step(SessionEvent::Output(wrote(b"")));
    assert_eq!(
        p.action(),
        SessionAction::Return(SessionOutcome::NoSecret(SecretError::Empty))
    );
    assert_eq!(
        lines(p.messages())[1..],
        [
            line(Level::Warning, "clevis produced empty output for 'alice'"),
            line(Level::Debug, "no secret available for 'alice', skipping unlock"),
        ]
    );

    let mut p = SessionPhase::new(&alice());
    p.step(SessionEvent::Output(wrote(b"pw")));
    p.step(SessionEvent::HelperFound(false));
    assert_eq!(p.action(), SessionAction::Return(SessionOutcome::NoHelper));
    assert_eq!(p.secret().to_vec(), vec![0, 0]);
    assert_eq!(
        lines(p.messages())[2..],
        [line(Level::Error, "helper not found at /usr/local/bin/gkd-unlock")]
    );

    let mut p = forking();
    p.step(forked(-1));
    assert_eq!(p.action(), SessionAction::Return(SessionOutcome::ForkFailed));
    assert_eq!(p.secret().to_vec(), vec![0, 0]);
    assert_eq!(
        lines(p.messages())[3..],
        [line(Level::Error, "fork() failed: no memory")]
    );
}

#[test]
fn session_codes() {
    assert_eq!(SessionOutcome::Launched.code(), 0);
    assert_eq!(SessionOutcome::NoUser.code(), 25);
    assert_eq!(SessionOutcome::NoSecret(SecretError::Failed(1)).code(), 25);
    assert_eq!(SessionOutcome::NoHelper.code(), 25);
    assert_eq!(SessionOutcome::ForkFailed.code(), 25);
}

#[test]
fn entry_points() {
    assert_eq!(pam_sm_authenticate(0), 25);
    assert_eq!(pam_sm_authenticate(5), 25);
    assert_eq!(pam_sm_setcred(), 25);
    assert_eq!(pam_sm_open_session(0), 0);
    assert_eq!(pam_sm_open_session(25), 25);
    assert_eq!(pam_sm_close_session(), 25);
}

#[test]
fn passphrase_arrives() {
    for stdout in [b"correct horse".to_vec(), b"correct horse\n".to_vec()] {
        let mut p = SessionPhase::new(&alice());
        p.step(SessionEvent::Output(wrote(&stdout)));
        let mut h = Helper::new(Some(String::from("alice")));
        h.step(HelperEvent::Passphrase(p.secret().to_vec()));
        assert_eq!(h.passphrase().to_vec(), b"correct horse".to_vec());
        assert_eq!(unlock_request(h.passphrase())[12..].to_vec(), b"correct horse".to_vec());
    }
}

#[test]
fn log_records() {
    let record = module_record(Level::Warning, "hello %s").expect("no zero byte");
    assert_eq!(record.ident, b"pam_tpm_gnome_keyring\0".to_vec());
    assert_eq!(record.priority, 36);
    assert_eq!(record.text, b"pam_tpm_gnome_keyring: hello %s\0".to_vec());
    assert!(module_record(Level::Error, "a\0b").is_none());
    let record = helper_record(Level::Debug, "waiting…");
    assert_eq!(record.ident, b"gkd-unlock\0".to_vec());
    assert_eq!(record.priority, 39);
    assert_eq!(record.text, "gkd-unlock: waiting…\0".as_bytes().to_vec());
    assert_eq!(helper_record(Level::Info, "a\0b").text, b"gkd-unlock: a\0b\0".to_vec());
    assert_eq!(Level::Error.priority(), 35);
    assert_eq!(Level::Warning.priority(), 36);
    assert_eq!(Level::Info.priority(), 38);
    assert_eq!(Level::Debug.priority(), 39);
}
