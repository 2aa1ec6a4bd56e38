use pam_tpm_gnome_keyring::helper::{
    socket_path, ExitReason, Helper, HelperAction, HelperEvent,
};
use pam_tpm_gnome_keyring::protocol::UnlockError;
use pam_tpm_gnome_keyring::syslog::{Level, Sink};

const SECOND: u128 = 1_000_000_000;

fn helper() -> Helper {
    Helper::new(Some(String::from("alice")))
}

fn log(h: &Helper) -> Vec<(Sink, String)> {
    (0..h.messages().len())
        .map(|i| {
            let message = h.messages().get(i);
            (message.sink, message.text.clone())
        })
        .collect()
}

fn line(level: Level, text: &str) -> (Sink, String) {
    (Sink::Log(level), String::from(text))
}

fn ready(start: u128) -> Helper {
    let mut h = helper();
    h.step(HelperEvent::Passphrase(b"pw\n".to_vec()));
    h.step(HelperEvent::Passwd(Some(b"root:x:0:0\nalice:x:1000:1000\n".to_vec())));
    h.step(HelperEvent::UidSet(0, String::new()));
    h.step(HelperEvent::Clock(start));
    h
}

#[test]
fn argument_is_needed() {
    let h = Helper::new(None);
    assert_eq!(h.action(), HelperAction::Exit(ExitReason::Usage));
}

#[test]
fn run_that_unlocks() {
    let mut h = helper();
    assert_eq!(h.action(), HelperAction::ReadPassphrase);
    assert_eq!(h.username(), "alice");
    h.step(HelperEvent::Passphrase(b"pw\n".to_vec()));
    assert_eq!(h.action(), HelperAction::ReadPasswd);
    assert_eq!(h.passphrase().to_vec(), b"pw".to_vec());
    h.step(HelperEvent::Passwd(Some(b"alice:x:1000:1000\n".to_vec())));
    assert_eq!(h.action(), HelperAction::SetUid(1000));
    assert_eq!(h.uid(), 1000);
    h.step(HelperEvent::UidSet(0, String::new()));
    assert_eq!(h.action(), HelperAction::StartClock);
    h.step(HelperEvent::Clock(5));
    assert_eq!(h.action(), HelperAction::ReadClock);
    h.step(HelperEvent::Clock(6));
    assert_eq!(h.action(), HelperAction::StatSocket);
    h.step(HelperEvent::Owner(Some(1000)));
    assert_eq!(h.action(), HelperAction::Unlock);
    assert_eq!(h.passphrase().to_vec(), b"pw".to_vec());
    h.step(HelperEvent::Unlocked(Ok(())));
    assert_eq!(h.action(), HelperAction::Exit(ExitReason::Unlocked));
    h.step(HelperEvent::Unlocked(Err(UnlockError::Failed)));
    assert_eq!(h.action(), HelperAction::Exit(ExitReason::Unlocked));
}

#[test]
fn one_newline_is_taken_off() {
    let mut h = helper();
    h.step(HelperEvent::Passphrase(b"pw\n\n".to_vec()));
    assert_eq!(h.passphrase().to_vec(), b"pw\n".to_vec());
}

#[test]
fn empty_passphrase_is_refused() {
    for input in [b"".to_vec(), b"\n".to_vec()] {
        let mut h = helper();
        h.step(HelperEvent::Passphrase(input));
        assert_eq!(h.action(), HelperAction::Exit(ExitReason::EmptyPassphrase));
    }
}

#[test]
fn unknown_user_is_refused() {
    for file in [None, Some(b"bob:x:1:1\n".to_vec()), Some(b"alice:x:none:1\n".to_vec())] {
        let mut h = helper();
        h.step(HelperEvent::Passphrase(b"pw".to_vec()));
        h.step(HelperEvent::Passwd(file));
        assert_eq!(h.action(), HelperAction::Exit(ExitReason::UnknownUser));
    }
}

#[test]
fn nothing_happens_without_becoming_the_user() {
    let mut h = helper();
    h.step(HelperEvent::Passphrase(b"pw".to_vec()));
    h.step(HelperEvent::Passwd(Some(b"alice:x:1000:1000\n".to_vec())));
    h.step(HelperEvent::Clock(1));
    h.step(HelperEvent::Owner(Some(1000)));
    assert_eq!(h.action(), HelperAction::SetUid(1000));
    h.step(HelperEvent::UidSet(-1, String::from("not permitted")));
    assert_eq!(h.action(), HelperAction::Exit(ExitReason::SetUidFailed));
}

#[test]
fn pauses() {
    let mut h = ready(0);
    h.step(HelperEvent::Clock(0));
    h.step(HelperEvent::Owner(None));
    assert_eq!(h.action(), HelperAction::Sleep(200));
    h.step(HelperEvent::Woke);
    h.step(HelperEvent::Clock(SECOND));
    h.step(HelperEvent::Owner(Some(0)));
    assert_eq!(h.action(), HelperAction::Sleep(500));
    h.step(HelperEvent::Woke);
    h.step(HelperEvent::Clock(2 * SECOND));
    h.step(HelperEvent::Owner(Some(1000)));
    h.step(HelperEvent::Unlocked(Err(UnlockError::Failed)));
    assert_eq!(h.action(), HelperAction::Sleep(2000));
    h.step(HelperEvent::Woke);
    assert_eq!(h.action(), HelperAction::ReadClock);
}

#[test]
fn failure_is_retried() {
    let mut h = ready(0);
    h.step(HelperEvent::Clock(0));
    h.step(HelperEvent::Owner(Some(1000)));
    h.step(HelperEvent::Unlocked(Err(UnlockError::Failed)));
    h.step(HelperEvent::Woke);
    h.step(HelperEvent::Clock(3 * SECOND));
    assert_eq!(h.action(), HelperAction::StatSocket);
    h.step(HelperEvent::Owner(Some(1000)));
    h.step(HelperEvent::Unlocked(Ok(())));
    assert_eq!(h.action(), HelperAction::Exit(ExitReason::Unlocked));
}

#[test]
fn time_runs_out_after_half_a_minute() {
    let mut h = ready(7 * SECOND);
    h.step(HelperEvent::Clock(37 * SECOND));
    assert_eq!(h.action(), HelperAction::StatSocket);
    let mut h = ready(7 * SECOND);
    h.step(HelperEvent::Clock(37 * SECOND + 1));
    assert_eq!(h.action(), HelperAction::Exit(ExitReason::TimedOut));
    let mut h = ready(u128::MAX);
    h.step(HelperEvent::Clock(u128::MAX));
    assert_eq!(h.action(), HelperAction::StatSocket);
}

#[test]
fn exit_codes() {
    assert_eq!(ExitReason::Unlocked.code(), 0);
    assert_eq!(ExitReason::TimedOut.code(), 1);
    assert_eq!(ExitReason::Usage.code(), 2);
    assert_eq!(ExitReason::EmptyPassphrase.code(), 2);
    assert_eq!(ExitReason::UnknownUser.code(), 2);
    assert_eq!(ExitReason::SetUidFailed.code(), 2);
}

#[test]
fn socket_paths() {
    assert_eq!(socket_path(1000), "/run/user/1000/keyring/control");
    assert_eq!(socket_path(0), "/run/user/0/keyring/control");
}

#[test]
fn usage_goes_to_the_standard_error() {
    assert_eq!(
        log(&Helper::new(None)),
        vec![(Sink::Stderr, String::from("usage: gkd-unlock <username>"))]
    );
    assert_eq!(log(&helper()), vec![]);
}

#[test]
fn refusals_are_logged() {
    let mut h = helper();
    h.step(HelperEvent::Passphrase(b"\n".to_vec()));
    assert_eq!(log(&h), vec![line(Level::Error, "received empty passphrase for 'alice'")]);

    let mut h = helper();
    h.step(HelperEvent::Passphrase(b"pw".to_vec()));
    h.step(HelperEvent::Passwd(None));
    assert_eq!(log(&h), vec![line(Level::Error, "user 'alice' not found in /etc/passwd")]);

    let mut h = helper();
    h.step(HelperEvent::Passphrase(b"pw".to_vec()));
    h.step(HelperEvent::Passwd(Some(b"alice:x:1000:1000\n".to_vec())));
    h.step(HelperEvent::UidSet(-1, String::from("not permitted")));
    assert_eq!(log(&h), vec![line(Level::Error, "setuid(1000) failed: not permitted")]);
}

#[test]
fn waiting_is_logged() {
    let mut h = ready(0);
    let mut expected = vec![line(Level::Debug, "dropped to uid=1000 for 'alice'")];
    assert_eq!(log(&h), expected);
    h.step(HelperEvent::Clock(0));
    h.step(HelperEvent::Owner(None));
    assert_eq!(log(&h), expected);
    h.step(HelperEvent::Woke);
    h.step(HelperEvent::Clock(1));
    h.step(HelperEvent::Owner(Some(0)));
    expected.push(line(Level::Debug, "socket owner mismatch, waiting…"));
    assert_eq!(log(&h), expected);
    h.step(HelperEvent::Woke);
    h.step(HelperEvent::Clock(2));
    h.step(HelperEvent::Owner(Some(1000)));
    h.step(HelperEvent::Unlocked(Err(UnlockError::Connect(String::from("refused")))));
    expected.push(line(
        Level::Debug,
        "unlock attempt failed (connect: refused), retrying in 2s…",
    ));
    assert_eq!(log(&h), expected);
    h.step(HelperEvent::Woke);
    h.step(HelperEvent::Clock(31 * SECOND));
    expected.push(line(Level::Error, "timed out after 30s waiting for successful unlock"));
    assert_eq!(log(&h), expected);
    h.step(HelperEvent::Woke);
    assert_eq!(log(&h), expected);
}

#[test]
fn success_is_logged() {
    let mut h = ready(0);
    h.step(HelperEvent::Clock(0));
    h.step(HelperEvent::Owner(Some(1000)));
    h.step(HelperEvent::Unlocked(Ok(())));
    assert_eq!(log(&h)[1..], [line(Level::Info, "login keyring unlocked for 'alice'")]);
}

#[test]
fn helper_log_hides_the_passphrase() {
    let run = |passphrase: &[u8]| {
        let mut h = helper();
        h.step(HelperEvent::Passphrase(passphrase.to_vec()));
        h.step(HelperEvent::Passwd(Some(b"alice:x:1000:1000\n".to_vec())));
        h.step(HelperEvent::UidSet(0, String::new()));
        h.step(HelperEvent::Clock(0));
        h.step(HelperEvent::Clock(0));
        h.step(HelperEvent::Owner(Some(1000)));
        h.step(HelperEvent::Unlocked(Err(UnlockError::Denied)));
        (h.action(), log(&h))
    };
    assert_eq!(run(b"one"), run(b"another\n"));
}
