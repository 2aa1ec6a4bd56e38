use pam_tpm_gnome_keyring::bytes::{push_be_word, read_be_word};
use pam_tpm_gnome_keyring::exchange::{Exchange, ExchangeAction, ExchangeEvent};
use pam_tpm_gnome_keyring::protocol::{reply_size, reply_verdict, unlock_request, UnlockError};

#[test]
fn words() {
    let mut out = vec![7u8];
    push_be_word(&mut out, 0x0102_0304);
    assert_eq!(out, vec![7, 1, 2, 3, 4]);
    for n in [0u32, 1, 255, 256, 65535, 65536, 0xdead_beef, u32::MAX] {
        let mut word = Vec::new();
        push_be_word(&mut word, n);
        assert_eq!(word, n.to_be_bytes().to_vec());
        assert_eq!(read_be_word(&word), n);
    }
}

#[test]
fn request_layout() {
    assert_eq!(
        unlock_request(b"hunter2"),
        vec![
            0, 0, 0, 19, 0, 0, 0, 1, 0, 0, 0, 7, b'h', b'u', b'n', b't', b'e', b'r', b'2'
        ]
    );
    assert_eq!(unlock_request(b""), vec![0, 0, 0, 12, 0, 0, 0, 1, 0, 0, 0, 0]);
}

#[test]
fn request_length_takes_more_than_one_byte() {
    let request = unlock_request(&[b'x'; 300]);
    assert_eq!(request.len(), 312);
    assert_eq!(request[..4].to_vec(), vec![0, 0, 1, 56]);
    assert_eq!(request[8..12].to_vec(), vec![0, 0, 1, 44]);
    assert_eq!(request[12..].to_vec(), vec![b'x'; 300]);
}

#[test]
fn requests_differ() {
    assert_ne!(unlock_request(b"a"), unlock_request(b"b"));
    assert_ne!(unlock_request(b"a"), unlock_request(b"a\0"));
}

#[test]
fn replies() {
    assert!(matches!(reply_size(&[0, 0, 0, 8]), Ok(8)));
    assert!(matches!(reply_size(&[0, 0, 1, 0]), Ok(256)));
    assert!(matches!(reply_size(&[0, 0, 0, 7]), Err(UnlockError::TooShort(7))));
    assert!(matches!(reply_verdict(&[0, 0, 0, 0]), Ok(())));
    assert!(matches!(reply_verdict(&[0, 0, 0, 1]), Err(UnlockError::Denied)));
    assert!(matches!(reply_verdict(&[0, 0, 0, 2]), Err(UnlockError::Failed)));
    assert!(matches!(reply_verdict(&[0, 0, 0, 3]), Err(UnlockError::NoDaemon)));
    assert!(matches!(reply_verdict(&[1, 0, 0, 0]), Err(UnlockError::Unknown(0x100_0000))));
    assert!(matches!(reply_verdict(&[0, 0, 0, 0, 9]), Ok(())));
}

#[test]
fn error_texts() {
    let os = || String::from("broken");
    assert_eq!(UnlockError::Connect(os()).message(), "connect: broken");
    assert_eq!(UnlockError::Credentials(os()).message(), "sendmsg: broken");
    assert_eq!(UnlockError::Write(os()).message(), "write: broken");
    assert_eq!(UnlockError::ReadSize(os()).message(), "read size: broken");
    assert_eq!(UnlockError::TooShort(7).message(), "response too short (7 bytes)");
    assert_eq!(UnlockError::ReadBody(os()).message(), "read body: broken");
    assert_eq!(
        UnlockError::Denied.message(),
        "daemon returned DENIED (wrong passphrase?)"
    );
    assert_eq!(UnlockError::Failed.message(), "daemon returned FAILED");
    assert_eq!(UnlockError::NoDaemon.message(), "daemon returned NO_DAEMON");
    assert_eq!(
        UnlockError::Unknown(4294967295).message(),
        "daemon returned unknown result code 4294967295"
    );
}

fn exchange_up_to_reply() -> Exchange {
    let mut e = Exchange::new(b"pw");
    e.step(ExchangeEvent::Connected(Ok(())));
    e.step(ExchangeEvent::CredentialsSent(1, String::new()));
    e.step(ExchangeEvent::Written(Ok(())));
    e
}

#[test]
fn exchange_that_unlocks() {
    let mut e = Exchange::new(b"pw");
    assert!(matches!(e.action(), ExchangeAction::Connect));
    e.step(ExchangeEvent::Connected(Ok(())));
    assert!(matches!(e.action(), ExchangeAction::SendCredentials));
    e.step(ExchangeEvent::CredentialsSent(0, String::new()));
    assert!(matches!(e.action(), ExchangeAction::Write));
    assert_eq!(e.request().to_vec(), unlock_request(b"pw"));
    e.step(ExchangeEvent::Written(Ok(())));
    assert!(matches!(e.action(), ExchangeAction::ReadSize));
    e.step(ExchangeEvent::SizeRead(Ok([0, 0, 0, 8])));
    assert!(matches!(e.action(), ExchangeAction::ReadBody(4)));
    e.step(ExchangeEvent::BodyRead(Ok(vec![0, 0, 0, 0])));
    assert!(matches!(e.action(), ExchangeAction::Finish(Ok(()))));
    e.step(ExchangeEvent::Connected(Err(String::from("late"))));
    assert!(matches!(e.action(), ExchangeAction::Finish(Ok(()))));
    assert!(matches!(e.into_action(), ExchangeAction::Finish(Ok(()))));
}

#[test]
fn exchange_that_is_denied() {
    let mut e = exchange_up_to_reply();
    e.step(ExchangeEvent::SizeRead(Ok([0, 0, 0, 10])));
    assert!(matches!(e.action(), ExchangeAction::ReadBody(6)));
    e.step(ExchangeEvent::BodyRead(Ok(vec![0, 0, 0, 1, 0, 0])));
    assert!(matches!(e.action(), ExchangeAction::Finish(Err(UnlockError::Denied))));
}

#[test]
fn exchange_with_a_short_reply() {
    let mut e = exchange_up_to_reply();
    e.step(ExchangeEvent::SizeRead(Ok([0, 0, 0, 4])));
    assert!(matches!(e.action(), ExchangeAction::Finish(Err(UnlockError::TooShort(4)))));
}

#[test]
fn exchange_failures() {
    let fault = || String::from("fault");

    let mut e = Exchange::new(b"pw");
    e.step(ExchangeEvent::Connected(Err(fault())));
    assert!(matches!(e.action(), ExchangeAction::Finish(Err(UnlockError::Connect(t))) if t == "fault"));

    let mut e = Exchange::new(b"pw");
    e.step(ExchangeEvent::Connected(Ok(())));
    e.step(ExchangeEvent::CredentialsSent(-1, fault()));
    assert!(
        matches!(e.action(), ExchangeAction::Finish(Err(UnlockError::Credentials(t))) if t == "fault")
    );

    let mut e = Exchange::new(b"pw");
    e.step(ExchangeEvent::Connected(Ok(())));
    e.step(ExchangeEvent::CredentialsSent(1, String::new()));
    e.step(ExchangeEvent::Written(Err(fault())));
    assert!(matches!(e.action(), ExchangeAction::Finish(Err(UnlockError::Write(t))) if t == "fault"));

    let mut e = exchange_up_to_reply();
    e.step(ExchangeEvent::SizeRead(Err(fault())));
    assert!(matches!(e.action(), ExchangeAction::Finish(Err(UnlockError::ReadSize(t))) if t == "fault"));

    let mut e = exchange_up_to_reply();
    e.step(ExchangeEvent::SizeRead(Ok([0, 0, 0, 8])));
    e.step(ExchangeEvent::BodyRead(Err(fault())));
    assert!(matches!(e.action(), ExchangeAction::Finish(Err(UnlockError::ReadBody(t))) if t == "fault"));
}

#[test]
fn exchange_keeps_to_its_order() {
    let mut e = Exchange::new(b"pw");
    e.step(ExchangeEvent::Written(Ok(())));
    e.step(ExchangeEvent::CredentialsSent(1, String::new()));
    assert!(matches!(e.action(), ExchangeAction::Connect));
    let mut e = exchange_up_to_reply();
    e.step(ExchangeEvent::SizeRead(Ok([0, 0, 0, 8])));
    e.step(ExchangeEvent::BodyRead(Ok(vec![0, 0, 0])));
    assert!(matches!(e.action(), ExchangeAction::ReadBody(4)));
}
