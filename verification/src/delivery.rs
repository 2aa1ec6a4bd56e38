//! The way of a passphrase through the whole: from the output of the
//! decrypting command, through the PAM module and the helper, to the daemon.

use vstd::prelude::*;
use vstd::utf8::encode_utf8;

use crate::bytes::{lacks, without_newline};
use crate::exchange::{exchange_start, law_exchange_starts_with_the_request};
use crate::helper::{
    helper_next, helper_run, helper_start, law_becoming_the_user_starts_the_wait,
    law_every_passphrase_is_taken, law_own_socket_is_tried, law_password_file_decides_on_the_id,
    law_thirty_seconds, HelperAction, HelperEvent, HelperView,
};
use crate::pam::UserItem;
use crate::passwd::uid_of;
use crate::protocol::{
    law_request_round_trip, requested_passphrase, unlock_request_bytes, MAX_PASSPHRASE,
};
use crate::secret::{secret_of, CommandOutput};
use crate::session::{
    law_grandchild_carried_through, session_next, session_run, session_start, SessionAction,
    SessionEvent, SessionView,
};

verus! {

/// A passphrase that was enrolled arrives: where the command writes it, with or
/// without a newline behind it, the module takes it for the secret, the helper
/// that reads the secret takes it for the passphrase, and the daemon finds it
/// in the request. The passphrase is any that is not empty, holds no zero byte
/// and does not end with a newline.
pub proof fn law_passphrase_arrives(
    passphrase: Seq<u8>,
    module: SessionView,
    output: CommandOutput,
    helper: HelperView,
    input: Vec<u8>,
)
    requires
        0 < passphrase.len() <= MAX_PASSPHRASE,
        lacks(passphrase, 0),
        passphrase.last() != 10,
        output.success,
        output.stdout@ == passphrase || output.stdout@ == passphrase.push(10),
        module.action is Decrypt,
        helper.action is ReadPassphrase,
        input@ == session_next(module, SessionEvent::Output(Some(output))).secret,
    ensures
        session_next(module, SessionEvent::Output(Some(output))).action
            == SessionAction::FindHelper,
        session_next(module, SessionEvent::Output(Some(output))).secret == passphrase,
        helper_next(helper, HelperEvent::Passphrase(input)).action == HelperAction::ReadPasswd,
        helper_next(helper, HelperEvent::Passphrase(input)).passphrase == passphrase,
        requested_passphrase(
            unlock_request_bytes(helper_next(helper, HelperEvent::Passphrase(input)).passphrase),
        ) == Some(passphrase),
{
    assert(without_newline(output.stdout@) =~= passphrase);
    assert(secret_of(Some(output))->Ok_0 == passphrase);
    assert(without_newline(input@) == passphrase);
    law_request_round_trip(passphrase);
}

/// The whole way, in one piece. The command writes the passphrase of a user, the
/// helper is installed and started in the grandchild, and what the grandchild
/// writes is what the helper reads. The password file knows the user, the helper
/// becomes that user, and within thirty seconds it finds the user's own socket.
/// Then the helper tries to unlock the keyring with a request that holds the
/// passphrase, byte for byte, behind its length.
#[verifier::spinoff_prover]
pub proof fn law_passphrase_reaches_the_daemon(
    user: UserItem,
    name: Seq<char>,
    output: CommandOutput,
    passphrase: Seq<u8>,
    e1: String,
    e2: String,
    input: Vec<u8>,
    file: Vec<u8>,
    uid: u32,
    e3: String,
    started: u128,
    now: u128,
)
    requires
        user.username() == Some(name),
        output.success,
        0 < passphrase.len() <= 0xffff_fff3,
        !passphrase.contains(0),
        passphrase.last() != 10,
        output.stdout@ == passphrase || output.stdout@ == passphrase.push(10),
        input@ == session_run(
            session_start(user),
            seq![
                SessionEvent::Output(Some(output)),
                SessionEvent::HelperFound(true),
                SessionEvent::Forked(0, e1),
                SessionEvent::Detached,
                SessionEvent::Forked(0, e2),
                SessionEvent::Spawned(Ok(())),
            ],
        ).secret,
        uid_of(file@, encode_utf8(name)) == Some(uid),
        now - started <= 30_000_000_000,
    ensures
        ({
            let helper = helper_run(
                helper_start(Some(name)),
                seq![
                    HelperEvent::Passphrase(input),
                    HelperEvent::Passwd(Some(file)),
                    HelperEvent::UidSet(0, e3),
                    HelperEvent::Clock(started),
                    HelperEvent::Clock(now),
                    HelperEvent::Owner(Some(uid)),
                ],
            );
            let m = exchange_start(helper.passphrase).request;
            &&& helper.action == HelperAction::Unlock
            &&& helper.uid == uid
            &&& m.len() == 12 + passphrase.len()
            &&& m[8] * 0x100_0000 + m[9] * 0x1_0000 + m[10] * 0x100 + m[11] == passphrase.len()
            &&& m.skip(12) == passphrase
        }),
{
    law_grandchild_carried_through(user, name, output, passphrase, e1, e2);
    let start = helper_start(Some(name));
    let events = seq![
        HelperEvent::Passphrase(input),
        HelperEvent::Passwd(Some(file)),
        HelperEvent::UidSet(0, e3),
        HelperEvent::Clock(started),
        HelperEvent::Clock(now),
        HelperEvent::Owner(Some(uid)),
    ];
    assert(events.drop_last() =~= events.take(5));
    assert(events.take(5).drop_last() =~= events.take(4));
    assert(events.take(4).drop_last() =~= events.take(3));
    assert(events.take(3).drop_last() =~= events.take(2));
    assert(events.take(2).drop_last() =~= events.take(1));
    assert(events.take(1).drop_last() =~= Seq::<HelperEvent>::empty());
    assert(helper_run(start, Seq::<HelperEvent>::empty()) == start);
    law_every_passphrase_is_taken(start, input, passphrase);
    let s1 = helper_next(start, events[0]);
    assert(helper_run(start, events.take(1)) == s1);
    law_password_file_decides_on_the_id(s1, Some(file));
    let s2 = helper_next(s1, events[1]);
    assert(helper_run(start, events.take(2)) == s2);
    law_becoming_the_user_starts_the_wait(s2, uid, 0, e3);
    let s3 = helper_next(s2, events[2]);
    assert(helper_run(start, events.take(3)) == s3);
    law_thirty_seconds(s3, started);
    let s4 = helper_next(s3, events[3]);
    assert(helper_run(start, events.take(4)) == s4);
    law_thirty_seconds(s4, now);
    let s5 = helper_next(s4, events[4]);
    assert(helper_run(start, events.take(5)) == s5);
    law_own_socket_is_tried(s5, Some(uid));
    assert(helper_run(start, events) == helper_next(s5, events[5]));
    law_exchange_starts_with_the_request(passphrase);
}

} // verus!
