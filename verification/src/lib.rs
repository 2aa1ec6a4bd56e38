//! Unlocks the GNOME keyring at login with a passphrase that the TPM protects.
//!
//! A PAM module decrypts the passphrase, offers it to the other modules as the
//! authentication token, and hands it to a helper that runs in the background.
//! The helper becomes the user, waits for the keyring daemon, and asks it over
//! its control socket to unlock the login keyring.
//!
//! This library decides what is done, what is returned and what is logged. It
//! does nothing itself: each phase is a machine that says what to do next and
//! is told what came of it. The programs around it perform the actions: they
//! call libpam and libc, run the commands, lay out and send the credentials,
//! read what is asked for, and pass the messages on.
//!
//! - [`pam`], [`secret`]: what the PAM module reads, and what it makes of it
//! - [`auth`], [`session`]: the phases of the PAM module
//! - [`helper`]: the helper; [`passwd`]: how it finds the user's ID
//! - [`exchange`]: one attempt to unlock; [`protocol`]: its messages
//! - [`delivery`]: the way of a passphrase through the whole
//! - [`syslog`]: the messages of a phase, and the records of the system log
//! - [`bytes`], [`decimal`]: byte strings and numbers

pub mod auth;
pub mod bytes;
pub mod decimal;
pub mod delivery;
pub mod exchange;
pub mod helper;
pub mod pam;
pub mod passwd;
pub mod protocol;
pub mod secret;
pub mod session;
pub mod syslog;
mod text;
