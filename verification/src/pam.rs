//! What the module and libpam say to each other: result codes, item numbers,
//! the user's name, and the results of the entry points.

#![allow(non_camel_case_types)]

use vstd::prelude::*;
use vstd::utf8::*;

use crate::text::from_utf8;

verus! {

/// The result code for success.
pub const PAM_SUCCESS: i32 = 0;

/// The result code that asks libpam to leave this module out of account.
pub const PAM_IGNORE: i32 = 25;

/// The number of the item that holds the user's name.
pub const PAM_USER: i32 = 2;

/// The number of the item that holds the authentication token.
pub const PAM_AUTHTOK: i32 = 6;

/// The handle of a PAM transaction. The module only ever holds a pointer to
/// one, which it hands back to libpam; it neither builds nor reads one.
pub enum pam_handle_t {
    /// Stands for the contents that libpam alone knows.
    Opaque,
}

/// What looking up the user's name in a transaction came back with.
pub struct UserItem {
    /// The status of the lookup.
    pub status: i32,
    /// The bytes of the name, where the lookup gave any.
    pub name: Option<Vec<u8>>,
}

impl UserItem {
    /// The user's name: there is one where the lookup succeeded and gave bytes
    /// that are UTF-8 text.
    pub open spec fn username(&self) -> Option<Seq<char>> {
        match self.name {
            Some(bytes) => if self.status == PAM_SUCCESS && valid_utf8(bytes@) {
                Some(decode_utf8(bytes@))
            } else {
                None
            },
            None => None,
        }
    }
}

/// Reads the user's name.
pub fn get_username(item: &UserItem) -> (name: Option<String>)
    ensures
        name is Some <==> item.username() is Some,
        name matches Some(n) ==> item.username() == Some(n@),
{
    if item.status != PAM_SUCCESS {
        return None;
    }
    match &item.name {
        Some(bytes) => match from_utf8(bytes.as_slice()) {
            Some(text) => {
                proof {
                    encode_utf8_decode_utf8(text@);
                }
                Some(text.to_owned())
            },
            None => None,
        },
        None => None,
    }
}

/// The name that libpam holds as text is the user's name, whatever the text is.
pub proof fn law_name_is_the_text(item: UserItem, text: Seq<char>)
    requires
        item.status == 0,
        item.name is Some,
        item.name->0@ == encode_utf8(text),
    ensures
        item.username() == Some(text),
{
    encode_utf8_valid_utf8(text);
    encode_utf8_decode_utf8(text);
}

/// Where the lookup failed, or gave nothing, or gave bytes that are not text,
/// there is no name.
pub proof fn law_no_name_without_text(item: UserItem)
    requires
        item.status != 0 || item.name is None || !valid_utf8(item.name->0@),
    ensures
        item.username() is None,
{
}

/// The numbers are those of libpam.
pub proof fn law_numbers_are_libpams()
    ensures
        PAM_SUCCESS == 0,
        PAM_USER == 2,
        PAM_AUTHTOK == 6,
        PAM_IGNORE == 25,
{
}

/// The result of the authentication entry point, given what setting the token
/// came to. It never takes part in the decision whether the user gets in.
pub fn pam_sm_authenticate(set_authtok: i32) -> (rc: i32)
    ensures
        rc == PAM_IGNORE,
{
    PAM_IGNORE
}

/// The result of the credentials entry point, which has nothing to do.
pub fn pam_sm_setcred() -> (rc: i32)
    ensures
        rc == PAM_IGNORE,
{
    PAM_IGNORE
}

/// The result of the entry point that opens a session: that of launching the
/// helper.
pub fn pam_sm_open_session(unlock_via_helper: i32) -> (rc: i32)
    ensures
        rc == unlock_via_helper,
{
    unlock_via_helper
}

/// The result of the entry point that closes a session, which has nothing to
/// do.
pub fn pam_sm_close_session() -> (rc: i32)
    ensures
        rc == PAM_IGNORE,
{
    PAM_IGNORE
}

} // verus!
