//! Login sessions.

use vstd::prelude::*;
use crate::text::{hex_lower, str_eq};
use crate::webapp::utils::{get_random_string, RandomSourceError};

verus! {

/// A login session: the user's UUID and the token their browser holds.
pub struct Session {
    pub id: Option<i32>,
    pub uuid: String,
    pub token: String,
}

impl Session {
    /// A new session for the user `uuid`, with a fresh token of 64 random
    /// bytes written as 128 hexadecimal digits.
    pub fn new(uuid: String) -> (r: Result<Session, RandomSourceError>)
        ensures
            r matches Ok(s) ==> {
                &&& s.id is None
                &&& s.uuid@ == uuid@
                &&& exists|bytes: Seq<u8>| bytes.len() == 64 && s.token@ == hex_lower(bytes)
            },
    {
        match get_random_string(64) {
            Ok(token) => Ok(Session { id: None, uuid, token }),
            Err(e) => Err(e),
        }
    }

    /// Whether one of `sessions` belongs to the user `uuid` and holds
    /// `token`: whether the credentials are those of a live session.
    pub fn validate(sessions: &Vec<Session>, uuid: &str, token: &str) -> (valid: bool)
        ensures
            valid == exists|i: int|
                0 <= i < sessions.len() && (#[trigger] sessions[i]).uuid@ == uuid@
                    && sessions[i].token@ == token@,
    {
        let mut i: usize = 0;
        while i < sessions.len()
            invariant
                i <= sessions.len(),
                forall|j: int|
                    0 <= j < i ==> !((#[trigger] sessions[j]).uuid@ == uuid@ && sessions[j].token@
                        == token@),
            decreases sessions.len() - i,
        {
            if str_eq(sessions[i].uuid.as_str(), uuid) && str_eq(sessions[i].token.as_str(), token) {
                return true;
            }
            i = i + 1;
        }
        false
    }
}

} // verus!
