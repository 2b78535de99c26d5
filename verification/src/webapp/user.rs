//! User accounts.

use vstd::prelude::*;
use crate::webapp::utils::{check_password, hash_password, pbkdf2_accepts, phc_hash_parses};

verus! {

/// A stored user account.
pub struct User {
    pub id: Option<i32>,
    pub name: String,
    pub username: String,
    pub email: String,
    pub hashed_password: String,
    pub permission: i32,
    pub uuid: String,
    pub session: Option<i32>,
}

/// What the sign-up form gives for a new user.
pub struct UserData {
    pub name: String,
    pub username: String,
    pub email: String,
    pub password: String,
    pub permission: i32,
}

/// Why a login was refused.
#[derive(Debug, PartialEq, Eq, Structural)]
pub enum LoginError {
    /// No such user, or the wrong password.
    Rejected,
    /// The stored password hash cannot be read.
    UnreadableHash,
}

/// What `str::to_lowercase` gives for `s`.
pub uninterp spec fn str_lowercase(s: Seq<char>) -> Seq<char>;

/// `str::to_lowercase`: the Unicode lower-case form of `s`. Its result is
/// named, not described.
#[verifier::external_body]
fn lowercase(s: &str) -> (r: String)
    ensures
        r@ == str_lowercase(s@),
{
    s.to_lowercase()
}

/// Whether `c` is a lower-case hexadecimal digit.
pub open spec fn is_lower_hex(c: char) -> bool {
    ('0' <= c && c <= '9') || ('a' <= c && c <= 'f')
}

/// The shape of a random (version 4) UUID written out: 36 characters,
/// hyphens at positions 8, 13, 18 and 23, lower-case hexadecimal digits
/// elsewhere, the version digit `4` at position 14 and one of `8`, `9`, `a`,
/// `b` at position 19.
pub open spec fn uuid_v4_shape(s: Seq<char>) -> bool {
    &&& s.len() == 36
    &&& forall|i: int|
        0 <= i < 36 ==> if i == 8 || i == 13 || i == 18 || i == 23 {
            s[i] == '-'
        } else {
            is_lower_hex(#[trigger] s[i])
        }
    &&& s[14] == '4'
    &&& (s[19] == '8' || s[19] == '9' || s[19] == 'a' || s[19] == 'b')
}

/// `Uuid::new_v4().to_string()`: a random UUID in its hyphenated lower-case
/// form. The contract claims the shape that `new_v4` (which sets the
/// version and variant bits) and the hyphenated formatting give it; the
/// other digits are random.
#[verifier::external_body]
fn new_uuid_v4() -> (s: String)
    ensures
        uuid_v4_shape(s@),
{
    uuid::Uuid::new_v4().to_string()
}

impl User {
    /// The account record for a new user: a fresh random UUID, the e-mail
    /// address in lower case, the password hashed, and no id or session yet.
    pub fn add(user_data: UserData) -> (u: User)
        ensures
            u.id is None,
            u.name@ == user_data.name@,
            u.username@ == user_data.username@,
            u.email@ == str_lowercase(user_data.email@),
            phc_hash_parses(u.hashed_password@),
            pbkdf2_accepts(user_data.password@, u.hashed_password@),
            u.permission == user_data.permission,
            uuid_v4_shape(u.uuid@),
            u.session is None,
    {
        let uuid = new_uuid_v4();
        let email = lowercase(user_data.email.as_str());
        let hashed_password = hash_password(user_data.password);
        User {
            id: None,
            name: user_data.name,
            username: user_data.username,
            email,
            hashed_password,
            permission: user_data.permission,
            uuid,
            session: None,
        }
    }

    /// Whether the user may use the administration pages.
    pub fn is_admin(&self) -> (b: bool)
        ensures
            b == (self.permission >= 10),
    {
        self.permission >= 10
    }

    /// Logs in with `password` as the first of the users `matching` the
    /// given e-mail address: gives that user's UUID where the password
    /// matches the stored hash.
    pub fn authenticate(matching: &Vec<User>, password: String) -> (r: Result<String, LoginError>)
        ensures
            matching.len() == 0 ==> r == Err::<String, LoginError>(LoginError::Rejected),
            matching.len() > 0 ==> {
                let hash = matching[0].hashed_password@;
                &&& !phc_hash_parses(hash) ==> r == Err::<String, LoginError>(
                    LoginError::UnreadableHash,
                )
                &&& phc_hash_parses(hash) && !pbkdf2_accepts(password@, hash) ==> r == Err::<
                    String,
                    LoginError,
                >(LoginError::Rejected)
                &&& phc_hash_parses(hash) && pbkdf2_accepts(password@, hash) ==> (r matches Ok(
                    uuid,
                ) && uuid@ == matching[0].uuid@)
            },
    {
        if matching.len() == 0 {
            return Err(LoginError::Rejected);
        }
        let user = &matching[0];
        match check_password(password, user.hashed_password.clone()) {
            None => Err(LoginError::UnreadableHash),
            Some(false) => Err(LoginError::Rejected),
            Some(true) => Ok(user.uuid.clone()),
        }
    }
}

} // verus!
