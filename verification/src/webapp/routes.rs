//! What the web application's pages decide, apart from fetching and
//! rendering.

use vstd::prelude::*;
use vstd::string::*;
use crate::text::str_eq;
use crate::webapp::peer::{config_file_name, config_file_name_spec, key_sliceable, peer_config, Peer};
use crate::webapp::user::User;

verus! {

/// Adds the cross-origin headers to every response.
pub struct CORS;

/// The cross-origin headers, in the order they are set.
pub open spec fn cors_headers() -> Seq<(Seq<char>, Seq<char>)> {
    seq![
        ("Access-Control-Allow-Origin"@, "http://192.168.1.4:3000"@),
        ("Access-Control-Allow-Methods"@, "POST, GET, PATCH, OPTIONS"@),
        ("Access-Control-Allow-Headers"@, "*"@),
        ("Access-Control-Allow-Credentials"@, "true"@),
    ]
}

impl CORS {
    /// The name under which the response hook is registered.
    pub fn info_name(&self) -> (name: String)
        ensures
            name@ == "Add CORS headers to responses"@,
    {
        String::from_str("Add CORS headers to responses")
    }

    /// The headers set on every response: name and value, in order.
    pub fn headers(&self) -> (h: Vec<(String, String)>)
        ensures
            h@.map_values(|p: (String, String)| (p.0@, p.1@)) == cors_headers(),
    {
        let mut h: Vec<(String, String)> = Vec::new();
        h.push(
            (String::from_str("Access-Control-Allow-Origin"), String::from_str("http://192.168.1.4:3000")),
        );
        h.push(
            (String::from_str("Access-Control-Allow-Methods"), String::from_str("POST, GET, PATCH, OPTIONS")),
        );
        h.push((String::from_str("Access-Control-Allow-Headers"), String::from_str("*")));
        h.push((String::from_str("Access-Control-Allow-Credentials"), String::from_str("true")));
        assert(h@.map_values(|p: (String, String)| (p.0@, p.1@)) =~= cors_headers());
        h
    }
}

/// How far a visitor may go.
#[derive(Debug, PartialEq, Eq, Structural)]
pub enum Access {
    /// Not logged in.
    Anonymous,
    /// Logged in.
    Member,
    /// Logged in with permission 10 or more.
    Admin,
}

impl Access {
    /// The access of a visitor who is logged in as `user`, if anyone.
    pub fn of(user: Option<&User>) -> (a: Access)
        ensures
            a == match user {
                None => Access::Anonymous,
                Some(u) => if u.permission >= 10 {
                    Access::Admin
                } else {
                    Access::Member
                },
            },
    {
        match user {
            None => Access::Anonymous,
            Some(u) => if u.is_admin() {
                Access::Admin
            } else {
                Access::Member
            },
        }
    }
}

/// The answer to a request for a peer's configuration file.
pub enum ConfigResponse {
    /// Serve `contents` from the temporary file `path`.
    File { path: String, contents: String },
    /// Send the visitor to the dashboard.
    ToDashboard,
    /// Send the visitor to the login page.
    ToLogin,
}

/// The answer the configuration download gives where the peer asked for
/// is `peer` (if it exists) and the visitor is logged in as `user` (if
/// anyone): only the peer's owner gets the file.
pub open spec fn config_answer(peer: Option<Peer>, user: Option<User>) -> Option<(Seq<char>, Seq<char>)> {
    match (peer, user) {
        (Some(p), Some(u)) => if u.uuid@ == p.owner_uuid@ {
            Some((config_file_name_spec(u.username@, p.public_key@), peer_config(p)))
        } else {
            None
        },
        _ => None,
    }
}

/// Decides the configuration download: a missing peer sends the visitor
/// to the dashboard, a visitor who is not logged in to the login page, and
/// a peer that belongs to someone else to the dashboard; the owner gets the
/// file.
pub fn get_config(peer: Option<&Peer>, user: Option<&User>) -> (r: ConfigResponse)
    requires
        match (peer, user) {
            (Some(p), Some(u)) => u.uuid@ == p.owner_uuid@ ==> key_sliceable(p.public_key@),
            _ => true,
        },
    ensures
        match r {
            ConfigResponse::File { path, contents } => match (peer, user) {
                (Some(p), Some(u)) => config_answer(Some(*p), Some(*u)) == Some(
                    (path@, contents@),
                ),
                _ => false,
            },
            ConfigResponse::ToDashboard => peer is None || (user is Some && config_answer(
                Some(*peer->0),
                Some(*user->0),
            ) is None),
            ConfigResponse::ToLogin => peer is Some && user is None,
        },
{
    match peer {
        None => ConfigResponse::ToDashboard,
        Some(p) => match user {
            None => ConfigResponse::ToLogin,
            Some(u) => {
                if str_eq(u.uuid.as_str(), p.owner_uuid.as_str()) {
                    ConfigResponse::File {
                        path: config_file_name(u.username.as_str(), p.public_key.as_str()),
                        contents: p.config(),
                    }
                } else {
                    ConfigResponse::ToDashboard
                }
            },
        },
    }
}

/// What the administration page shows.
pub enum AdminPage {
    /// Not logged in: to the login page.
    ToLogin,
    /// Not an administrator: to the dashboard.
    ToDashboard,
    /// The page without a message.
    Plain,
    /// The page with the users found, as the flashed JSON list.
    Users(String),
    /// The page with the peers found, as the flashed JSON list.
    Peers(String),
    /// The page with another flashed message, by name and text.
    Message(String, String),
}

/// Decides the administration page for a visitor logged in as `user` (if
/// anyone) with the flashed message `flash` (name and text, if any).
pub fn admin_page(user: Option<&User>, flash: Option<(String, String)>) -> (page: AdminPage)
    ensures
        match user {
            None => page is ToLogin,
            Some(u) => if u.permission < 10 {
                page is ToDashboard
            } else {
                match flash {
                    None => page is Plain,
                    Some(f) => if f.0@ == "users"@ {
                        page matches AdminPage::Users(t) && t@ == f.1@
                    } else if f.0@ == "peers"@ {
                        page matches AdminPage::Peers(t) && t@ == f.1@
                    } else {
                        page matches AdminPage::Message(n, t) && n@ == f.0@ && t@ == f.1@
                    },
                }
            },
        },
{
    match Access::of(user) {
        Access::Anonymous => AdminPage::ToLogin,
        Access::Member => AdminPage::ToDashboard,
        Access::Admin => match flash {
            None => AdminPage::Plain,
            Some(f) => {
                if str_eq(f.0.as_str(), "users") {
                    AdminPage::Users(f.1)
                } else if str_eq(f.0.as_str(), "peers") {
                    AdminPage::Peers(f.1)
                } else {
                    AdminPage::Message(f.0, f.1)
                }
            },
        },
    }
}

/// Only the owner gets the file, and ownership is decided by the UUIDs
/// alone: the download of an existing peer by a logged-in visitor answers
/// with the file exactly when the visitor's UUID is the peer's owner UUID,
/// whatever the names and other fields; the file is the peer's
/// configuration.
pub proof fn lemma_config_download_by_uuid(p: Peer, u: User)
    ensures
        config_answer(Some(p), Some(u)) is Some <==> u.uuid@ == p.owner_uuid@,
        config_answer(Some(p), Some(u)) matches Some(f) ==> f.1 == peer_config(p),
        config_answer(Some(p), None) is None,
        config_answer(None, Some(u)) is None,
{
}

/// Two visitors with the same UUID get the same answer for a peer, up to
/// the file's name (which carries the visitor's user name): the decision
/// and the file's contents depend on the UUID only.
pub proof fn lemma_config_download_same_uuid(p: Peer, u: User, v: User)
    requires
        u.uuid@ == v.uuid@,
    ensures
        config_answer(Some(p), Some(u)) is Some <==> config_answer(Some(p), Some(v)) is Some,
        config_answer(Some(p), Some(u)) is Some ==> config_answer(Some(p), Some(u)).unwrap().1
            == config_answer(Some(p), Some(v)).unwrap().1,
{
}

} // verus!
