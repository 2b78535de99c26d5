use vpnmanager::webapp::peer::{config_file_name, key_is_sliceable, Peer};
use vpnmanager::webapp::routes::{admin_page, get_config, Access, AdminPage, ConfigResponse, CORS};
use vpnmanager::webapp::server::{Server, ServerPublicInfo};
use vpnmanager::webapp::session::Session;
use vpnmanager::webapp::user::{LoginError, User, UserData};
use vpnmanager::webapp::utils::{check_password, get_random_string, hash_password, validate_password};

const KNOWN_HASH: &str =
    "$pbkdf2-sha256$i=1000,l=32$c2FsdHNhbHRzYWx0c2FsdA$RilxBxnvGa3JIyaXwlUUKmvuPzxjHerJeqIuhiIvKNU";

fn user(uuid: &str, permission: i32, hash: &str) -> User {
    User {
        id: Some(1),
        name: "Alice".to_string(),
        username: "alice".to_string(),
        email: "alice@example.org".to_string(),
        hashed_password: hash.to_string(),
        permission,
        uuid: uuid.to_string(),
        session: None,
    }
}

fn peer(owner: &str, key: &str) -> Peer {
    Peer {
        id: Some(3),
        public_key: key.to_string(),
        private_key: "PRIV".to_string(),
        address: "10.0.0.7/32".to_string(),
        server_public_key: "SPUB".to_string(),
        server_address: "vpn.example:51820".to_string(),
        owner_uuid: owner.to_string(),
        owner_name: "alice".to_string(),
    }
}

#[test]
fn known_password_hash() {
    assert!(validate_password("hunter2".to_string(), KNOWN_HASH.to_string()));
    assert!(!validate_password("hunter3".to_string(), KNOWN_HASH.to_string()));
    assert_eq!(check_password("hunter2".to_string(), KNOWN_HASH.to_string()), Some(true));
    assert_eq!(check_password("x".to_string(), "not a hash".to_string()), None);
}

#[test]
fn hashed_password_validates() {
    let h = hash_password("correct horse".to_string());
    assert!(h.starts_with("$pbkdf2-sha256$"));
    assert!(validate_password("correct horse".to_string(), h.clone()));
    assert!(!validate_password("wrong horse".to_string(), h));
}

#[test]
fn random_strings_are_hex() {
    let s = get_random_string(32).unwrap();
    assert_eq!(s.len(), 64);
    assert!(s.chars().all(|c| c.is_ascii_digit() || ('a'..='f').contains(&c)));
    assert_eq!(get_random_string(0).unwrap(), "");
}

#[test]
fn new_user_record() {
    let u = User::add(UserData {
        name: "Alice".to_string(),
        username: "alice".to_string(),
        email: "Alice@Example.ORG".to_string(),
        password: "pw".to_string(),
        permission: 5,
    });
    assert_eq!(u.id, None);
    assert_eq!(u.session, None);
    assert_eq!(u.email, "alice@example.org");
    assert_eq!(u.permission, 5);
    assert_eq!(u.uuid.len(), 36);
    assert_eq!(&u.uuid[14..15], "4");
    assert!(["8", "9", "a", "b"].contains(&&u.uuid[19..20]));
    for i in [8, 13, 18, 23] {
        assert_eq!(&u.uuid[i..i + 1], "-");
    }
    assert_eq!(check_password("pw".to_string(), u.hashed_password.clone()), Some(true));
}

#[test]
fn login_decisions() {
    assert_eq!(User::authenticate(&vec![], "hunter2".to_string()), Err(LoginError::Rejected));
    let good = vec![user("u-1", 0, KNOWN_HASH), user("u-2", 0, "garbage")];
    assert_eq!(User::authenticate(&good, "hunter2".to_string()), Ok("u-1".to_string()));
    assert_eq!(User::authenticate(&good, "nope".to_string()), Err(LoginError::Rejected));
    let bad = vec![user("u-2", 0, "garbage")];
    assert_eq!(User::authenticate(&bad, "hunter2".to_string()), Err(LoginError::UnreadableHash));
}

#[test]
fn sessions() {
    let s = Session::new("u-1".to_string()).unwrap();
    assert_eq!(s.id, None);
    assert_eq!(s.uuid, "u-1");
    assert_eq!(s.token.len(), 128);
    let token = s.token.clone();
    let all = vec![s];
    assert!(Session::validate(&all, "u-1", &token));
    assert!(!Session::validate(&all, "u-2", &token));
    assert!(!Session::validate(&all, "u-1", "other"));
    assert!(!Session::validate(&vec![], "u-1", &token));
}

#[test]
fn server_public_info() {
    let servers = vec![
        Server { id: Some(1), public_key: "P1".into(), private_key: "K1".into(), address: "a1".into(), info: "i1".into() },
        Server { id: Some(2), public_key: "P2".into(), private_key: "K2".into(), address: "a2".into(), info: "i2".into() },
    ];
    let infos: Vec<ServerPublicInfo> = Server::all_servers(&servers);
    assert_eq!(infos.len(), 2);
    assert_eq!((infos[1].id, infos[1].info.as_str(), infos[1].address.as_str(), infos[1].public_key.as_str()), (2, "i2", "a2", "P2"));
    let first = Server::get_server(&servers);
    assert_eq!(first.id, 1);
    assert_eq!(first.public_key, "P1");
}

#[test]
fn peer_configuration() {
    let p = peer("u-1", "ABCDEFGH=");
    assert_eq!(
        p.config(),
        "[Interface]\nPrivateKey = PRIV\nAddress = 10.0.0.7/32\nDNS = 1.1.1.1, 8.8.8.8\n\n[Peer]\nPublicKey = SPUB\nAllowedIPs = 0.0.0.0/0\nEndpoint = vpn.example:51820\nPersistentKeepalive = 20"
    );
    assert_eq!(config_file_name("alice", "ABCDEFGH="), "cache_files/alice_BCDE.conf");
    assert!(key_is_sliceable("ABCDE"));
    assert!(!key_is_sliceable("ABCD"));
    assert!(!key_is_sliceable("Aé€"));
    assert!(key_is_sliceable("Aéé"));
    assert_eq!(config_file_name("bob", "Aéé"), "cache_files/bob_éé.conf");
}

#[test]
fn configuration_download() {
    let owner = user("u-1", 0, KNOWN_HASH);
    let other = user("u-2", 0, KNOWN_HASH);
    let p = peer("u-1", "ABCDEFGH=");
    match get_config(Some(&p), Some(&owner)) {
        ConfigResponse::File { path, contents } => {
            assert_eq!(path, "cache_files/alice_BCDE.conf");
            assert_eq!(contents, p.config());
        }
        _ => panic!("the owner gets the file"),
    }
    assert!(matches!(get_config(Some(&p), Some(&other)), ConfigResponse::ToDashboard));
    assert!(matches!(get_config(Some(&p), None), ConfigResponse::ToLogin));
    assert!(matches!(get_config(None, Some(&owner)), ConfigResponse::ToDashboard));
    assert!(matches!(get_config(None, None), ConfigResponse::ToDashboard));
}

#[test]
fn access_levels() {
    assert_eq!(Access::of(None), Access::Anonymous);
    assert_eq!(Access::of(Some(&user("u", 9, ""))), Access::Member);
    assert_eq!(Access::of(Some(&user("u", 10, ""))), Access::Admin);
    assert!(user("u", 10, "").is_admin());
    assert!(!user("u", -1, "").is_admin());
}

#[test]
fn administration_page() {
    let admin = user("u", 10, "");
    let member = user("u", 1, "");
    assert!(matches!(admin_page(None, None), AdminPage::ToLogin));
    assert!(matches!(admin_page(Some(&member), None), AdminPage::ToDashboard));
    assert!(matches!(admin_page(Some(&admin), None), AdminPage::Plain));
    match admin_page(Some(&admin), Some(("users".to_string(), "[]".to_string()))) {
        AdminPage::Users(t) => assert_eq!(t, "[]"),
        _ => panic!("users flash"),
    }
    match admin_page(Some(&admin), Some(("peers".to_string(), "[1]".to_string()))) {
        AdminPage::Peers(t) => assert_eq!(t, "[1]"),
        _ => panic!("peers flash"),
    }
    match admin_page(Some(&admin), Some(("added_user_uuid".to_string(), "x".to_string()))) {
        AdminPage::Message(n, t) => assert_eq!((n.as_str(), t.as_str()), ("added_user_uuid", "x")),
        _ => panic!("other flash"),
    }
}

#[test]
fn cors_headers() {
    let c = CORS;
    assert_eq!(c.info_name(), "Add CORS headers to responses");
    let h = c.headers();
    assert_eq!(h.len(), 4);
    assert_eq!(h[0], ("Access-Control-Allow-Origin".to_string(), "http://192.168.1.4:3000".to_string()));
    assert_eq!(h[1].1, "POST, GET, PATCH, OPTIONS");
    assert_eq!(h[2], ("Access-Control-Allow-Headers".to_string(), "*".to_string()));
    assert_eq!(h[3], ("Access-Control-Allow-Credentials".to_string(), "true".to_string()));
}
