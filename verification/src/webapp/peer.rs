//! Stored peers: the WireGuard client configurations handed to users.

use vstd::prelude::*;
use vstd::string::*;
use vstd::utf8::{
    decode_utf8, encode_utf8, encode_utf8_decode_utf8, encode_utf8_valid_utf8,
    is_char_boundary, is_char_boundary_iff_not_is_continuation_byte, valid_utf8_split,
};

verus! {

/// A stored peer: a user's client keys and address, and the server it
/// connects to.
pub struct Peer {
    pub id: Option<i32>,
    pub public_key: String,
    pub private_key: String,
    pub address: String,
    pub server_public_key: String,
    pub server_address: String,
    pub owner_uuid: String,
    pub owner_name: String,
}

/// The WireGuard configuration file of a stored peer.
pub open spec fn peer_config(p: Peer) -> Seq<char> {
    "[Interface]\nPrivateKey = "@ + p.private_key@ + "\nAddress = "@ + p.address@
        + "\nDNS = 1.1.1.1, 8.8.8.8\n\n[Peer]\nPublicKey = "@ + p.server_public_key@
        + "\nAllowedIPs = 0.0.0.0/0\nEndpoint = "@ + p.server_address@
        + "\nPersistentKeepalive = 20"@
}

/// Whether bytes 1 to 5 of the key's UTF-8 encoding can be cut out: the key
/// is at least 5 bytes long and characters start at bytes 1 and 5.
pub open spec fn key_sliceable(key: Seq<char>) -> bool {
    let b = encode_utf8(key);
    &&& b.len() >= 5
    &&& is_char_boundary(b, 1)
    &&& is_char_boundary(b, 5)
}

/// The characters in bytes 1 to 5 of the key's UTF-8 encoding.
pub open spec fn key_tag(key: Seq<char>) -> Seq<char> {
    decode_utf8(encode_utf8(key).subrange(1, 5))
}

/// The name of the temporary file a peer's configuration is served from:
/// `cache_files/<username>_<bytes 1 to 5 of the key>.conf`.
pub open spec fn config_file_name_spec(username: Seq<char>, public_key: Seq<char>) -> Seq<char> {
    "cache_files/"@ + username + "_"@ + key_tag(public_key) + ".conf"@
}

impl Peer {
    /// The peer's WireGuard configuration file.
    pub fn config(&self) -> (conf: String)
        ensures
            conf@ == peer_config(*self),
    {
        let mut s = String::from_str("[Interface]\nPrivateKey = ");
        s.append(self.private_key.as_str());
        s.append("\nAddress = ");
        s.append(self.address.as_str());
        s.append("\nDNS = 1.1.1.1, 8.8.8.8\n\n[Peer]\nPublicKey = ");
        s.append(self.server_public_key.as_str());
        s.append("\nAllowedIPs = 0.0.0.0/0\nEndpoint = ");
        s.append(self.server_address.as_str());
        s.append("\nPersistentKeepalive = 20");
        s
    }
}

/// Whether `key` can be cut at bytes 1 and 5.
pub fn key_is_sliceable(key: &str) -> (b: bool)
    ensures
        b == key_sliceable(key@),
{
    proof {
        encode_utf8_valid_utf8(key@);
    }
    key.is_char_boundary(1) && key.is_char_boundary(5)
}

/// The name of the temporary file the configuration of a peer with key
/// `public_key` is served from to `username`.
pub fn config_file_name(username: &str, public_key: &str) -> (name: String)
    requires
        key_sliceable(public_key@),
    ensures
        name@ == config_file_name_spec(username@, public_key@),
{
    let ghost b = public_key.spec_bytes();
    proof {
        encode_utf8_valid_utf8(public_key@);
        valid_utf8_split(b, 5);
        let head = b.subrange(0, 5);
        is_char_boundary_iff_not_is_continuation_byte(b, 1);
        is_char_boundary_iff_not_is_continuation_byte(head, 1);
        assert(head[1] == b[1]);
    }
    let (head, _) = public_key.split_at(5);
    let (_, tag) = head.split_at(1);
    proof {
        assert(tag.spec_bytes() =~= b.subrange(1, 5));
        encode_utf8_decode_utf8(tag@);
    }
    let mut name = String::from_str("cache_files/");
    name.append(username);
    name.append("_");
    name.append(tag);
    name.append(".conf");
    name
}

} // verus!
