//! The server's WireGuard state: its key pair and address, the clients it
//! has handed out, and the configuration files for both ends.

use vstd::prelude::*;
use vstd::string::*;
use crate::text::{decimal, lemma_decimal_injective, u64_to_decimal};

verus! {

/// The `[Interface]` section of a WireGuard configuration.
pub struct Interface {
    pub private_key: String,
    pub address: String,
    pub listen_port: Option<String>,
    pub dns: Option<String>,
    pub post_up: Option<String>,
    pub post_down: Option<String>,
}

/// A `[Peer]` section of a WireGuard configuration.
pub struct Peer {
    pub public_key: String,
    pub allowed_ips: String,
    pub endpoint: Option<String>,
}

/// The VPN server: its own keys and public address, and its clients.
pub struct Server {
    pub public_key: String,
    pub private_key: String,
    pub address: String,
    pub clients: Vec<Client>,
}

/// One client of the server, numbered in the order it was added.
pub struct Client {
    pub _id: u64,
    pub public_key: String,
    pub private_key: String,
    pub address: String,
}

pub struct InterfaceView {
    pub private_key: Seq<char>,
    pub address: Seq<char>,
    pub listen_port: Option<Seq<char>>,
    pub dns: Option<Seq<char>>,
    pub post_up: Option<Seq<char>>,
    pub post_down: Option<Seq<char>>,
}

pub struct PeerView {
    pub public_key: Seq<char>,
    pub allowed_ips: Seq<char>,
    pub endpoint: Option<Seq<char>>,
}

pub struct ClientView {
    pub id: u64,
    pub public_key: Seq<char>,
    pub private_key: Seq<char>,
    pub address: Seq<char>,
}

pub struct ServerView {
    pub public_key: Seq<char>,
    pub private_key: Seq<char>,
    pub address: Seq<char>,
    pub clients: Seq<ClientView>,
}

/// The characters of an optional string.
pub open spec fn opt_view(o: Option<String>) -> Option<Seq<char>> {
    match o {
        Some(s) => Some(s@),
        None => None,
    }
}

impl View for Interface {
    type V = InterfaceView;

    open spec fn view(&self) -> InterfaceView {
        InterfaceView {
            private_key: self.private_key@,
            address: self.address@,
            listen_port: opt_view(self.listen_port),
            dns: opt_view(self.dns),
            post_up: opt_view(self.post_up),
            post_down: opt_view(self.post_down),
        }
    }
}

impl View for Peer {
    type V = PeerView;

    open spec fn view(&self) -> PeerView {
        PeerView {
            public_key: self.public_key@,
            allowed_ips: self.allowed_ips@,
            endpoint: opt_view(self.endpoint),
        }
    }
}

impl View for Client {
    type V = ClientView;

    open spec fn view(&self) -> ClientView {
        ClientView {
            id: self._id,
            public_key: self.public_key@,
            private_key: self.private_key@,
            address: self.address@,
        }
    }
}

impl View for Server {
    type V = ServerView;

    open spec fn view(&self) -> ServerView {
        ServerView {
            public_key: self.public_key@,
            private_key: self.private_key@,
            address: self.address@,
            clients: self.clients@.map_values(|c: Client| c@),
        }
    }
}

/// A `Key = value` line where the value is present, nothing otherwise.
pub open spec fn option_line(key: Seq<char>, value: Option<Seq<char>>) -> Seq<char> {
    match value {
        Some(v) => key + v + "\n"@,
        None => Seq::empty(),
    }
}

/// The text of an `[Interface]` section.
pub open spec fn interface_text(i: InterfaceView) -> Seq<char> {
    "[Interface]\n"@ + "PrivateKey = "@ + i.private_key + "\n"@ + "Address = "@ + i.address
        + "\n"@ + option_line("ListenPort = "@, i.listen_port) + option_line("DNS = "@, i.dns)
        + option_line("PostUp = "@, i.post_up) + option_line("PostDown = "@, i.post_down)
}

/// The text of a `[Peer]` section.
pub open spec fn peer_text(p: PeerView) -> Seq<char> {
    "[Peer]\n"@ + "PublicKey = "@ + p.public_key + "\n"@ + "AllowedIPs = "@ + p.allowed_ips
        + "\n"@ + option_line("Endpoint = "@, p.endpoint)
}

/// The firewall rule run when the server's interface comes up.
pub open spec fn post_up_rule(nic: Seq<char>) -> Seq<char> {
    "iptables -A FORWARD -i %i -j ACCEPT; iptables -t nat -A POSTROUTING -o "@ + nic
        + " -j MASQUERADE"@
}

/// The firewall rule run when the server's interface goes down.
pub open spec fn post_down_rule(nic: Seq<char>) -> Seq<char> {
    "iptables -D FORWARD -i %i -j ACCEPT; iptables -t nat -A POSTROUTING -o "@ + nic
        + " -j MASQUERADE"@
}

/// The server's own interface, listening on `port` and forwarding through
/// the network card `nic`.
pub open spec fn server_interface(s: ServerView, port: Seq<char>, nic: Seq<char>) -> InterfaceView {
    InterfaceView {
        private_key: s.private_key,
        address: "10.0.0.1/32"@,
        listen_port: Some(port),
        dns: None,
        post_up: Some(post_up_rule(nic)),
        post_down: Some(post_down_rule(nic)),
    }
}

/// The server as a client sees it.
pub open spec fn server_peer(s: ServerView) -> PeerView {
    PeerView { public_key: s.public_key, allowed_ips: "0.0.0.0/0"@, endpoint: Some(s.address) }
}

/// A client as the server sees it.
pub open spec fn client_peer(c: ClientView) -> PeerView {
    PeerView { public_key: c.public_key, allowed_ips: c.address + "/32"@, endpoint: None }
}

/// A client's own interface.
pub open spec fn client_interface(c: ClientView) -> InterfaceView {
    InterfaceView {
        private_key: c.private_key,
        address: c.address + "/32"@,
        dns: Some("8.8.8.8"@),
        listen_port: None,
        post_up: None,
        post_down: None,
    }
}

/// The `[Peer]` sections of all clients, each followed by an empty line.
pub open spec fn clients_text(clients: Seq<ClientView>) -> Seq<char>
    decreases clients.len(),
{
    if clients.len() == 0 {
        Seq::empty()
    } else {
        clients_text(clients.drop_last()) + peer_text(client_peer(clients.last())) + "\n"@
    }
}

/// The server's configuration file.
pub open spec fn server_config(s: ServerView, port: Seq<char>, nic: Seq<char>) -> Seq<char> {
    interface_text(server_interface(s, port, nic)) + "\n"@ + clients_text(s.clients)
}

/// The configuration file of the client at position `id`.
pub open spec fn client_config(s: ServerView, id: int) -> Seq<char> {
    interface_text(client_interface(s.clients[id])) + "\n"@ + peer_text(server_peer(s)) + "\n"@
}

/// The VPN address of the client at position `n`: `10.0.0.<n + 2>`.
pub open spec fn client_address(n: nat) -> Seq<char> {
    "10.0.0."@ + decimal(n + 2)
}

/// Every client is numbered by its position and has the address that
/// belongs to that position.
pub open spec fn numbered(s: ServerView) -> bool {
    forall|i: int|
        0 <= i < s.clients.len() ==> (#[trigger] s.clients[i]).id == i && s.clients[i].address
            == client_address(i as nat)
}

/// Appends `key`, the value and a newline where the value is present.
fn push_option_line(out: &mut String, key: &str, value: &Option<String>)
    ensures
        final(out)@ == old(out)@ + option_line(key@, opt_view(*value)),
{
    match value {
        Some(v) => {
            out.append(key);
            out.append(v.as_str());
            out.append("\n");
        },
        None => {
            assert(old(out)@ + Seq::<char>::empty() =~= old(out)@);
        },
    }
}

fn clone_option(o: &Option<String>) -> (r: Option<String>)
    ensures
        opt_view(r) == opt_view(*o),
{
    match o {
        Some(s) => Some(s.clone()),
        None => None,
    }
}

impl Interface {
    /// The section's text, as its `Display` writes it.
    pub fn to_string(&self) -> (s: String)
        ensures
            s@ == interface_text(self@),
    {
        let mut s = String::from_str("[Interface]\n");
        s.append("PrivateKey = ");
        s.append(self.private_key.as_str());
        s.append("\n");
        s.append("Address = ");
        s.append(self.address.as_str());
        s.append("\n");
        push_option_line(&mut s, "ListenPort = ", &self.listen_port);
        push_option_line(&mut s, "DNS = ", &self.dns);
        push_option_line(&mut s, "PostUp = ", &self.post_up);
        push_option_line(&mut s, "PostDown = ", &self.post_down);
        s
    }
}

impl Peer {
    /// The section's text, as its `Display` writes it.
    pub fn to_string(&self) -> (s: String)
        ensures
            s@ == peer_text(self@),
    {
        let mut s = String::from_str("[Peer]\n");
        s.append("PublicKey = ");
        s.append(self.public_key.as_str());
        s.append("\n");
        s.append("AllowedIPs = ");
        s.append(self.allowed_ips.as_str());
        s.append("\n");
        push_option_line(&mut s, "Endpoint = ", &self.endpoint);
        s
    }
}

impl Client {
    /// This client as the server sees it.
    pub fn as_peer(&self) -> (p: Peer)
        ensures
            p@ == client_peer(self@),
    {
        let mut allowed_ips = self.address.clone();
        allowed_ips.append("/32");
        Peer { public_key: self.public_key.clone(), allowed_ips, endpoint: None }
    }

    /// This client's own interface.
    pub fn as_interface(&self) -> (i: Interface)
        ensures
            i@ == client_interface(self@),
    {
        let mut address = self.address.clone();
        address.append("/32");
        Interface {
            private_key: self.private_key.clone(),
            address,
            dns: Some(String::from_str("8.8.8.8")),
            listen_port: None,
            post_up: None,
            post_down: None,
        }
    }
}

impl Server {
    /// A server with the given keys and public address and no clients.
    pub fn new(public_key: String, private_key: String, address: String) -> (s: Server)
        ensures
            s@ == (ServerView {
                public_key: public_key@,
                private_key: private_key@,
                address: address@,
                clients: Seq::empty(),
            }),
            numbered(s@),
    {
        let s = Server { public_key, private_key, address, clients: Vec::new() };
        assert(s@.clients =~= Seq::<ClientView>::empty());
        s
    }

    /// Adds a client with the key pair `key_pair` (as the key generator
    /// returned it) and returns its number. The client is numbered by its
    /// position and gets the address `10.0.0.<number + 2>`.
    pub fn new_peer(&mut self, key_pair: (String, String)) -> (id: u64)
        requires
            old(self).clients.len() + 2 <= u64::MAX,
        ensures
            id == old(self).clients.len(),
            final(self)@ == (ServerView {
                clients: old(self)@.clients.push(
                    ClientView {
                        id: id,
                        public_key: key_pair.0@,
                        private_key: key_pair.1@,
                        address: client_address(id as nat),
                    },
                ),
                ..old(self)@
            }),
            numbered(old(self)@) ==> numbered(final(self)@),
    {
        let n = self.clients.len() as u64;
        let mut address = String::from_str("10.0.0.");
        let number = u64_to_decimal(2 + n);
        address.append(number.as_str());
        let c = Client { _id: n, public_key: key_pair.0, private_key: key_pair.1, address };
        self.clients.push(c);
        proof {
            assert(final(self)@.clients =~= old(self)@.clients.push(c@));
        }
        n
    }

    /// The server's own interface, listening on `port` and forwarding
    /// through the network card `nic`.
    pub fn as_interface(&self, port: String, nic: String) -> (i: Interface)
        ensures
            i@ == server_interface(self@, port@, nic@),
    {
        let mut post_up = String::from_str(
            "iptables -A FORWARD -i %i -j ACCEPT; iptables -t nat -A POSTROUTING -o ",
        );
        post_up.append(nic.as_str());
        post_up.append(" -j MASQUERADE");
        let mut post_down = String::from_str(
            "iptables -D FORWARD -i %i -j ACCEPT; iptables -t nat -A POSTROUTING -o ",
        );
        post_down.append(nic.as_str());
        post_down.append(" -j MASQUERADE");
        Interface {
            private_key: self.private_key.clone(),
            address: String::from_str("10.0.0.1/32"),
            listen_port: Some(port),
            post_up: Some(post_up),
            post_down: Some(post_down),
            dns: None,
        }
    }

    /// The server as its clients see it.
    pub fn as_peer(&self) -> (p: Peer)
        ensures
            p@ == server_peer(self@),
    {
        Peer {
            public_key: self.public_key.clone(),
            allowed_ips: String::from_str("0.0.0.0/0"),
            endpoint: Some(self.address.clone()),
        }
    }

    /// The server's configuration file: its interface, then a `[Peer]`
    /// section for every client, each followed by an empty line.
    pub fn get_server_config(&self, port: String, nic: String) -> (conf: String)
        ensures
            conf@ == server_config(self@, port@, nic@),
    {
        let mut result = self.as_interface(port, nic).to_string();
        result.append("\n");
        let ghost head = result@;
        let ghost cs = self@.clients;
        let mut i: usize = 0;
        assert(cs.take(0) =~= Seq::<ClientView>::empty());
        assert(result@ =~= head + clients_text(cs.take(0)));
        while i < self.clients.len()
            invariant
                cs == self@.clients,
                i <= cs.len(),
                result@ == head + clients_text(cs.take(i as int)),
            decreases cs.len() - i,
        {
            let section = self.clients[i].as_peer().to_string();
            result.append(section.as_str());
            result.append("\n");
            assert(cs.take(i + 1).drop_last() =~= cs.take(i as int));
            assert(cs[i as int] == self.clients@[i as int]@);
            assert(result@ =~= head + clients_text(cs.take(i + 1)));
            i = i + 1;
        }
        assert(cs.take(cs.len() as int) =~= cs);
        result
    }

    /// The configuration file of client number `client_id`.
    pub fn get_client_config(&self, client_id: u64) -> (conf: String)
        requires
            client_id < self.clients.len(),
        ensures
            conf@ == client_config(self@, client_id as int),
    {
        let mut result = self.clients[client_id as usize].as_interface().to_string();
        result.append("\n");
        result.append(self.as_peer().to_string().as_str());
        result.append("\n");
        result
    }
}

/// Clients of a numbered server have pairwise different addresses.
pub proof fn lemma_numbered_addresses_distinct(s: ServerView, i: int, j: int)
    requires
        numbered(s),
        0 <= i < s.clients.len(),
        0 <= j < s.clients.len(),
        i != j,
    ensures
        s.clients[i].address != s.clients[j].address,
{
    let p = "10.0.0."@;
    let a = decimal((i + 2) as nat);
    let b = decimal((j + 2) as nat);
    assert(s.clients[i].address == p + a);
    assert(s.clients[j].address == p + b);
    if p + a == p + b {
        assert((p + a).skip(p.len() as int) =~= a);
        assert((p + b).skip(p.len() as int) =~= b);
        lemma_decimal_injective((i + 2) as nat, (j + 2) as nat);
    }
}

/// Adding a client adds exactly one `[Peer]` section, for that client, at the
/// end of the server's configuration, and leaves the rest of it unchanged.
pub proof fn lemma_new_peer_extends_config(
    s: ServerView,
    c: ClientView,
    port: Seq<char>,
    nic: Seq<char>,
)
    ensures
        server_config(ServerView { clients: s.clients.push(c), ..s }, port, nic) == server_config(
            s,
            port,
            nic,
        ) + peer_text(client_peer(c)) + "\n"@,
{
    let t = ServerView { clients: s.clients.push(c), ..s };
    assert(t.clients.drop_last() =~= s.clients);
    assert(server_interface(t, port, nic) == server_interface(s, port, nic));
    assert(server_config(t, port, nic) =~= server_config(s, port, nic) + peer_text(client_peer(c))
        + "\n"@);
}

/// The configuration of client `id` depends only on that client and on the
/// server's public key and address: changing any other client, or the
/// server's private key, leaves it as it is.
pub proof fn lemma_client_config_own_client(s: ServerView, t: ServerView, id: int)
    requires
        0 <= id < s.clients.len(),
        0 <= id < t.clients.len(),
        s.clients[id] == t.clients[id],
        s.public_key == t.public_key,
        s.address == t.address,
    ensures
        client_config(s, id) == client_config(t, id),
{
    assert(server_peer(s) == server_peer(t));
}

/// On a numbered server, the configuration of client `id` opens with an
/// `[Interface]` section holding that client's private key and the address
/// `10.0.0.<id + 2>/32`, and ends with the server as its `[Peer]`.
pub proof fn lemma_client_config_opens_with_own_interface(s: ServerView, id: int)
    requires
        numbered(s),
        0 <= id < s.clients.len(),
    ensures
        ("[Interface]\n"@ + "PrivateKey = "@ + s.clients[id].private_key + "\n"@ + "Address = "@
            + client_address(id as nat) + "/32"@ + "\n"@).is_prefix_of(client_config(s, id)),
        (peer_text(server_peer(s)) + "\n"@).is_suffix_of(client_config(s, id)),
{
    let c = s.clients[id];
    assert(c.address == client_address(id as nat));
    let head = "[Interface]\n"@ + "PrivateKey = "@ + c.private_key + "\n"@ + "Address = "@ + (
    c.address + "/32"@) + "\n"@;
    let rest = option_line("DNS = "@, Some("8.8.8.8"@)) + "\n"@ + peer_text(server_peer(s))
        + "\n"@;
    let tail = peer_text(server_peer(s)) + "\n"@;
    let front = interface_text(client_interface(c)) + "\n"@;
    assert(option_line("ListenPort = "@, None) =~= Seq::<char>::empty());
    assert(option_line("PostUp = "@, None) =~= Seq::<char>::empty());
    assert(option_line("PostDown = "@, None) =~= Seq::<char>::empty());
    assert(client_config(s, id) =~= head + rest);
    assert((head + rest).subrange(0, head.len() as int) =~= head);
    assert(head =~= "[Interface]\n"@ + "PrivateKey = "@ + s.clients[id].private_key + "\n"@
        + "Address = "@ + client_address(id as nat) + "/32"@ + "\n"@);
    assert(client_config(s, id) =~= front + tail);
    assert((front + tail).subrange(front.len() as int, (front + tail).len() as int) =~= tail);
}

} // verus!
