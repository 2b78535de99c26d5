use vpnmanager::servermanager::{Client, Interface, Peer, Server};

fn server_with_two_clients() -> Server {
    let mut s = Server::new("SPUB".to_string(), "SPRIV".to_string(), "vpn.example:51820".to_string());
    assert_eq!(s.new_peer(("K0A".to_string(), "K0B".to_string())), 0);
    assert_eq!(s.new_peer(("K1A".to_string(), "K1B".to_string())), 1);
    s
}

#[test]
fn new_peers_are_numbered_with_addresses() {
    let s = server_with_two_clients();
    assert_eq!(s.clients.len(), 2);
    assert_eq!(s.clients[0]._id, 0);
    assert_eq!(s.clients[0].address, "10.0.0.2");
    assert_eq!(s.clients[0].public_key, "K0A");
    assert_eq!(s.clients[0].private_key, "K0B");
    assert_eq!(s.clients[1]._id, 1);
    assert_eq!(s.clients[1].address, "10.0.0.3");
}

#[test]
fn addresses_stay_distinct() {
    let mut s = Server::new(String::new(), String::new(), String::new());
    for _ in 0..300 {
        s.new_peer((String::new(), String::new()));
    }
    assert_eq!(s.clients[253].address, "10.0.0.255");
    assert_eq!(s.clients[299].address, "10.0.0.301");
    let mut addrs: Vec<&String> = s.clients.iter().map(|c| &c.address).collect();
    addrs.sort();
    addrs.dedup();
    assert_eq!(addrs.len(), 300);
}

#[test]
fn interface_text_with_and_without_options() {
    let i = Interface {
        private_key: "PK".to_string(),
        address: "10.0.0.2/32".to_string(),
        listen_port: None,
        dns: Some("8.8.8.8".to_string()),
        post_up: None,
        post_down: None,
    };
    assert_eq!(i.to_string(), "[Interface]\nPrivateKey = PK\nAddress = 10.0.0.2/32\nDNS = 8.8.8.8\n");
    let j = Interface {
        private_key: "PK".to_string(),
        address: "A".to_string(),
        listen_port: Some("51820".to_string()),
        dns: None,
        post_up: Some("up".to_string()),
        post_down: Some("down".to_string()),
    };
    assert_eq!(
        j.to_string(),
        "[Interface]\nPrivateKey = PK\nAddress = A\nListenPort = 51820\nPostUp = up\nPostDown = down\n"
    );
}

#[test]
fn peer_text() {
    let p = Peer { public_key: "PUB".to_string(), allowed_ips: "0.0.0.0/0".to_string(), endpoint: None };
    assert_eq!(p.to_string(), "[Peer]\nPublicKey = PUB\nAllowedIPs = 0.0.0.0/0\n");
    let q = Peer {
        public_key: "PUB".to_string(),
        allowed_ips: "x".to_string(),
        endpoint: Some("host:1".to_string()),
    };
    assert_eq!(q.to_string(), "[Peer]\nPublicKey = PUB\nAllowedIPs = x\nEndpoint = host:1\n");
}

#[test]
fn client_views() {
    let c = Client {
        _id: 4,
        public_key: "CP".to_string(),
        private_key: "CK".to_string(),
        address: "10.0.0.6".to_string(),
    };
    let i = c.as_interface();
    assert_eq!(i.address, "10.0.0.6/32");
    assert_eq!(i.dns.as_deref(), Some("8.8.8.8"));
    assert!(i.listen_port.is_none() && i.post_up.is_none() && i.post_down.is_none());
    let p = c.as_peer();
    assert_eq!(p.allowed_ips, "10.0.0.6/32");
    assert!(p.endpoint.is_none());
}

#[test]
fn server_configuration_file() {
    let s = server_with_two_clients();
    let conf = s.get_server_config("51820".to_string(), "eth0".to_string());
    let expected = "[Interface]\nPrivateKey = SPRIV\nAddress = 10.0.0.1/32\nListenPort = 51820\n\
PostUp = iptables -A FORWARD -i %i -j ACCEPT; iptables -t nat -A POSTROUTING -o eth0 -j MASQUERADE\n\
PostDown = iptables -D FORWARD -i %i -j ACCEPT; iptables -t nat -A POSTROUTING -o eth0 -j MASQUERADE\n\
\n\
[Peer]\nPublicKey = K0A\nAllowedIPs = 10.0.0.2/32\n\n\
[Peer]\nPublicKey = K1A\nAllowedIPs = 10.0.0.3/32\n\n";
    assert_eq!(conf, expected);
}

#[test]
fn server_configuration_without_clients() {
    let s = Server::new("P".to_string(), "Q".to_string(), "R".to_string());
    let conf = s.get_server_config("1".to_string(), "n".to_string());
    assert!(conf.ends_with("-o n -j MASQUERADE\n\n"));
    assert!(!conf.contains("[Peer]"));
}

#[test]
fn client_configuration_file() {
    let s = server_with_two_clients();
    let conf = s.get_client_config(1);
    assert_eq!(
        conf,
        "[Interface]\nPrivateKey = K1B\nAddress = 10.0.0.3/32\nDNS = 8.8.8.8\n\n\
[Peer]\nPublicKey = SPUB\nAllowedIPs = 0.0.0.0/0\nEndpoint = vpn.example:51820\n\n"
    );
}

#[test]
fn new_peer_appends_one_section() {
    let mut s = server_with_two_clients();
    let before = s.get_server_config("1".to_string(), "eth1".to_string());
    let id = s.new_peer(("K2A".to_string(), "K2B".to_string()));
    let after = s.get_server_config("1".to_string(), "eth1".to_string());
    assert_eq!(after, format!("{}[Peer]\nPublicKey = K2A\nAllowedIPs = 10.0.0.4/32\n\n", before));
    assert_eq!(id, 2);
}
