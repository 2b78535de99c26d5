//! Stored VPN servers.

use vstd::prelude::*;

verus! {

/// A stored VPN server, with its private key.
pub struct Server {
    pub id: Option<i32>,
    pub public_key: String,
    pub private_key: String,
    pub address: String,
    pub info: String,
}

/// What may be shown of a server: everything but its private key.
pub struct ServerPublicInfo {
    pub id: i32,
    pub info: String,
    pub address: String,
    pub public_key: String,
}

/// `info` shows `server` without its private key.
pub open spec fn shows(info: ServerPublicInfo, server: Server) -> bool {
    &&& server.id == Some(info.id)
    &&& info.info@ == server.info@
    &&& info.address@ == server.address@
    &&& info.public_key@ == server.public_key@
}

impl Server {
    /// What may be shown of this server.
    pub fn public_info(&self) -> (info: ServerPublicInfo)
        requires
            self.id is Some,
        ensures
            shows(info, *self),
    {
        ServerPublicInfo {
            id: self.id.unwrap(),
            info: self.info.clone(),
            address: self.address.clone(),
            public_key: self.public_key.clone(),
        }
    }

    /// What may be shown of each of the stored `servers`, in their order.
    pub fn all_servers(servers: &Vec<Server>) -> (infos: Vec<ServerPublicInfo>)
        requires
            forall|i: int| 0 <= i < servers.len() ==> (#[trigger] servers[i]).id is Some,
        ensures
            infos.len() == servers.len(),
            forall|i: int| 0 <= i < servers.len() ==> shows(#[trigger] infos[i], servers[i]),
    {
        let mut infos: Vec<ServerPublicInfo> = Vec::new();
        let mut i: usize = 0;
        while i < servers.len()
            invariant
                i <= servers.len(),
                infos.len() == i,
                forall|j: int| 0 <= j < servers.len() ==> (#[trigger] servers[j]).id is Some,
                forall|j: int| 0 <= j < i ==> shows(#[trigger] infos[j], servers[j]),
            decreases servers.len() - i,
        {
            infos.push(servers[i].public_info());
            i = i + 1;
        }
        infos
    }

    /// What may be shown of the first of the servers found for an id.
    pub fn get_server(servers: &Vec<Server>) -> (info: ServerPublicInfo)
        requires
            servers.len() > 0,
            servers[0].id is Some,
        ensures
            shows(info, servers[0]),
    {
        servers[0].public_info()
    }
}

} // verus!
