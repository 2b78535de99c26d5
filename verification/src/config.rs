//! The service's settings, as read from its configuration file.

use vstd::prelude::*;
use vstd::string::*;

verus! {

/// The settings of the VPN service.
pub struct Config {
    pub server_port: String,
    pub ip_interface_name: String,
    pub public_address: String,
    pub auth_token: String,
    pub server_dump_file: String,
    pub subnet: i64,
    pub wg_workingdir: String,
    pub wg_interface_name: String,
    pub monitoring_data_file: String,
    pub monitoring_cache_file: String,
}

impl Config {
    /// Where the WireGuard configuration of the interface is written:
    /// `<working directory>/<interface name>.conf`.
    pub fn wg_config_path(&self) -> (p: String)
        ensures
            p@ == self.wg_workingdir@ + "/"@ + self.wg_interface_name@ + ".conf"@,
    {
        let mut p = self.wg_workingdir.clone();
        p.append("/");
        p.append(self.wg_interface_name.as_str());
        p.append(".conf");
        p
    }
}

} // verus!
