//! Verified core of a WireGuard VPN manager: configuration rendering,
//! peer bookkeeping, traffic accounting and request authorisation.

pub mod text;
pub mod strmap;
pub mod wireguardapi;
pub mod monitoring;
pub mod servermanager;
pub mod webinterface;
pub mod config;
pub mod webapp;
