//! The account web application: users, sessions, stored peers and
//! servers, and the decisions of its pages.

pub mod utils;
pub mod user;
pub mod session;
pub mod peer;
pub mod server;
pub mod routes;
