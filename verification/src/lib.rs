//! Verified core of a virtual LAN service: a web UI keeps accounts, VTEPs and
//! VNIs; route reflectors (RRs) mirror them into BGP; VTEPs join VXLAN
//! segments and learn their neighbours from the RRs.
pub mod text;
pub mod keyed;
pub mod models;
pub mod crypto;
pub mod net;
pub mod bgp;
pub mod rtnl;
pub mod session;
pub mod config;
pub mod messages;
pub mod ui;
pub mod reflector;
pub mod vtep;
