//! The web UI service: the registry of accounts, VTEPs and VNIs, and the
//! pages built from it.
pub mod context;
pub mod requests;
pub mod membership;
pub mod updates;
pub mod deletes;
pub mod accounts;
pub mod rr;
pub mod pages;
pub mod db;
