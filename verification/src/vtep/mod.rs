//! The VTEP agent: it keeps its VXLAN segments, BGP sessions to two route
//! reflectors, and the set of peers it lets through.
pub mod setup;
pub mod agent;
pub mod address;
