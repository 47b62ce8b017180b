//! Coordination core of a self-organising LAN cluster: the datagram codec,
//! node records and membership tables, role flags, and the decision steps of
//! discovery, election, failure detection and replication.

pub mod discovery;
pub mod election;
pub mod interface;
pub mod management;
pub mod monitoring;
pub mod packets;
pub mod pcinfo;
pub mod replication;
pub mod signals;
pub mod table;
mod text;
pub mod wire;
