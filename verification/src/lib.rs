//! Verified core logic of the Solarscape game services: hexadecimal token
//! encoding, account and name validation, the connection handshake, ping
//! tracking, chunk indexing and chunk lock bookkeeping.

pub mod account;
pub mod chunk;
pub mod connection;
pub mod coordinates;
pub mod dependents;
pub mod email;
pub mod frames;
pub mod handshake;
pub mod hex;
pub mod input;
pub mod locks;
pub mod mesh;
pub mod triangulation;
pub mod names;
pub mod sector;
pub mod subscribers;
pub mod token;
