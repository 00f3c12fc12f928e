//! A beta 1.7.3 game server core: the wire codec, packets, entities and
//! the chunked world, with their contracts proved by Verus.

pub mod clientbound;
pub mod codec;
pub mod config;
pub mod connection;
pub mod entity;
pub mod handlers;
pub mod packet_registry;
pub mod position;
pub mod reader;
pub mod serverbound;
pub mod world;
pub mod writer;
