//! Verified core of a Minecraft: Java Edition server framework: protocol
//! primitives, resource identifiers, block and chunk geometry, entity data and
//! the storage structures the server builds on.

pub mod aabb;
pub mod biome;
pub mod block;
pub mod block_pos;
pub mod bvh;
pub mod chunk;
pub mod chunk_pos;
pub mod chunk_store;
pub mod client;
pub mod command;
pub mod component;
pub mod config;
pub mod dimension;
pub mod entity;
pub mod ident;
pub mod inventory;
pub mod item;
pub mod key;
pub mod paletted_container;
pub mod particle;
pub mod player_list;
pub mod player_textures;
pub mod retain;
pub mod rtree;
pub mod protocol;
pub mod entity_partition;
pub mod world;
