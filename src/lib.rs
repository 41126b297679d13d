//! A chunked voxel world: bit-packed voxel columns, visible-face extraction,
//! and a conservative cellular automaton that moves water between columns.

pub mod bits;
pub mod position;
pub mod voxel_storage;
pub mod faces;
pub mod chunks;
pub mod water_sim;
