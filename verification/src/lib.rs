//! Block-model resolution and mesh generation for a voxel renderer.
//!
//! The crate turns block-state strings and declarative model descriptions
//! into textured triangle meshes:
//!
//! * `blockstate` parses a block-state string and matches its properties
//!   against the cases of a multipart description;
//! * `assets` holds block-state descriptions and models by name and follows
//!   chains of parents;
//! * `loading` tells which of them a list of block-states still misses;
//! * `resolve` merges a chain of models and follows texture variables to
//!   literal paths;
//! * `atlas` records the packed tiles and classifies their transparency;
//! * `mesh` builds the quads of each element and places them;
//! * `tint` computes the colour that replaces the atlas for some blocks;
//! * `palette`, `cache` and `scene` number the block-states, keep one mesh
//!   set per number and list the blocks to draw.
//!
//! Geometry is carried in fixed-point integers: `geometry::UNIT` ticks make
//! one model unit, texture coordinates are scaled by `geometry::UV_ONE`,
//! normals by `geometry::TRIG_ONE` and colours by `tint::TINT_ONE`. Quarter
//! turns are exact; turns by other multiples of 22.5 degrees round to the
//! nearest tick.
//!
//! Everything is verified but one comparison of property values, which
//! `blockstate` leaves to the `minecraft_assets` crate under a stated
//! contract.

pub mod assets;
pub mod atlas;
pub mod blockstate;
pub mod cache;
pub mod cli;
pub mod error;
pub mod geometry;
pub mod grid;
pub mod loading;
pub mod mc_meta;
pub mod mesh;
pub mod model;
pub mod palette;
pub mod resolve;
pub mod scene;
pub mod table;
pub mod text;
pub mod tint;
pub mod walk;
