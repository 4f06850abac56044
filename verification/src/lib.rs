//! Window-state and commit-synchronization core of a tag-based tiling
//! compositor.
//!
//! The library tracks each window's tags, floating/tiled mode and
//! fullscreen/maximized state, infers tags for newly mapped windows,
//! classifies windows as floating from their hints, computes tiled
//! geometries for the windows visible on an output, and gates the raise of
//! a newly mapped window behind a two-phase commit barrier across its
//! sibling windows.

pub mod api;
pub mod barrier;
pub mod bridge;
pub mod geometry;
pub mod layout;
pub mod output;
pub mod tag;
pub mod window;
