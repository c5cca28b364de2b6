//! GPU buffer provisioning for mesh geometry.
//!
//! Every mesh that a renderable draws gets its vertex buffer, and its index
//! buffer where it has indices, exactly once. The handles are kept in the
//! backend's per-asset slots, and every batch and every renderable that draws
//! the mesh is handed the same handles.

pub mod assoc;
pub mod resource;
pub mod slots;
pub mod layout;
pub mod mesh;
pub mod assignment;
pub mod backend;
pub mod asset_source;
pub mod cache;
pub mod pass;
pub mod provider;
pub mod guarantees;
