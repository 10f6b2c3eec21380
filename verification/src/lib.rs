//! Reference synchronisation for cloud workspaces: the snapshot a workspace
//! is read into, the payload it is presented as, and the coordinators that
//! sequence updates and renames against the entity stores.

pub mod ids;
pub mod listmap;
pub mod entities;
pub mod payload;
pub mod store;
pub mod cast;
pub mod fetch;
pub mod smartlog;
pub mod update;
pub mod rename;
pub mod model;
