//! Channel lifecycle and permission rules for a community's self-service
//! project channels: who owns which channel, how many a member may have,
//! where a channel sits, and which permission overwrites each visibility
//! mode stands for.

pub mod acl;
pub mod archive;
pub mod channel;
pub mod commands;
pub mod handler;
pub mod legacy;
pub mod lifecycle;
pub mod members;
pub mod permissions;
pub mod profile;
pub mod registry;
pub mod text;
pub mod wordgen;
