//! Building blocks of a classroom screen-sharing mesh: the media wire format and its
//! reliability, the control plane and its authorization, group-media key handling and
//! the bounded queues and policies around them.

pub mod bytes;
pub mod control;
pub mod counting;
pub mod digest;
pub mod discovery;
pub mod durable;
pub mod engine;
pub mod identity;
pub mod network;
pub mod ordered;
pub mod measure;
pub mod protocol;
pub mod render;
pub mod security;
pub mod text;
pub mod video;
mod wipe;
