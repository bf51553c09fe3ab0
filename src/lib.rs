//! Signal extraction from spectrum frames and DMX512 frame encoding.

pub mod dmx;
pub mod limiter;
pub mod mapping;
pub mod messages;
pub mod pipeline;
pub mod supervisor;
pub mod trackers;
pub mod window;
