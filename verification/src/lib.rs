//! Message exchange with a supervised client process through a shared
//! memory region.
//!
//! The region is divided into fixed-size channels. Each channel is a
//! one-message mailbox: a presence flag followed by a NUL-terminated UTF-8
//! text. [`msg_channel`] reads and writes one such slot, [`shared_mem`] lays
//! the channels out over the region, and [`supervisor`] decides what a
//! polling loop does on each of its ticks.

pub mod msg_channel;
pub mod shared_mem;
pub mod slot;
pub mod std_specs;
pub mod supervisor;
