//! A small terminal line-entry library: an editable input buffer with a
//! commit-to-history operation, a FIFO event queue merging keyboard and
//! timer events, the decision logic of the foreground loop, and the
//! width-aware cursor-column computation.
//!
//! The terminal itself (raw mode, drawing, logging) is an external
//! collaborator; this crate holds and proves the state and event logic.

pub mod cursor;
pub mod event;
pub mod mux;
pub mod state;
pub mod step;
