//! Incremental feed polling for image boards: finds what is new in a feed,
//! decides what to download and in which order, and tracks the last item seen.
//!
//! The library decides and computes; it touches neither the network nor the
//! disk. Where work has to be done outside, a state machine says what is to
//! be done and is told what came of it:
//!
//! * [`download`]: from the description of a feed item to the address of the
//!   full-size image, and the trial of its file extensions;
//! * [`body`]: which bodies are handed to the feed reader;
//! * [`feed`]: the items of a fetched feed and the ones among them that are
//!   new;
//! * [`cushion`]: the state of a board and the cycle that brings it up to
//!   date;
//! * [`config`]: the boards that are followed;
//! * [`commands`]: the commands of the program and the task that polls a
//!   board;
//! * [`text`]: comparing and cutting strings;
//! * [`error`]: the kinds of failure.

pub mod body;
pub mod commands;
pub mod config;
pub mod cushion;
pub mod download;
pub mod error;
pub mod feed;
pub mod text;
