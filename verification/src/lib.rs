//! The logic of a driver for Nikon (Coolscan) film scanners
//!
//! Everything here is plain values in and plain values out: parsing what a
//! unit reports about itself, building and checking the windows a scan is
//! asked for with, reading sense data as what to do next, unscrambling the
//! scan stream, and the decisions of the command-line program around it.
//! Nothing performs IO.

pub mod text;
pub mod bytes;
pub mod batch;
pub mod device;
pub mod dust;
pub mod error;
pub mod exposure;
pub mod feed;
pub mod names;
pub mod output;
pub mod protocol;
pub mod ram;
pub mod range;
pub mod review;
pub mod script;
pub mod search;
pub mod stub;
pub mod transport;
