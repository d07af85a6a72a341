//! Verified core of a ranged HTTP downloader: download blocks and their
//! lifecycle, the byte-stream slicing helpers, and the per-chunk decisions
//! that the asynchronous driver in `app/` follows.

pub mod blocks;
pub mod download_core;
pub mod download;
pub mod downloader;
