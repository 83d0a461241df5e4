//! The decisions of a storage node: who may upload and download chunks of a file,
//! where chunks lie, what goes over the wire, and what is told to the chain and
//! learned from it. Sockets, disks and clocks are outside; what they report comes
//! in as events, and what is to be done with them goes out as actions.

pub mod cache;
pub mod config;
pub mod crypto;
pub mod download_manager;
pub mod encoding;
pub mod ethereum;
pub mod frame;
pub mod http_server;
pub mod listener;
pub mod listing;
pub mod merkle;
pub mod models;
pub mod node;
pub mod quic;
pub mod registry;
pub mod retry;
pub mod server;
pub mod storage;
pub mod sweeper;
pub mod text;
pub mod tracker;
pub mod wt_server;
