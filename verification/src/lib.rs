//! Verified core of a two-machine extended-display tool: the wire types shared by
//! both peers, the framing of control messages and media datagrams, the clipboard
//! and audio synchronisation decisions, and the mDNS peer bookkeeping.

pub mod audio;
pub mod clipboard;
pub mod connection;
pub mod discovery;
pub mod hashing;
pub mod imaging;
pub mod protocol;
pub mod text;
