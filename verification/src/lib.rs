//! Verified core of sidgate, a remote-access gateway for a Windows workstation.
//!
//! Everything that decides, parses, encodes or keeps state lives here, as plain
//! values in and plain values out. Sockets, files, the GPU and the operating
//! system are driven from the application around this library.

pub mod agent;
pub mod capture;
pub mod clock;
pub mod crypto;
pub mod encode;
pub mod inject;
pub mod net;
pub mod proto;
pub mod text;
pub mod wol;
