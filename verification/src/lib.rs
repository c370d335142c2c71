//! Standalone Complex core library: identity (BIP-39 / SLIP-0010 keys, KERI
//! event logs, the encrypted vault), the Ghost Service Protocol framing, DHT
//! coordinate records, the daemon IPC protocol and the command-line parser.

pub mod error;
pub mod bytes;
pub mod text;
pub mod encoding;
pub mod primitives;
pub mod keys;
pub mod bip39;
pub mod json;
pub mod keri;
pub mod persona;
pub mod vault;
pub mod wire;
pub mod gsp;
pub mod dht;
pub mod proto;
pub mod shell_proto;
pub mod cli;
pub mod display;
pub mod daemon;
pub mod net;
pub mod runtime;
