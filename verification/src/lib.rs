//! A client for the rich-presence IPC channel of a locally running desktop
//! application: length-prefixed JSON frames, a handshake, activity updates and
//! recovery by reconnecting.
//!
//! The frame codec, the session logic above a byte transport, the shaping of
//! activity payloads and the decisions of the profile driver are verified.
//! Calls into `serde_json`, `uuid` and `config` stand behind small trusted
//! wrappers whose contracts are assumed, not proved.

pub mod activity;
pub mod config;
pub mod discord_ipc;
pub mod driver;
pub mod error;
pub mod json;
pub mod loopback;
pub mod nonce;
pub mod pack_unpack;
pub mod text;

pub use config::{RPCConfig, RPCProfile};
pub use discord_ipc::{DiscordIpc, DiscordRpcError};
pub use error::Error;
pub use loopback::Loopback;
