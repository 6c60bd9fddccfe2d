//! Core logic of the AudioTX PRO bridge: packet framing, jitter buffering,
//! licensing, VPN key handling and the audio engine's decisions.

pub mod frame;
pub mod text;
pub mod license;
pub mod vpnkey;
pub mod netframe;
pub mod history;
pub mod jitter;
pub mod codec;
pub mod status;
pub mod config;
pub mod engine;
pub mod session;
pub mod tunnel;

pub use frame::{pack_bin, unpack_bin};
pub use config::{AudioCommand, Config, Tab};
pub use codec::{Application, Bitrate, Channels, Decoder, Encoder};
