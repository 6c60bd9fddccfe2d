//! The audio codec interface the engine drives, in the form the bridge
//! builds with when no Opus library is linked: every call succeeds and
//! nothing is encoded.

use vstd::prelude::*;

verus! {

/// The audio encoder.
pub struct Encoder;

/// The audio decoder.
pub struct Decoder;

/// The coding mode of the encoder.
pub enum Application {
    Audio,
}

/// The channel layout of the stream.
pub enum Channels {
    Stereo,
}

/// The target bitrate of the encoder.
#[derive(PartialEq, Eq, Structural, Clone, Copy, Debug)]
pub enum Bitrate {
    /// Bits per second.
    Bits(i32),
}

/// The bitrate the engine asks of the encoder for a setting of `kbps`
/// kilobits per second (1024 bits each), computed in 32-bit arithmetic
/// that wraps as the engine's does.
pub open spec fn bitrate_spec(kbps: u32) -> Bitrate {
    Bitrate::Bits((kbps as i32).wrapping_mul(1024))
}

/// The encoder bitrate for a setting of `kbps`.
pub fn bitrate_from_kbps(kbps: u32) -> (r: Bitrate)
    ensures
        r == bitrate_spec(kbps),
{
    Bitrate::Bits((kbps as i32).wrapping_mul(1024))
}

impl Encoder {
    /// Makes an encoder; this form always succeeds.
    pub fn new(_sample_rate: i32, _channels: Channels, _application: Application) -> (r: Result<
        Self,
        (),
    >)
        ensures
            r is Ok,
    {
        Ok(Encoder)
    }

    /// Sets the target bitrate; this form always succeeds.
    pub fn set_bitrate(&mut self, _bitrate: Bitrate) -> (r: Result<(), ()>)
        ensures
            r is Ok,
    {
        Ok(())
    }
}

impl Decoder {
    /// Makes a decoder; this form always succeeds.
    pub fn new(_sample_rate: i32, _channels: Channels) -> (r: Result<Self, ()>)
        ensures
            r is Ok,
    {
        Ok(Decoder)
    }
}

} // verus!
