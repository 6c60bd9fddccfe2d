//! The WireGuard tunnel of `boringtun` as the engine drives it: building
//! it, its timer ticks, sealing frames and reading received datagrams.

use vstd::prelude::*;
use boringtun::noise::{Tunn, TunnResult};
use crate::engine::{
    actions_view, crypto_error_prefix, decap_spec, expired_text, ActionView, engine_wf, timer_spec, tunnel_started_spec, via_tunnel, EngineAction,
    EngineState, TunnelOutput,
};
use crate::text::contains_spec;
use crate::vpnkey::KEY_LEN;

verus! {

/// The tunnel of `boringtun`.
#[verifier::external_type_specification]
#[verifier::external_body]
pub struct ExTunn(boringtun::noise::Tunn);

/// Size of the buffer the tunnel writes a sealed or read datagram into.
pub const TUNNEL_BUF: usize = 2048;

/// Size of the buffer a timer tick writes into.
pub const TICK_BUF: usize = 1420;

/// Bytes that sealing adds to a frame.
pub const SEAL_OVERHEAD: usize = 32;

/// Whether every byte sequence that `out` carries fits in `n` bytes.
pub open spec fn output_fits(out: TunnelOutput, n: nat) -> bool {
    match out {
        TunnelOutput::WriteToNetwork(d) => d@.len() <= n,
        TunnelOutput::WriteToTunnelV4(d) => d@.len() <= n,
        TunnelOutput::WriteToTunnelV6(d) => d@.len() <= n,
        _ => true,
    }
}

/// Whether `d` has the shape of one of the four WireGuard messages that
/// `Tunn::parse_incoming_packet` reads: a type byte 1 to 4 followed by
/// three zero bytes, and 148 bytes for a handshake initiation, 92 for a
/// response, 64 for a cookie reply, at least 32 for data.
pub open spec fn wireguard_shape(d: Seq<u8>) -> bool {
    &&& d.len() >= 4
    &&& d[1] == 0 && d[2] == 0 && d[3] == 0
    &&& (d[0] == 1 && d.len() == 148) || (d[0] == 2 && d.len() == 92) || (d[0] == 3 && d.len()
        == 64) || (d[0] == 4 && d.len() >= 32)
}

/// Whether `out` is what a timer tick can give: nothing, an error, a
/// 148-byte handshake initiation or a 32-byte keep-alive.
pub open spec fn tick_output(out: TunnelOutput) -> bool {
    match out {
        TunnelOutput::WriteToNetwork(d) => d@.len() == 148 || d@.len() == SEAL_OVERHEAD,
        TunnelOutput::WriteToTunnelV4(_) => false,
        TunnelOutput::WriteToTunnelV6(_) => false,
        _ => true,
    }
}

/// Calls `Tunn::new` of `boringtun::noise` with the private key and the
/// peer's public key made from 32 bytes each, no preshared key, no
/// keep-alive, the session index `index` and its own rate limiter. Its
/// only error path (the handshake parameters) never fails, so a tunnel is
/// always built; the tunnel's state is not stated.
#[verifier::external_body]
fn tunnel_new(private_key: &[u8], peer_key: &[u8], index: u32) -> (r: Option<Tunn>)
    requires
        private_key@.len() == KEY_LEN,
        peer_key@.len() == KEY_LEN,
    ensures
        r is Some,
{
    let p: [u8; 32] = private_key.try_into().unwrap();
    let q: [u8; 32] = peer_key.try_into().unwrap();
    let s = boringtun::x25519::StaticSecret::from(p);
    let k = boringtun::x25519::PublicKey::from(q);
    Tunn::new(s, k, None, None, index, None).ok()
}

/// Calls `Tunn::update_timers` with a buffer of `TICK_BUF` bytes and gives
/// its result as a `TunnelOutput` (an error in its `Debug` text). What it
/// gives depends on the clock and the session. Of every outcome it is
/// stated that it is nothing, an error, a 148-byte handshake initiation or
/// a 32-byte keep-alive; it never gives a decrypted packet.
#[verifier::external_body]
fn tunnel_update_timers(t: &mut Tunn) -> (r: TunnelOutput)
    ensures
        output_fits(r, TICK_BUF as nat),
        tick_output(r),
{
    let mut buf = [0u8; 1420];
    match t.update_timers(&mut buf) {
        TunnResult::Done => TunnelOutput::Done,
        TunnResult::Err(e) => TunnelOutput::Error(format!("{:?}", e)),
        TunnResult::WriteToNetwork(d) => TunnelOutput::WriteToNetwork(d.to_vec()),
        TunnResult::WriteToTunnelV4(d, _) => TunnelOutput::WriteToTunnelV4(d.to_vec()),
        TunnResult::WriteToTunnelV6(d, _) => TunnelOutput::WriteToTunnelV6(d.to_vec()),
    }
}

/// Calls `Tunn::encapsulate` on `frame` with a buffer of `TUNNEL_BUF`
/// bytes, which must hold the frame and the 32 bytes sealing adds (the
/// function panics otherwise). The sealed bytes depend on the session's
/// keys and counters. Of every outcome it is stated that it is the sealed
/// frame (16 header bytes, the frame, a 16-byte tag) when a session is up,
/// else (the frame queued) a 148-byte handshake initiation, nothing or an
/// error; it never gives a decrypted packet.
#[verifier::external_body]
fn tunnel_encapsulate(t: &mut Tunn, frame: &[u8]) -> (r: TunnelOutput)
    requires
        frame@.len() + SEAL_OVERHEAD <= TUNNEL_BUF,
    ensures
        output_fits(r, TUNNEL_BUF as nat),
        match r {
            TunnelOutput::WriteToNetwork(d) => d@.len() == frame@.len() + SEAL_OVERHEAD || d@.len()
                == 148,
            TunnelOutput::WriteToTunnelV4(_) => false,
            TunnelOutput::WriteToTunnelV6(_) => false,
            _ => true,
        },
{
    let mut buf = [0u8; 2048];
    match t.encapsulate(frame, &mut buf) {
        TunnResult::Done => TunnelOutput::Done,
        TunnResult::Err(e) => TunnelOutput::Error(format!("{:?}", e)),
        TunnResult::WriteToNetwork(d) => TunnelOutput::WriteToNetwork(d.to_vec()),
        TunnResult::WriteToTunnelV4(d, _) => TunnelOutput::WriteToTunnelV4(d.to_vec()),
        TunnResult::WriteToTunnelV6(d, _) => TunnelOutput::WriteToTunnelV6(d.to_vec()),
    }
}

/// Calls `Tunn::decapsulate` on `datagram` with the source address
/// `a.b.c.d` and a buffer of `TUNNEL_BUF` bytes, which must hold what the
/// datagram decrypts to (the function panics otherwise; an empty datagram
/// sends a queued frame, and every queued frame was handed in through
/// `tunnel_encapsulate`, so it fits too). The address matters only to the
/// rate limiter's cookies under load. What a well-shaped datagram gives
/// depends on the session; it is stated that an empty datagram gives
/// nothing or a queued frame to send, and that a datagram of another shape
/// is refused as an invalid packet.
#[verifier::external_body]
fn tunnel_decapsulate(t: &mut Tunn, datagram: &[u8], a: u8, b: u8, c: u8, d: u8) -> (r: TunnelOutput)
    requires
        datagram@.len() <= TUNNEL_BUF,
    ensures
        output_fits(r, TUNNEL_BUF as nat),
        match r {
            TunnelOutput::Done => datagram@.len() == 0 || wireguard_shape(datagram@),
            TunnelOutput::WriteToNetwork(_) => datagram@.len() == 0 || wireguard_shape(datagram@),
            TunnelOutput::Error(e) => datagram@.len() > 0 && (wireguard_shape(datagram@) || e@
                == "InvalidPacket"@),
            _ => datagram@.len() > 0 && wireguard_shape(datagram@),
        },
{
    let mut buf = [0u8; 2048];
    let src = core::net::IpAddr::V4(core::net::Ipv4Addr::new(a, b, c, d));
    match t.decapsulate(Some(src), datagram, &mut buf) {
        TunnResult::Done => TunnelOutput::Done,
        TunnResult::Err(e) => TunnelOutput::Error(format!("{:?}", e)),
        TunnResult::WriteToNetwork(d) => TunnelOutput::WriteToNetwork(d.to_vec()),
        TunnResult::WriteToTunnelV4(d, _) => TunnelOutput::WriteToTunnelV4(d.to_vec()),
        TunnResult::WriteToTunnelV6(d, _) => TunnelOutput::WriteToTunnelV6(d.to_vec()),
    }
}

/// Calls `Rng::gen_range(1000..16777215)` on `rand::thread_rng()`; the
/// number is random, and only its range is stated.
#[verifier::external_body]
fn random_session_index() -> (r: u32)
    ensures
        1000 <= r < 16777215,
{
    rand::Rng::gen_range(&mut rand::thread_rng(), 1000..16777215)
}

/// The bytes a tunnel result has for the network, if any.
pub fn network_bytes(out: TunnelOutput) -> (r: Option<Vec<u8>>)
    ensures
        match out {
            TunnelOutput::WriteToNetwork(d) => r matches Some(x) && x@ == d@,
            _ => r is None,
        },
{
    match out {
        TunnelOutput::WriteToNetwork(d) => Some(d),
        _ => None,
    }
}

/// Seals `frame` for the network through the tunnel `t`: the sealed
/// datagram to send, or nothing when the tunnel gives none.
pub fn seal_frame(t: &mut Tunn, frame: &[u8]) -> (r: Option<Vec<u8>>)
    requires
        frame@.len() + SEAL_OVERHEAD <= TUNNEL_BUF,
    ensures
        r matches Some(x) ==> x@.len() == frame@.len() + SEAL_OVERHEAD || x@.len() == 148,
{
    network_bytes(tunnel_encapsulate(t, frame))
}

impl EngineState {
    /// Builds the tunnel from the two keys (session index 1 at start-up, a
    /// random one when the VPN is switched on again) and acts on what its
    /// first timer tick gives; see `tunnel_started`.
    pub fn start_tunnel(&mut self, private_key: &[u8], peer_key: &[u8], at_startup: bool) -> (r: (
        Tunn,
        Vec<EngineAction>,
    ))
        requires
            engine_wf(old(self)@),
            old(self)@.vpn_enabled,
            private_key@.len() == KEY_LEN,
            peer_key@.len() == KEY_LEN,
        ensures
            engine_wf(final(self)@),
            final(self)@.tunnel_up,
            exists|out: TunnelOutput|
                tick_output(out) && final(self)@ == #[trigger] tunnel_started_spec(
                    old(self)@,
                    at_startup,
                    out,
                ).0 && actions_view(r.1@) == tunnel_started_spec(old(self)@, at_startup, out).1,
    {
        let index: u32 = if at_startup {
            1
        } else {
            random_session_index()
        };
        let mut t = tunnel_new(private_key, peer_key, index).unwrap();
        let out = tunnel_update_timers(&mut t);
        let ghost o = out;
        let acts = self.tunnel_started(at_startup, out);
        assert(self@ == tunnel_started_spec(old(self)@, at_startup, o).0);
        (t, acts)
    }

    /// A timer tick of the tunnel `t`; see `on_timer`.
    pub fn tick_tunnel(&mut self, t: &mut Tunn) -> (r: Vec<EngineAction>)
        requires
            engine_wf(old(self)@),
            via_tunnel(old(self)@),
        ensures
            engine_wf(final(self)@),
            exists|out: TunnelOutput|
                tick_output(out) && final(self)@ == #[trigger] timer_spec(old(self)@, out).0
                    && actions_view(r@) == timer_spec(old(self)@, out).1,
    {
        let out = tunnel_update_timers(t);
        let ghost o = out;
        let acts = self.on_timer(out);
        assert(self@ == timer_spec(old(self)@, o).0);
        acts
    }

    /// Reads the received `datagram` through the tunnel `t`, as coming from
    /// the tunnel gateway; see `on_decapsulated`.
    pub fn read_through_tunnel(&mut self, t: &mut Tunn, datagram: &[u8]) -> (r: (
        Option<Vec<u8>>,
        Vec<EngineAction>,
    ))
        requires
            engine_wf(old(self)@),
            via_tunnel(old(self)@),
            datagram@.len() <= TUNNEL_BUF,
        ensures
            engine_wf(final(self)@),
            exists|out: TunnelOutput|
                {
                    &&& datagram@.len() == 0 ==> out is Done || out is WriteToNetwork
                    &&& datagram@.len() > 0 && !wireguard_shape(datagram@) ==> (
                    out matches TunnelOutput::Error(e) && e@ == "InvalidPacket"@)
                    &&& final(self)@ == #[trigger] decap_spec(old(self)@, out).0
                    &&& actions_view(r.1@) == decap_spec(old(self)@, out).2
                    &&& match r.0 {
                        Some(p) => decap_spec(old(self)@, out).1 == Some(p@),
                        None => decap_spec(old(self)@, out).1 is None,
                    }
                },
            datagram@.len() > 0 && !wireguard_shape(datagram@) ==> {
                &&& final(self)@ == old(self)@
                &&& r.0 is None
                &&& actions_view(r.1@) == seq![
                    ActionView::Log(crypto_error_prefix() + "InvalidPacket"@),
                ]
            },
    {
        let out = tunnel_decapsulate(t, datagram, 192, 168, 11, 1);
        let ghost o = out;
        let r = self.on_decapsulated(out);
        proof {
            reveal_strlit("InvalidPacket");
            reveal_strlit("ConnectionExpired");
            assert(!contains_spec("InvalidPacket"@, expired_text()));
        }
        assert(self@ == decap_spec(old(self)@, o).0);
        r
    }
}

} // verus!
