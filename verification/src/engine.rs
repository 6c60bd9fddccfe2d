//! The decisions of the audio engine. The engine's thread performs the
//! input and output (sockets, audio devices, timers) and reports what
//! happened, and the tunnel's results reach it through `tunnel`; this state
//! machine decides what to send, what to hold, what to play and what to
//! log.

use vstd::prelude::*;
use crate::codec::{bitrate_from_kbps, bitrate_spec, Bitrate};
use crate::config::{AudioCommand, Config};
use crate::frame::{frame_bytes, pack_bin, parse_frame, unpack_bin, CTRL_AUDIO, CTRL_END, CTRL_PING};
use crate::jitter::{playout_spec, JitterBuffer};
use crate::netframe::{dest_port_from_target, dest_port_spec, ping_frame, ping_frame_spec, vpn_audio_frame, vpn_audio_frame_spec};
use crate::text::{contains_chars, contains_spec, decimal_string, decimal_text, str_chars};
use crate::vpnkey::{decode_key, decode_key_spec};

verus! {

/// Length of one audio packet in milliseconds.
pub const PACKET_MS: u32 = 20;

/// Largest playout delay, in packets, that a setting can ask for.
pub const MAX_DELAY_PACKETS: usize = 214748364;

/// The socket a datagram leaves by: the one in use now (the local port can
/// be changed), or the one opened at start-up.
#[derive(PartialEq, Eq, Structural, Clone, Copy, Debug)]
pub enum Socket {
    Current,
    Initial,
}

/// Where a datagram goes.
pub enum Destination {
    /// The target address `host:port` set by the user.
    Target(String),
    /// The VPN server's endpoint.
    Endpoint,
    /// The address the initial socket is connected to.
    Connected,
}

/// A destination with its address taken as characters.
pub enum DestinationView {
    Target(Seq<char>),
    Endpoint,
    Connected,
}

impl View for Destination {
    type V = DestinationView;

    open spec fn view(&self) -> DestinationView {
        match self {
            Destination::Target(t) => DestinationView::Target(t@),
            Destination::Endpoint => DestinationView::Endpoint,
            Destination::Connected => DestinationView::Connected,
        }
    }
}

/// What the engine's thread is to do.
pub enum EngineAction {
    /// Send `bytes` as one datagram.
    Send { socket: Socket, dest: Destination, bytes: Vec<u8> },
    /// Pass `frame` through the tunnel and send what it gives for the
    /// network.
    Encapsulate { socket: Socket, dest: Destination, frame: Vec<u8> },
    /// Append a line to the VPN log, keeping it bounded.
    Log(String),
    /// Append a line to the VPN log as it is.
    LogAppend(String),
    /// Empty the VPN log.
    LogClear,
    /// Set the encoder's bitrate.
    SetBitrate(Bitrate),
    /// Open the named input device.
    OpenInput(String),
    /// Open the named output device.
    OpenOutput(String),
    /// Bind a new socket to the given local port and use it from now on.
    Rebind(u16),
    /// Drop the tunnel.
    DropTunnel,
    /// Read the VPN settings from the saved settings again.
    ReloadVpnSettings,
}

/// An action with its texts and bytes taken as sequences.
pub enum ActionView {
    Send { socket: Socket, dest: DestinationView, bytes: Seq<u8> },
    Encapsulate { socket: Socket, dest: DestinationView, frame: Seq<u8> },
    Log(Seq<char>),
    LogAppend(Seq<char>),
    LogClear,
    SetBitrate(Bitrate),
    OpenInput(Seq<char>),
    OpenOutput(Seq<char>),
    Rebind(u16),
    DropTunnel,
    ReloadVpnSettings,
}

impl View for EngineAction {
    type V = ActionView;

    open spec fn view(&self) -> ActionView {
        match self {
            EngineAction::Send { socket, dest, bytes } => ActionView::Send {
                socket: *socket,
                dest: dest@,
                bytes: bytes@,
            },
            EngineAction::Encapsulate { socket, dest, frame } => ActionView::Encapsulate {
                socket: *socket,
                dest: dest@,
                frame: frame@,
            },
            EngineAction::Log(s) => ActionView::Log(s@),
            EngineAction::LogAppend(s) => ActionView::LogAppend(s@),
            EngineAction::LogClear => ActionView::LogClear,
            EngineAction::SetBitrate(b) => ActionView::SetBitrate(*b),
            EngineAction::OpenInput(s) => ActionView::OpenInput(s@),
            EngineAction::OpenOutput(s) => ActionView::OpenOutput(s@),
            EngineAction::Rebind(p) => ActionView::Rebind(*p),
            EngineAction::DropTunnel => ActionView::DropTunnel,
            EngineAction::ReloadVpnSettings => ActionView::ReloadVpnSettings,
        }
    }
}

/// A list of actions taken as views.
pub open spec fn actions_view(a: Seq<EngineAction>) -> Seq<ActionView> {
    a.map_values(|x: EngineAction| x@)
}

/// What the tunnel gave back for a datagram or a timer tick.
pub enum TunnelOutput {
    /// Nothing to do.
    Done,
    /// An error, in the tunnel's own words.
    Error(String),
    /// Bytes to send to the network.
    WriteToNetwork(Vec<u8>),
    /// A decrypted IPv4 packet.
    WriteToTunnelV4(Vec<u8>),
    /// A decrypted IPv6 packet.
    WriteToTunnelV6(Vec<u8>),
}

/// What to do with captured audio this round.
#[derive(PartialEq, Eq, Structural, Clone, Copy, Debug)]
pub enum TxGate {
    /// Encode and send a packet when enough audio is waiting.
    Transmit,
    /// Throw the captured audio away: transmitting without a license.
    DiscardInput,
    /// Nothing.
    Idle,
}

/// What a received payload was.
#[derive(PartialEq, Eq, Structural, Clone, Copy, Debug)]
pub enum RxEvent {
    /// An audio frame, now held for playout.
    Audio,
    /// The end of a transmission; held frames were dropped.
    EndOfStream,
    /// A frame of another kind, such as a ping.
    Other,
    /// Not a frame.
    Ignored,
}

/// The engine's state.
pub struct EngineState {
    /// Where audio is sent, `host:port`.
    pub target: String,
    /// Frames held before playout starts.
    pub delay_pkts: usize,
    /// Whether the user is transmitting.
    pub active: bool,
    /// Whether the license is active.
    pub licensed: bool,
    /// Whether the VPN is switched on.
    pub vpn_enabled: bool,
    /// Whether a tunnel exists.
    pub tunnel_up: bool,
    /// Sequence number of the next audio frame.
    pub seq_tx: u64,
    /// Received frames waiting for playout.
    pub jitter: JitterBuffer,
    /// Bytes sent since the last one-second tick.
    pub bytes_tx: usize,
    /// Bytes received since the last one-second tick.
    pub bytes_rx: usize,
    /// The tunnel state: 0 off, 1 linking, 2 encrypted, 3 error.
    pub vpn_status: u32,
    /// The local UDP port from the settings.
    pub local_port: u16,
    /// The destination port of audio envelopes, read from the target at
    /// start-up.
    pub dest_port: u16,
    /// The local tunnel address text.
    pub vpn_local_ip: String,
    /// The allowed-addresses text of the tunnel.
    pub vpn_allowed_ips: String,
}

/// The engine's state with texts, bytes and frames taken as values.
pub struct EngineView {
    pub target: Seq<char>,
    pub delay_pkts: usize,
    pub active: bool,
    pub licensed: bool,
    pub vpn_enabled: bool,
    pub tunnel_up: bool,
    pub seq_tx: u64,
    pub jitter: Map<u64, Seq<u8>>,
    pub bytes_tx: usize,
    pub bytes_rx: usize,
    pub vpn_status: u32,
    pub local_port: u16,
    pub dest_port: u16,
    pub vpn_local_ip: Seq<char>,
    pub vpn_allowed_ips: Seq<char>,
}

impl View for EngineState {
    type V = EngineView;

    open spec fn view(&self) -> EngineView {
        EngineView {
            target: self.target@,
            delay_pkts: self.delay_pkts,
            active: self.active,
            licensed: self.licensed,
            vpn_enabled: self.vpn_enabled,
            tunnel_up: self.tunnel_up,
            seq_tx: self.seq_tx,
            jitter: self.jitter@,
            bytes_tx: self.bytes_tx,
            bytes_rx: self.bytes_rx,
            vpn_status: self.vpn_status,
            local_port: self.local_port,
            dest_port: self.dest_port,
            vpn_local_ip: self.vpn_local_ip@,
            vpn_allowed_ips: self.vpn_allowed_ips@,
        }
    }
}

/// Whether audio goes through the tunnel.
pub open spec fn via_tunnel(v: EngineView) -> bool {
    v.vpn_enabled && v.tunnel_up
}

/// The bytes of the packet that ends a transmission.
pub open spec fn end_frame() -> Seq<u8> {
    frame_bytes(0, CTRL_END, seq![])
}

/// The bytes of the once-a-second keep-alive packet.
pub open spec fn ping_frame_bytes() -> Seq<u8> {
    frame_bytes(0, CTRL_PING, vstd::utf8::encode_utf8("PING_AUDIO_TX"@))
}

/// What receiving the payload `raw` of an `n`-byte datagram makes of the
/// state: with the VPN on, the first eight bytes of a longer payload are
/// skipped; a frame then counts the datagram's bytes; an audio frame is
/// held under its sequence number and an end frame drops all held frames.
pub open spec fn rx_spec(v: EngineView, raw: Seq<u8>, n: usize) -> (EngineView, RxEvent) {
    let data = if v.vpn_enabled && raw.len() > 8 {
        raw.skip(8)
    } else {
        raw
    };
    match parse_frame(data) {
        None => (v, RxEvent::Ignored),
        Some((s, c, d)) => {
            let w = EngineView { bytes_rx: v.bytes_rx.wrapping_add(n), ..v };
            if c == CTRL_AUDIO {
                (EngineView { jitter: v.jitter.insert(s, d), ..w }, RxEvent::Audio)
            } else if c == CTRL_END {
                (EngineView { jitter: Map::empty(), ..w }, RxEvent::EndOfStream)
            } else {
                (w, RxEvent::Other)
            }
        },
    }
}

/// The engine's state well formed: the playout delay is one a setting can
/// give, the tunnel state is one of its four values, and with the VPN
/// switched off there is no tunnel and the state reads "off".
pub open spec fn engine_wf(v: EngineView) -> bool {
    &&& v.delay_pkts <= MAX_DELAY_PACKETS
    &&& v.vpn_status <= 3
    &&& !v.vpn_enabled ==> v.vpn_status == 0 && !v.tunnel_up
}

impl EngineState {
    /// The state at start-up, from the settings and the license check.
    pub fn new(cfg: &Config, licensed: bool) -> (r: Self)
        ensures
            r@ == (EngineView {
                target: cfg.target_ip@,
                delay_pkts: (cfg.buffer_size_ms / PACKET_MS) as usize,
                active: cfg.autostart,
                licensed,
                vpn_enabled: cfg.vpn_enabled,
                tunnel_up: false,
                seq_tx: 0,
                jitter: Map::empty(),
                bytes_tx: 0,
                bytes_rx: 0,
                vpn_status: 0,
                local_port: cfg.local_port,
                dest_port: dest_port_spec(cfg.target_ip@),
                vpn_local_ip: cfg.vpn_local_ip@,
                vpn_allowed_ips: cfg.vpn_allowed_ips@,
            }),
            engine_wf(r@),
    {
        EngineState {
            target: cfg.target_ip.clone(),
            delay_pkts: (cfg.buffer_size_ms / PACKET_MS) as usize,
            active: cfg.autostart,
            licensed,
            vpn_enabled: cfg.vpn_enabled,
            tunnel_up: false,
            seq_tx: 0,
            jitter: JitterBuffer::new(),
            bytes_tx: 0,
            bytes_rx: 0,
            vpn_status: 0,
            local_port: cfg.local_port,
            dest_port: dest_port_from_target(cfg.target_ip.as_str()),
            vpn_local_ip: cfg.vpn_local_ip.clone(),
            vpn_allowed_ips: cfg.vpn_allowed_ips.clone(),
        }
    }
}

/// The log line when the user switches the VPN off.
pub open spec fn vpn_off_line() -> Seq<char> {
    "⚪ Interfaccia VPN disattivata dall'utente. Tunnel rimosso."@
}

/// The log line when the user switches the VPN on.
pub open spec fn vpn_wake_line() -> Seq<char> {
    "🔄 [VPN] Thread risvegliato. Caricamento identità crittografica..."@
}

/// How the packet that ends a transmission leaves: through the tunnel to
/// the endpoint when the VPN is up, else to the target.
pub open spec fn end_of_stream_view(v: EngineView) -> ActionView {
    if via_tunnel(v) {
        ActionView::Encapsulate { socket: Socket::Current, dest: DestinationView::Endpoint, frame: end_frame() }
    } else {
        ActionView::Send { socket: Socket::Current, dest: DestinationView::Target(v.target), bytes: end_frame() }
    }
}

/// What a command from an interface makes of the state, and the actions it
/// asks for.
pub open spec fn command_spec(v: EngineView, cmd: AudioCommand) -> (EngineView, Seq<ActionView>) {
    match cmd {
        AudioCommand::SetTransmitting(on) => if !on && v.active {
            (EngineView { active: on, jitter: Map::empty(), ..v }, seq![end_of_stream_view(v)])
        } else {
            (EngineView { active: on, ..v }, Seq::empty())
        },
        AudioCommand::UpdateTarget(t) => (EngineView { target: t@, ..v }, Seq::empty()),
        AudioCommand::UpdateBitrate(b) => (v, seq![ActionView::SetBitrate(bitrate_spec(b))]),
        AudioCommand::UpdateBufferSize(ms) => (
            EngineView { delay_pkts: (ms / PACKET_MS) as usize, jitter: Map::empty(), ..v },
            Seq::empty(),
        ),
        AudioCommand::UpdateInputDevice(n) => (v, seq![ActionView::OpenInput(n@)]),
        AudioCommand::UpdateOutputDevice(n) => (v, seq![ActionView::OpenOutput(n@)]),
        AudioCommand::UpdateAuth(on) => (EngineView { licensed: on, ..v }, Seq::empty()),
        AudioCommand::UpdateLocalPort(p) => (v, seq![ActionView::Rebind(p)]),
        AudioCommand::UpdateVpnEnabled(on) => if on {
            (
                EngineView { vpn_enabled: true, vpn_status: 1, ..v },
                seq![ActionView::LogAppend(vpn_wake_line()), ActionView::ReloadVpnSettings],
            )
        } else {
            (
                EngineView { vpn_enabled: false, tunnel_up: false, vpn_status: 0, ..v },
                seq![ActionView::DropTunnel, ActionView::LogClear, ActionView::LogAppend(vpn_off_line())],
            )
        },
    }
}

impl EngineState {
    /// How the end-of-stream packet is sent.
    fn end_of_stream_action(&self) -> (r: EngineAction)
        ensures
            r@ == end_of_stream_view(self@),
    {
        let empty: Vec<u8> = Vec::new();
        let pkt = pack_bin(0, CTRL_END, empty.as_slice());
        assert(empty@ =~= Seq::<u8>::empty());
        if self.vpn_enabled && self.tunnel_up {
            EngineAction::Encapsulate { socket: Socket::Current, dest: Destination::Endpoint, frame: pkt }
        } else {
            EngineAction::Send {
                socket: Socket::Current,
                dest: Destination::Target(self.target.clone()),
                bytes: pkt,
            }
        }
    }

    /// Carries out a command from an interface.
    pub fn handle_command(&mut self, cmd: AudioCommand) -> (r: Vec<EngineAction>)
        requires
            engine_wf(old(self)@),
        ensures
            engine_wf(final(self)@),
            final(self)@ == command_spec(old(self)@, cmd).0,
            actions_view(r@) == command_spec(old(self)@, cmd).1,
    {
        let mut acts: Vec<EngineAction> = Vec::new();
        match cmd {
            AudioCommand::SetTransmitting(on) => {
                if !on && self.active {
                    let act = self.end_of_stream_action();
                    acts.push(act);
                    self.jitter.clear();
                }
                self.active = on;
            },
            AudioCommand::UpdateTarget(t) => {
                self.target = t;
            },
            AudioCommand::UpdateBitrate(b) => {
                acts.push(EngineAction::SetBitrate(bitrate_from_kbps(b)));
            },
            AudioCommand::UpdateBufferSize(ms) => {
                self.delay_pkts = (ms / PACKET_MS) as usize;
                self.jitter.clear();
            },
            AudioCommand::UpdateInputDevice(n) => {
                acts.push(EngineAction::OpenInput(n));
            },
            AudioCommand::UpdateOutputDevice(n) => {
                acts.push(EngineAction::OpenOutput(n));
            },
            AudioCommand::UpdateAuth(on) => {
                self.licensed = on;
            },
            AudioCommand::UpdateLocalPort(p) => {
                acts.push(EngineAction::Rebind(p));
            },
            AudioCommand::UpdateVpnEnabled(on) => {
                self.vpn_enabled = on;
                if !on {
                    self.tunnel_up = false;
                    self.vpn_status = 0;
                    acts.push(EngineAction::DropTunnel);
                    acts.push(EngineAction::LogClear);
                    acts.push(
                        EngineAction::LogAppend(
                            String::from_str(
                                "⚪ Interfaccia VPN disattivata dall'utente. Tunnel rimosso.",
                            ),
                        ),
                    );
                } else {
                    self.vpn_status = 1;
                    acts.push(
                        EngineAction::LogAppend(
                            String::from_str(
                                "🔄 [VPN] Thread risvegliato. Caricamento identità crittografica...",
                            ),
                        ),
                    );
                    acts.push(EngineAction::ReloadVpnSettings);
                }
            },
        }
        acts
    }
}

/// The log line when the VPN endpoint's name does not resolve.
pub open spec fn dns_fail_line() -> Seq<char> {
    "❌ Impossibile avviare VPN: Risoluzione DNS dell'endpoint fallita."@
}

/// The log line when the tunnel is being set up at start-up.
pub open spec fn vpn_init_line() -> Seq<char> {
    "🔒 Inizializzazione modulo VPN WireGuard..."@
}

/// The prefix of the log line naming the allowed addresses at start-up.
pub open spec fn route_line_prefix() -> Seq<char> {
    "🔒 [VPN] Registro rotta dinamica di ascolto: "@
}

/// The log line when the keys do not read at start-up.
pub open spec fn bad_keys_line() -> Seq<char> {
    "⚠️ Errore crittografico: Chiavi non conformi."@
}

/// The prefix of the log line naming the allowed addresses when the VPN is
/// switched on again.
pub open spec fn route_check_prefix() -> Seq<char> {
    "🔒 [VPN] Controllo e validazione rotte operative: "@
}

/// The log line when the keys do not read as the VPN is switched on again.
pub open spec fn bad_keys_restart_line() -> Seq<char> {
    "❌ Impossibile attivare VPN: Verificare formato chiavi Base64."@
}

/// The log line when the first handshake leaves at start-up.
pub open spec fn first_handshake_line() -> Seq<char> {
    "🚀 [VPN] Primo pacchetto di Handshake inviato al MikroTik."@
}

/// The log line when a handshake leaves as the VPN is switched on again.
pub open spec fn restart_handshake_line() -> Seq<char> {
    "🚀 [VPN] Inviato Handshake Initiation al MikroTik."@
}

/// The private and peer keys when both read as 32-byte keys.
pub open spec fn keys_spec(private_key: Seq<char>, peer_key: Seq<char>) -> Option<(Seq<u8>, Seq<u8>)> {
    match (decode_key_spec(private_key), decode_key_spec(peer_key)) {
        (Some(a), Some(b)) => Some((a, b)),
        _ => None,
    }
}

/// Reads both keys.
fn read_keys(private_key: &str, peer_key: &str) -> (r: Option<(Vec<u8>, Vec<u8>)>)
    ensures
        match r {
            Some((a, b)) => keys_spec(private_key@, peer_key@) == Some((a@, b@)),
            None => keys_spec(private_key@, peer_key@) is None,
        },
{
    let a = decode_key(private_key);
    let b = decode_key(peer_key);
    match (a, b) {
        (Some(a), Some(b)) => Some((a, b)),
        _ => None,
    }
}

/// A string holding `prefix` followed by `rest`.
fn concat_text(prefix: &str, rest: &str) -> (r: String)
    ensures
        r@ == prefix@ + rest@,
{
    let mut s = String::from_str(prefix);
    s.append(rest);
    s
}

/// What switching the VPN on again makes of the state, given the key
/// texts: the keys to build the tunnel from when both read, and the log
/// lines; keys that do not read show the error state.
pub open spec fn restart_spec(v: EngineView, private_key: Seq<char>, peer_key: Seq<char>) -> (
    EngineView,
    Option<(Seq<u8>, Seq<u8>)>,
    Seq<ActionView>,
) {
    match keys_spec(private_key, peer_key) {
        Some(k) => (v, Some(k), seq![ActionView::LogAppend(route_check_prefix() + v.vpn_allowed_ips)]),
        None => (
            EngineView { vpn_status: 3, ..v },
            None,
            seq![ActionView::LogAppend(bad_keys_restart_line())],
        ),
    }
}

/// What building a tunnel makes of the state, given what its first timer
/// tick gave: a handshake to send (through the socket in use at start-up,
/// through the initial socket when the VPN is switched on again) and its
/// log line.
pub open spec fn tunnel_started_spec(v: EngineView, at_startup: bool, out: TunnelOutput) -> (
    EngineView,
    Seq<ActionView>,
) {
    (
        EngineView { tunnel_up: true, ..v },
        match out {
            TunnelOutput::WriteToNetwork(d) => if at_startup {
                seq![
                    ActionView::Send { socket: Socket::Current, dest: DestinationView::Endpoint, bytes: d@ },
                    ActionView::Log(first_handshake_line()),
                ]
            } else {
                seq![
                    ActionView::Send { socket: Socket::Initial, dest: DestinationView::Endpoint, bytes: d@ },
                    ActionView::LogAppend(restart_handshake_line()),
                ]
            },
            _ => Seq::empty(),
        },
    )
}

/// The top of a round: a switched-on tunnel whose state reads "off" is
/// shown as linking.
pub open spec fn round_spec(v: EngineView) -> EngineView {
    if via_tunnel(v) && v.vpn_status == 0 {
        EngineView { vpn_status: 1, ..v }
    } else {
        v
    }
}

impl EngineState {
    /// Decides the VPN set-up at start-up, given whether the endpoint's
    /// name resolved and the key texts: the keys to build the tunnel from
    /// when both read, and the log lines.
    pub fn vpn_startup(&mut self, endpoint_resolved: bool, private_key: &str, peer_key: &str) -> (r: (
        Option<(Vec<u8>, Vec<u8>)>,
        Vec<EngineAction>,
    ))
        requires
            engine_wf(old(self)@),
        ensures
            engine_wf(final(self)@),
            ({
                let v = old(self)@;
                let w = final(self)@;
                let a = actions_view(r.1@);
                let dns = if endpoint_resolved {
                    Seq::<ActionView>::empty()
                } else {
                    seq![ActionView::Log(dns_fail_line())]
                };
                if !v.vpn_enabled {
                    w == EngineView { vpn_status: 0, ..v } && r.0 is None && a
                        == Seq::<ActionView>::empty()
                } else {
                    match keys_spec(private_key@, peer_key@) {
                        Some(k) => {
                            &&& w == EngineView { vpn_status: 1, ..v }
                            &&& r.0 matches Some((p, q)) && (p@, q@) == k
                            &&& a == dns + seq![
                                ActionView::Log(vpn_init_line()),
                                ActionView::Log(route_line_prefix() + v.vpn_allowed_ips),
                            ]
                        },
                        None => {
                            &&& w == EngineView { vpn_status: 3, ..v }
                            &&& r.0 is None
                            &&& a == dns + seq![ActionView::Log(bad_keys_line())]
                        },
                    }
                }
            }),
    {
        let mut acts: Vec<EngineAction> = Vec::new();
        if !self.vpn_enabled {
            self.vpn_status = 0;
            return (None, acts);
        }
        if !endpoint_resolved {
            acts.push(
                EngineAction::Log(
                    String::from_str(
                        "❌ Impossibile avviare VPN: Risoluzione DNS dell'endpoint fallita.",
                    ),
                ),
            );
            self.vpn_status = 3;
        }
        let ghost before = actions_view(acts@);
        match read_keys(private_key, peer_key) {
            Some(k) => {
                acts.push(
                    EngineAction::Log(String::from_str("🔒 Inizializzazione modulo VPN WireGuard...")),
                );
                self.vpn_status = 1;
                acts.push(
                    EngineAction::Log(
                        concat_text(
                            "🔒 [VPN] Registro rotta dinamica di ascolto: ",
                            self.vpn_allowed_ips.as_str(),
                        ),
                    ),
                );
                assert(actions_view(acts@) =~= before + seq![
                    ActionView::Log(vpn_init_line()),
                    ActionView::Log(route_line_prefix() + self.vpn_allowed_ips@),
                ]);
                (Some(k), acts)
            },
            None => {
                acts.push(
                    EngineAction::Log(
                        String::from_str("⚠️ Errore crittografico: Chiavi non conformi."),
                    ),
                );
                self.vpn_status = 3;
                assert(actions_view(acts@) =~= before + seq![ActionView::Log(bad_keys_line())]);
                (None, acts)
            },
        }
    }

    /// Takes the VPN settings read again from the saved settings.
    pub fn set_vpn_settings(&mut self, local_ip: String, allowed_ips: String)
        requires
            engine_wf(old(self)@),
        ensures
            engine_wf(final(self)@),
            final(self)@ == (EngineView {
                vpn_local_ip: local_ip@,
                vpn_allowed_ips: allowed_ips@,
                ..old(self)@
            }),
    {
        self.vpn_local_ip = local_ip;
        self.vpn_allowed_ips = allowed_ips;
    }

    /// Decides the tunnel set-up when the VPN is switched on again, given
    /// the key texts: the keys to build the tunnel from when both read, and
    /// the log lines.
    pub fn vpn_restart(&mut self, private_key: &str, peer_key: &str) -> (r: (
        Option<(Vec<u8>, Vec<u8>)>,
        Vec<EngineAction>,
    ))
        requires
            engine_wf(old(self)@),
            old(self)@.vpn_enabled,
        ensures
            engine_wf(final(self)@),
            final(self)@ == restart_spec(old(self)@, private_key@, peer_key@).0,
            match r.0 {
                Some((p, q)) => restart_spec(old(self)@, private_key@, peer_key@).1 == Some(
                    (p@, q@),
                ),
                None => restart_spec(old(self)@, private_key@, peer_key@).1 is None,
            },
            actions_view(r.1@) == restart_spec(old(self)@, private_key@, peer_key@).2,
    {
        let mut acts: Vec<EngineAction> = Vec::new();
        match read_keys(private_key, peer_key) {
            Some(k) => {
                acts.push(
                    EngineAction::LogAppend(
                        concat_text(
                            "🔒 [VPN] Controllo e validazione rotte operative: ",
                            self.vpn_allowed_ips.as_str(),
                        ),
                    ),
                );
                (Some(k), acts)
            },
            None => {
                acts.push(
                    EngineAction::LogAppend(
                        String::from_str(
                            "❌ Impossibile attivare VPN: Verificare formato chiavi Base64.",
                        ),
                    ),
                );
                self.vpn_status = 3;
                (None, acts)
            },
        }
    }

    /// Records that a tunnel was built, given what its first timer tick
    /// gave: a handshake to send (through the socket in use at start-up,
    /// through the initial socket when the VPN is switched on again) and
    /// its log line.
    pub fn tunnel_started(&mut self, at_startup: bool, out: TunnelOutput) -> (r: Vec<EngineAction>)
        requires
            engine_wf(old(self)@),
            old(self)@.vpn_enabled,
        ensures
            engine_wf(final(self)@),
            final(self)@ == tunnel_started_spec(old(self)@, at_startup, out).0,
            actions_view(r@) == tunnel_started_spec(old(self)@, at_startup, out).1,
    {
        self.tunnel_up = true;
        let mut acts: Vec<EngineAction> = Vec::new();
        match out {
            TunnelOutput::WriteToNetwork(d) => {
                if at_startup {
                    acts.push(
                        EngineAction::Send { socket: Socket::Current, dest: Destination::Endpoint, bytes: d },
                    );
                    acts.push(
                        EngineAction::Log(
                            String::from_str(
                                "🚀 [VPN] Primo pacchetto di Handshake inviato al MikroTik.",
                            ),
                        ),
                    );
                } else {
                    acts.push(
                        EngineAction::Send { socket: Socket::Initial, dest: Destination::Endpoint, bytes: d },
                    );
                    acts.push(
                        EngineAction::LogAppend(
                            String::from_str("🚀 [VPN] Inviato Handshake Initiation al MikroTik."),
                        ),
                    );
                }
            },
            _ => {},
        }
        acts
    }

    /// At the top of each round: a switched-on tunnel whose state reads
    /// "off" is shown as linking.
    pub fn begin_round(&mut self)
        requires
            engine_wf(old(self)@),
        ensures
            engine_wf(final(self)@),
            final(self)@ == round_spec(old(self)@),
    {
        if self.vpn_enabled && self.tunnel_up && self.vpn_status == 0 {
            self.vpn_status = 1;
        }
    }

    /// What to do with captured audio this round.
    pub fn tx_gate(&self) -> (r: TxGate)
        ensures
            r == (if self.active && self.licensed {
                TxGate::Transmit
            } else if self.active {
                TxGate::DiscardInput
            } else {
                TxGate::Idle
            }),
    {
        if self.active && self.licensed {
            TxGate::Transmit
        } else if self.active {
            TxGate::DiscardInput
        } else {
            TxGate::Idle
        }
    }
}

/// The prefix of the log line when a handshake or keep-alive leaves.
pub open spec fn keepalive_line_prefix() -> Seq<char> {
    "🚀 Invio pacchetto Handshake/Keepalive al MikroTik ("@
}

/// The prefix of the log line for a tunnel error.
pub open spec fn crypto_error_prefix() -> Seq<char> {
    "❌ Errore crittografico: "@
}

/// The tunnel error text that is not logged.
pub open spec fn expired_text() -> Seq<char> {
    "ConnectionExpired"@
}

/// The payload of the keep-alive packet.
fn ping_payload() -> (r: Vec<u8>)
    ensures
        r@ == vstd::utf8::encode_utf8("PING_AUDIO_TX"@),
        r@.len() == 13,
{
    proof {
        reveal_strlit("PING_AUDIO_TX");
        vstd::string::is_ascii_spec_bytes("PING_AUDIO_TX");
    }
    "PING_AUDIO_TX".as_bytes_vec()
}

/// What sending the encoded audio packet `payload` makes of the state, and
/// how the packet leaves: it carries the next sequence number and goes
/// through the tunnel inside an IPv4/UDP envelope when the VPN is up, else
/// straight to the target; the bytes sent and the sequence number advance.
pub open spec fn encoded_spec(v: EngineView, payload: Seq<u8>) -> (EngineView, ActionView) {
    let pkt = frame_bytes(v.seq_tx, CTRL_AUDIO, payload);
    (
        EngineView {
            seq_tx: v.seq_tx.wrapping_add(1),
            bytes_tx: v.bytes_tx.wrapping_add(pkt.len() as usize),
            ..v
        },
        if via_tunnel(v) {
            ActionView::Encapsulate {
                socket: Socket::Initial,
                dest: DestinationView::Endpoint,
                frame: vpn_audio_frame_spec(pkt, v.vpn_local_ip, v.local_port, v.dest_port),
            }
        } else {
            ActionView::Send { socket: Socket::Current, dest: DestinationView::Target(v.target), bytes: pkt }
        },
    )
}

/// What the one-second tick makes of the state (the counters reset), and
/// how the keep-alive packet leaves: through the tunnel inside an IPv4
/// envelope when the VPN is up, else to the target.
pub open spec fn second_spec(v: EngineView) -> (EngineView, ActionView) {
    (
        EngineView { bytes_tx: 0, bytes_rx: 0, ..v },
        if via_tunnel(v) {
            ActionView::Encapsulate {
                socket: Socket::Initial,
                dest: DestinationView::Connected,
                frame: ping_frame_spec(ping_frame_bytes(), v.vpn_local_ip, v.target),
            }
        } else {
            ActionView::Send {
                socket: Socket::Initial,
                dest: DestinationView::Target(v.target),
                bytes: ping_frame_bytes(),
            }
        },
    )
}

/// What a timer tick of the tunnel makes of the state: a datagram for the
/// network is logged with its size and sent through the initial, connected
/// socket; an error is logged and shown as the error state.
pub open spec fn timer_spec(v: EngineView, out: TunnelOutput) -> (EngineView, Seq<ActionView>) {
    match out {
        TunnelOutput::WriteToNetwork(d) => (
            v,
            seq![
                ActionView::Log(keepalive_line_prefix() + decimal_text(d@.len()) + " byte)"@),
                ActionView::Send { socket: Socket::Initial, dest: DestinationView::Connected, bytes: d@ },
            ],
        ),
        TunnelOutput::Error(e) => (
            EngineView { vpn_status: 3, ..v },
            seq![ActionView::Log(crypto_error_prefix() + e@)],
        ),
        _ => (v, Seq::empty()),
    }
}

/// What the tunnel's reading of a received datagram makes of the state: a
/// decrypted IPv4 packet is the payload to read and the tunnel is shown as
/// encrypted; a reply for the network is sent to the endpoint; an error is
/// logged unless it reports an expired connection.
pub open spec fn decap_spec(v: EngineView, out: TunnelOutput) -> (
    EngineView,
    Option<Seq<u8>>,
    Seq<ActionView>,
) {
    match out {
        TunnelOutput::WriteToTunnelV4(d) => (EngineView { vpn_status: 2, ..v }, Some(d@), Seq::empty()),
        TunnelOutput::WriteToNetwork(d) => (
            EngineView { vpn_status: 2, ..v },
            None,
            seq![ActionView::Send { socket: Socket::Initial, dest: DestinationView::Endpoint, bytes: d@ }],
        ),
        TunnelOutput::Done => (EngineView { vpn_status: 2, ..v }, None, Seq::empty()),
        TunnelOutput::Error(e) => (
            v,
            None,
            if contains_spec(e@, expired_text()) {
                Seq::empty()
            } else {
                seq![ActionView::Log(crypto_error_prefix() + e@)]
            },
        ),
        TunnelOutput::WriteToTunnelV6(_) => (v, None, Seq::empty()),
    }
}

impl EngineState {
    /// Frames and routes an encoded audio packet `payload`: it carries the
    /// next sequence number, goes through the tunnel inside an IPv4/UDP
    /// envelope when the VPN is up, else straight to the target; the bytes
    /// sent and the sequence number advance.
    pub fn on_encoded(&mut self, payload: &[u8]) -> (r: EngineAction)
        requires
            engine_wf(old(self)@),
            old(self)@.active && old(self)@.licensed,
            payload@.len() + 64 <= usize::MAX,
        ensures
            engine_wf(final(self)@),
            final(self)@ == encoded_spec(old(self)@, payload@).0,
            r@ == encoded_spec(old(self)@, payload@).1,
    {
        let pkt = pack_bin(self.seq_tx, CTRL_AUDIO, payload);
        let n = pkt.len();
        let act = if self.vpn_enabled && self.tunnel_up {
            let frame = vpn_audio_frame(pkt.as_slice(), self.vpn_local_ip.as_str(), self.local_port, self.dest_port);
            EngineAction::Encapsulate { socket: Socket::Initial, dest: Destination::Endpoint, frame }
        } else {
            EngineAction::Send {
                socket: Socket::Current,
                dest: Destination::Target(self.target.clone()),
                bytes: pkt,
            }
        };
        self.bytes_tx = self.bytes_tx.wrapping_add(n);
        self.seq_tx = self.seq_tx.wrapping_add(1);
        act
    }

    /// Whether the tunnel's timers are due for a tick (once a second, timed
    /// by the caller).
    pub fn timer_applies(&self) -> (r: bool)
        ensures
            r == via_tunnel(self@),
    {
        self.vpn_enabled && self.tunnel_up
    }

    /// Acts on what a timer tick of the tunnel gave: a datagram for the
    /// network is logged with its size and sent through the initial,
    /// connected socket; an error is logged and shown as the error state.
    pub fn on_timer(&mut self, out: TunnelOutput) -> (r: Vec<EngineAction>)
        requires
            engine_wf(old(self)@),
            via_tunnel(old(self)@),
        ensures
            engine_wf(final(self)@),
            final(self)@ == timer_spec(old(self)@, out).0,
            actions_view(r@) == timer_spec(old(self)@, out).1,
    {
        let mut acts: Vec<EngineAction> = Vec::new();
        match out {
            TunnelOutput::WriteToNetwork(d) => {
                let mut line = String::from_str("🚀 Invio pacchetto Handshake/Keepalive al MikroTik (");
                let num = decimal_string(d.len());
                line.append(num.as_str());
                line.append(" byte)");
                acts.push(EngineAction::Log(line));
                acts.push(EngineAction::Send { socket: Socket::Initial, dest: Destination::Connected, bytes: d });
            },
            TunnelOutput::Error(e) => {
                acts.push(EngineAction::Log(concat_text("❌ Errore crittografico: ", e.as_str())));
                self.vpn_status = 3;
            },
            _ => {},
        }
        acts
    }

    /// Whether received datagrams pass through the tunnel first.
    pub fn decapsulates(&self) -> (r: bool)
        ensures
            r == via_tunnel(self@),
    {
        self.vpn_enabled && self.tunnel_up
    }

    /// Acts on what the tunnel made of a received datagram: a decrypted
    /// IPv4 packet is the payload to read and the tunnel is shown as
    /// encrypted; a reply for the network is sent to the endpoint; an error
    /// is logged unless it reports an expired connection.
    pub fn on_decapsulated(&mut self, out: TunnelOutput) -> (r: (Option<Vec<u8>>, Vec<EngineAction>))
        requires
            engine_wf(old(self)@),
            via_tunnel(old(self)@),
        ensures
            engine_wf(final(self)@),
            final(self)@ == decap_spec(old(self)@, out).0,
            match r.0 {
                Some(p) => decap_spec(old(self)@, out).1 == Some(p@),
                None => decap_spec(old(self)@, out).1 is None,
            },
            actions_view(r.1@) == decap_spec(old(self)@, out).2,
    {
        let mut acts: Vec<EngineAction> = Vec::new();
        match out {
            TunnelOutput::WriteToTunnelV4(d) => {
                self.vpn_status = 2;
                (Some(d), acts)
            },
            TunnelOutput::WriteToNetwork(d) => {
                self.vpn_status = 2;
                acts.push(EngineAction::Send { socket: Socket::Initial, dest: Destination::Endpoint, bytes: d });
                (None, acts)
            },
            TunnelOutput::Done => {
                self.vpn_status = 2;
                (None, acts)
            },
            TunnelOutput::Error(e) => {
                let ec = str_chars(e.as_str());
                let xc = str_chars("ConnectionExpired");
                if !contains_chars(ec.as_slice(), xc.as_slice()) {
                    acts.push(EngineAction::Log(concat_text("❌ Errore crittografico: ", e.as_str())));
                }
                (None, acts)
            },
            TunnelOutput::WriteToTunnelV6(_) => (None, acts),
        }
    }

    /// Reads the payload `raw` of a received `n`-byte datagram; see
    /// `rx_spec`.
    pub fn on_payload(&mut self, raw: &[u8], n: usize) -> (r: RxEvent)
        requires
            engine_wf(old(self)@),
        ensures
            engine_wf(final(self)@),
            (final(self)@, r) == rx_spec(old(self)@, raw@, n),
    {
        let data: &[u8] = if self.vpn_enabled && raw.len() > 8 {
            vstd::slice::slice_subrange(raw, 8, raw.len())
        } else {
            raw
        };
        assert(self.vpn_enabled && raw@.len() > 8 ==> data@ =~= raw@.skip(8));
        match unpack_bin(data) {
            None => RxEvent::Ignored,
            Some((s, c, d)) => {
                self.bytes_rx = self.bytes_rx.wrapping_add(n);
                if c == CTRL_AUDIO {
                    self.jitter.insert(s, d);
                    RxEvent::Audio
                } else if c == CTRL_END {
                    self.jitter.clear();
                    RxEvent::EndOfStream
                } else {
                    RxEvent::Other
                }
            },
        }
    }

    /// One playout step: the frame to decode, if any; see `playout_spec`.
    pub fn playout(&mut self) -> (r: Option<Vec<u8>>)
        requires
            engine_wf(old(self)@),
        ensures
            engine_wf(final(self)@),
            ({
                let v = old(self)@;
                let (m, out) = playout_spec(v.jitter, v.delay_pkts as nat, v.licensed);
                &&& final(self)@ == EngineView { jitter: m, ..v }
                &&& match r {
                    Some(d) => out == Some(d@),
                    None => out is None,
                }
            }),
    {
        self.jitter.playout(self.delay_pkts, self.licensed)
    }

    /// The one-second tick: the kilobits per second sent and received over
    /// the last second (counted from bytes, 1024 bits to the kilobit), the
    /// counters reset, and the keep-alive packet to send, through the
    /// tunnel inside an IPv4 envelope when the VPN is up.
    pub fn on_second(&mut self) -> (r: (u32, u32, EngineAction))
        requires
            engine_wf(old(self)@),
        ensures
            engine_wf(final(self)@),
            ({
                let v = old(self)@;
                &&& r.0 == (v.bytes_tx.wrapping_mul(8) / 1024) as u32
                &&& r.1 == (v.bytes_rx.wrapping_mul(8) / 1024) as u32
                &&& final(self)@ == second_spec(v).0
                &&& r.2@ == second_spec(v).1
            }),
    {
        let tk = (self.bytes_tx.wrapping_mul(8) / 1024) as u32;
        let rk = (self.bytes_rx.wrapping_mul(8) / 1024) as u32;
        self.bytes_tx = 0;
        self.bytes_rx = 0;
        let payload = ping_payload();
        let pkt = pack_bin(0, CTRL_PING, payload.as_slice());
        let act = if self.vpn_enabled && self.tunnel_up {
            let frame = ping_frame(pkt.as_slice(), self.vpn_local_ip.as_str(), self.target.as_str());
            EngineAction::Encapsulate { socket: Socket::Initial, dest: Destination::Connected, frame }
        } else {
            EngineAction::Send {
                socket: Socket::Initial,
                dest: Destination::Target(self.target.clone()),
                bytes: pkt,
            }
        };
        (tk, rk, act)
    }
}

/// An audio frame that a sender builds (sequence number `seq`, encoded
/// audio `payload`) and a receiver without the VPN reads is held by the
/// receiver under that sequence number with that audio, and counted.
pub proof fn lemma_audio_reaches_receiver(r: EngineView, seq: u64, payload: Seq<u8>, n: usize)
    requires
        !r.vpn_enabled,
    ensures
        rx_spec(r, frame_bytes(seq, CTRL_AUDIO, payload), n) == (
            EngineView {
                jitter: r.jitter.insert(seq, payload),
                bytes_rx: r.bytes_rx.wrapping_add(n),
                ..r
            },
            RxEvent::Audio,
        ),
{
    crate::frame::lemma_frame_roundtrip(seq, CTRL_AUDIO, payload);
}

/// The packet a sender sends when the user stops transmitting makes a
/// receiver without the VPN drop every frame it holds.
pub proof fn lemma_end_of_stream_clears_receiver(r: EngineView, n: usize)
    requires
        !r.vpn_enabled,
    ensures
        rx_spec(r, end_frame(), n) == (
            EngineView { jitter: Map::empty(), bytes_rx: r.bytes_rx.wrapping_add(n), ..r },
            RxEvent::EndOfStream,
        ),
{
    crate::frame::lemma_frame_roundtrip(0, CTRL_END, seq![]);
}

/// A keep-alive packet is counted by a receiver without the VPN but
/// changes nothing it holds.
pub proof fn lemma_ping_leaves_receiver(r: EngineView, n: usize)
    requires
        !r.vpn_enabled,
    ensures
        rx_spec(r, ping_frame_bytes(), n) == (
            EngineView { bytes_rx: r.bytes_rx.wrapping_add(n), ..r },
            RxEvent::Other,
        ),
{
    crate::frame::lemma_frame_roundtrip(0, CTRL_PING, vstd::utf8::encode_utf8("PING_AUDIO_TX"@));
}

} // verus!
