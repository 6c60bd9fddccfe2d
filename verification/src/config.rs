//! The bridge's settings, the commands the user interfaces send to the
//! engine, and the command-line options of the headless build.

use vstd::prelude::*;
use crate::text::{
    lower_text, parse_unsigned_spec, parse_u16, parse_u32, str_to_lowercase, str_trim, text_eq,
    trim_spec,
};
use crate::license::{license_valid, verify_license_static};
use crate::vpnkey::{b64_encode_spec, clamp_spec, decode_key_spec, new_private_key, KEY_LEN};

verus! {

/// The page of the interface that is shown.
#[derive(PartialEq, Eq, Structural, Clone, Copy, Debug)]
pub enum Tab {
    TX,
    RX,
    VPN,
}

/// A command from an interface to the audio engine.
pub enum AudioCommand {
    UpdateTarget(String),
    UpdateBufferSize(u32),
    UpdateLocalPort(u16),
    SetTransmitting(bool),
    UpdateInputDevice(String),
    UpdateOutputDevice(String),
    UpdateBitrate(u32),
    UpdateAuth(bool),
    UpdateVpnEnabled(bool),
}

/// The saved settings. The two volumes are kept as the bit patterns of
/// their `f32` gains, as the engine shares them.
pub struct Config {
    pub target_ip: String,
    pub local_port: u16,
    pub buffer_size_ms: u32,
    pub selected_tab: Tab,
    pub in_volume_bits: u32,
    pub out_volume_bits: u32,
    pub selected_in: String,
    pub selected_out: String,
    pub bitrate_kbps: u32,
    pub customer_name: String,
    pub license_key: String,
    pub mode: String,
    pub autostart: bool,
    pub vpn_enabled: bool,
    pub vpn_private_key: String,
    pub vpn_peer_public_key: String,
    pub vpn_endpoint: String,
    pub vpn_local_ip: String,
    pub vpn_allowed_ips: String,
}

/// The settings with every text field taken as its characters.
pub struct ConfigView {
    pub target_ip: Seq<char>,
    pub local_port: u16,
    pub buffer_size_ms: u32,
    pub selected_tab: Tab,
    pub in_volume_bits: u32,
    pub out_volume_bits: u32,
    pub selected_in: Seq<char>,
    pub selected_out: Seq<char>,
    pub bitrate_kbps: u32,
    pub customer_name: Seq<char>,
    pub license_key: Seq<char>,
    pub mode: Seq<char>,
    pub autostart: bool,
    pub vpn_enabled: bool,
    pub vpn_private_key: Seq<char>,
    pub vpn_peer_public_key: Seq<char>,
    pub vpn_endpoint: Seq<char>,
    pub vpn_local_ip: Seq<char>,
    pub vpn_allowed_ips: Seq<char>,
}

impl View for Config {
    type V = ConfigView;

    open spec fn view(&self) -> ConfigView {
        ConfigView {
            target_ip: self.target_ip@,
            local_port: self.local_port,
            buffer_size_ms: self.buffer_size_ms,
            selected_tab: self.selected_tab,
            in_volume_bits: self.in_volume_bits,
            out_volume_bits: self.out_volume_bits,
            selected_in: self.selected_in@,
            selected_out: self.selected_out@,
            bitrate_kbps: self.bitrate_kbps,
            customer_name: self.customer_name@,
            license_key: self.license_key@,
            mode: self.mode@,
            autostart: self.autostart,
            vpn_enabled: self.vpn_enabled,
            vpn_private_key: self.vpn_private_key@,
            vpn_peer_public_key: self.vpn_peer_public_key@,
            vpn_endpoint: self.vpn_endpoint@,
            vpn_local_ip: self.vpn_local_ip@,
            vpn_allowed_ips: self.vpn_allowed_ips@,
        }
    }
}

/// The bit pattern of the `f32` gain 1.0.
pub const UNIT_GAIN_BITS: u32 = 0x3f80_0000;

/// The settings used when none are saved.
pub open spec fn default_config_view() -> ConfigView {
    ConfigView {
        target_ip: "127.0.0.1:12345"@,
        local_port: 12345,
        buffer_size_ms: 60,
        selected_tab: Tab::TX,
        in_volume_bits: UNIT_GAIN_BITS,
        out_volume_bits: UNIT_GAIN_BITS,
        selected_in: "Default"@,
        selected_out: "Default"@,
        bitrate_kbps: 96,
        customer_name: "Default User"@,
        license_key: ""@,
        mode: "BOTH"@,
        autostart: false,
        vpn_enabled: false,
        vpn_private_key: ""@,
        vpn_peer_public_key: ""@,
        vpn_endpoint: ""@,
        vpn_local_ip: "10.0.0.2"@,
        vpn_allowed_ips: "10.0.0.0/24"@,
    }
}

impl Default for Config {
    fn default() -> (r: Self)
        ensures
            r@ == default_config_view(),
    {
        Config {
            target_ip: String::from_str("127.0.0.1:12345"),
            local_port: 12345,
            buffer_size_ms: 60,
            selected_tab: Tab::TX,
            in_volume_bits: UNIT_GAIN_BITS,
            out_volume_bits: UNIT_GAIN_BITS,
            selected_in: String::from_str("Default"),
            selected_out: String::from_str("Default"),
            bitrate_kbps: 96,
            customer_name: String::from_str("Default User"),
            license_key: String::from_str(""),
            mode: String::from_str("BOTH"),
            autostart: false,
            vpn_enabled: false,
            vpn_private_key: String::from_str(""),
            vpn_peer_public_key: String::from_str(""),
            vpn_endpoint: String::from_str(""),
            vpn_local_ip: String::from_str("10.0.0.2"),
            vpn_allowed_ips: String::from_str("10.0.0.0/24"),
        }
    }
}

/// The settings that the first-run questions give: the defaults, with the
/// customer name and license key as typed, white space around them
/// removed.
pub fn wizard_config(name: &str, key: &str) -> (r: Config)
    ensures
        r@ == (ConfigView {
            customer_name: trim_spec(name@),
            license_key: trim_spec(key@),
            ..default_config_view()
        }),
{
    let mut cfg = Config::default();
    cfg.customer_name = String::from_str(str_trim(name));
    cfg.license_key = String::from_str(str_trim(key));
    cfg
}

/// What asking to activate the license does: when it is not active yet
/// and the typed key is the license of `name` on machine `hwid`, it
/// becomes active and the engine is told so; otherwise nothing happens.
pub fn activate_license(licensed: bool, hwid: &str, name: &str, key: &str) -> (r: Option<
    AudioCommand,
>)
    ensures
        r == if !licensed && license_valid(hwid@, name@, key@) {
            Some(AudioCommand::UpdateAuth(true))
        } else {
            None
        },
{
    if !licensed && verify_license_static(hwid, name, key) {
        Some(AudioCommand::UpdateAuth(true))
    } else {
        None
    }
}

/// Makes a VPN identity when the settings have none: when the private key
/// is empty, a fresh clamped key is written there and `true` returned (the
/// caller then saves the settings); otherwise nothing changes.
pub fn verifica_e_genera_chiavi_vpn(cfg: &mut Config) -> (r: bool)
    ensures
        r == (old(cfg).vpn_private_key@.len() == 0),
        !r ==> final(cfg)@ == old(cfg)@,
        r ==> exists|b: Seq<u8>|
            #![trigger clamp_spec(b)]
            b.len() == KEY_LEN && final(cfg)@ == (ConfigView {
                vpn_private_key: b64_encode_spec(clamp_spec(b)),
                ..old(cfg)@
            }) && decode_key_spec(final(cfg).vpn_private_key@) == Some(clamp_spec(b)),
{
    if cfg.vpn_private_key.as_str().unicode_len() == 0 {
        cfg.vpn_private_key = new_private_key();
        true
    } else {
        false
    }
}

/// A command-line option of the headless build that takes a value.
#[derive(PartialEq, Eq, Structural, Clone, Copy, Debug)]
pub enum CliOption {
    VolumeIn,
    VolumeOut,
    UrlTx,
    PortRx,
    Buffer,
    SetAudioTx,
    SetAudioRx,
    Autostart,
    Vpn,
    VpnEndpoint,
    VpnLocalIp,
    VpnAllowedIps,
    VpnPeerPub,
}

/// The option that an argument names, if any.
pub open spec fn cli_option_spec(a: Seq<char>) -> Option<CliOption> {
    if a == "--volume-in"@ {
        Some(CliOption::VolumeIn)
    } else if a == "--volume-out"@ {
        Some(CliOption::VolumeOut)
    } else if a == "--url-tx"@ {
        Some(CliOption::UrlTx)
    } else if a == "--port-rx"@ {
        Some(CliOption::PortRx)
    } else if a == "--buffer"@ {
        Some(CliOption::Buffer)
    } else if a == "--set-audio-tx"@ {
        Some(CliOption::SetAudioTx)
    } else if a == "--set-audio-rx"@ {
        Some(CliOption::SetAudioRx)
    } else if a == "--autostart"@ {
        Some(CliOption::Autostart)
    } else if a == "--vpn"@ {
        Some(CliOption::Vpn)
    } else if a == "--vpn-endpoint"@ {
        Some(CliOption::VpnEndpoint)
    } else if a == "--vpn-local-ip"@ {
        Some(CliOption::VpnLocalIp)
    } else if a == "--vpn-allowed-ips"@ {
        Some(CliOption::VpnAllowedIps)
    } else if a == "--vpn-peer-pub"@ {
        Some(CliOption::VpnPeerPub)
    } else {
        None
    }
}

/// The option that an argument names, if any.
pub fn cli_option(a: &str) -> (r: Option<CliOption>)
    ensures
        r == cli_option_spec(a@),
{
    if text_eq(a, "--volume-in") {
        Some(CliOption::VolumeIn)
    } else if text_eq(a, "--volume-out") {
        Some(CliOption::VolumeOut)
    } else if text_eq(a, "--url-tx") {
        Some(CliOption::UrlTx)
    } else if text_eq(a, "--port-rx") {
        Some(CliOption::PortRx)
    } else if text_eq(a, "--buffer") {
        Some(CliOption::Buffer)
    } else if text_eq(a, "--set-audio-tx") {
        Some(CliOption::SetAudioTx)
    } else if text_eq(a, "--set-audio-rx") {
        Some(CliOption::SetAudioRx)
    } else if text_eq(a, "--autostart") {
        Some(CliOption::Autostart)
    } else if text_eq(a, "--vpn") {
        Some(CliOption::Vpn)
    } else if text_eq(a, "--vpn-endpoint") {
        Some(CliOption::VpnEndpoint)
    } else if text_eq(a, "--vpn-local-ip") {
        Some(CliOption::VpnLocalIp)
    } else if text_eq(a, "--vpn-allowed-ips") {
        Some(CliOption::VpnAllowedIps)
    } else if text_eq(a, "--vpn-peer-pub") {
        Some(CliOption::VpnPeerPub)
    } else {
        None
    }
}

/// Which volume a volume option sets.
#[derive(PartialEq, Eq, Structural, Clone, Copy, Debug)]
pub enum VolumeTarget {
    Input,
    Output,
}

/// Whether a switch value means "on": `true`, `t` or `1` once lower-cased.
pub open spec fn switch_on_spec(v: Seq<char>) -> bool {
    let l = lower_text(v);
    l == "true"@ || l == "t"@ || l == "1"@
}

/// Whether a switch value means "on".
pub fn switch_on(v: &str) -> (r: bool)
    ensures
        r == switch_on_spec(v@),
{
    let l = str_to_lowercase(v);
    text_eq(l.as_str(), "true") || text_eq(l.as_str(), "t") || text_eq(l.as_str(), "1")
}

/// The state of reading the command line: the settings so far, whether
/// any option changed them, and the volume values met, in order (their
/// gains are read as floating-point numbers by the caller).
pub struct CliState {
    pub cfg: ConfigView,
    pub changed: bool,
    pub volumes: Seq<(VolumeTarget, Seq<char>)>,
}

/// The effect of option `o` with value `v`.
pub open spec fn apply_option(st: CliState, o: CliOption, v: Seq<char>) -> CliState {
    let c = st.cfg;
    match o {
        CliOption::VolumeIn => CliState { volumes: st.volumes.push((VolumeTarget::Input, v)), ..st },
        CliOption::VolumeOut => CliState {
            volumes: st.volumes.push((VolumeTarget::Output, v)),
            ..st
        },
        CliOption::UrlTx => CliState { cfg: ConfigView { target_ip: v, ..c }, changed: true, ..st },
        CliOption::PortRx => match parse_unsigned_spec(v, 0xffff) {
            Some(p) => CliState {
                cfg: ConfigView { local_port: p as u16, ..c },
                changed: true,
                ..st
            },
            None => st,
        },
        CliOption::Buffer => match parse_unsigned_spec(v, 0xffff_ffff) {
            Some(b) => CliState {
                cfg: ConfigView { buffer_size_ms: b as u32, ..c },
                changed: true,
                ..st
            },
            None => st,
        },
        CliOption::SetAudioTx => CliState {
            cfg: ConfigView { selected_in: v, ..c },
            changed: true,
            ..st
        },
        CliOption::SetAudioRx => CliState {
            cfg: ConfigView { selected_out: v, ..c },
            changed: true,
            ..st
        },
        CliOption::Autostart => CliState {
            cfg: ConfigView { autostart: switch_on_spec(v), ..c },
            changed: true,
            ..st
        },
        CliOption::Vpn => CliState {
            cfg: ConfigView { vpn_enabled: switch_on_spec(v), ..c },
            changed: true,
            ..st
        },
        CliOption::VpnEndpoint => CliState {
            cfg: ConfigView { vpn_endpoint: v, ..c },
            changed: true,
            ..st
        },
        CliOption::VpnLocalIp => CliState {
            cfg: ConfigView { vpn_local_ip: v, ..c },
            changed: true,
            ..st
        },
        CliOption::VpnAllowedIps => CliState {
            cfg: ConfigView { vpn_allowed_ips: v, ..c },
            changed: true,
            ..st
        },
        CliOption::VpnPeerPub => CliState {
            cfg: ConfigView { vpn_peer_public_key: v, ..c },
            changed: true,
            ..st
        },
    }
}

/// Reads the arguments from position `i` on: an option followed by a value
/// takes effect and both are consumed; any other argument is skipped.
pub open spec fn cli_from(args: Seq<Seq<char>>, i: int, st: CliState) -> CliState
    decreases args.len() - i,
{
    if i < 0 || i >= args.len() {
        st
    } else {
        match cli_option_spec(args[i]) {
            Some(o) => if i + 1 < args.len() {
                cli_from(args, i + 2, apply_option(st, o, args[i + 1]))
            } else {
                cli_from(args, i + 1, st)
            },
            None => cli_from(args, i + 1, st),
        }
    }
}

/// What reading the command line reports back.
pub struct CliOutcome {
    /// Whether an option changed the settings (volumes aside).
    pub changed: bool,
    /// The volume options met, in order, with their values.
    pub volumes: Vec<(VolumeTarget, String)>,
}

/// The texts of the arguments.
pub open spec fn args_view(args: Seq<String>) -> Seq<Seq<char>> {
    args.map_values(|s: String| s@)
}

/// The volume requests with their values taken as characters.
pub open spec fn volumes_view(v: Seq<(VolumeTarget, String)>) -> Seq<(VolumeTarget, Seq<char>)> {
    v.map_values(|p: (VolumeTarget, String)| (p.0, p.1@))
}

/// Applies the command-line options (the first argument, the program, is
/// skipped) to the settings.
pub fn apply_cli_args(cfg: &mut Config, args: &[String]) -> (r: CliOutcome)
    ensures
        ({
            let st = cli_from(
                args_view(args@),
                1,
                CliState { cfg: old(cfg)@, changed: false, volumes: seq![] },
            );
            &&& final(cfg)@ == st.cfg
            &&& r.changed == st.changed
            &&& volumes_view(r.volumes@) == st.volumes
        }),
{
    let ghost a = args_view(args@);
    let ghost st0 = CliState { cfg: cfg@, changed: false, volumes: seq![] };
    let mut changed = false;
    let mut volumes: Vec<(VolumeTarget, String)> = Vec::new();
    let mut i: usize = 1;
    assert(volumes_view(volumes@) =~= seq![]);
    while i < args.len()
        invariant
            a == args_view(args@),
            a.len() == args@.len(),
            1 <= i,
            cli_from(a, 1, st0) == cli_from(
                a,
                i as int,
                CliState { cfg: cfg@, changed, volumes: volumes_view(volumes@) },
            ),
        decreases args@.len() - i,
    {
        let ghost st = CliState { cfg: cfg@, changed, volumes: volumes_view(volumes@) };
        assert(a[i as int] == args@[i as int]@);
        let opt = cli_option(args[i].as_str());
        match opt {
            Some(o) => {
                if i + 1 < args.len() {
                    let v = &args[i + 1];
                    assert(a[i + 1] == v@);
                    match o {
                        CliOption::VolumeIn => {
                            volumes.push((VolumeTarget::Input, v.clone()));
                        },
                        CliOption::VolumeOut => {
                            volumes.push((VolumeTarget::Output, v.clone()));
                        },
                        CliOption::UrlTx => {
                            cfg.target_ip = v.clone();
                            changed = true;
                        },
                        CliOption::PortRx => {
                            if let Some(p) = parse_u16(v.as_str()) {
                                cfg.local_port = p;
                                changed = true;
                            }
                        },
                        CliOption::Buffer => {
                            if let Some(b) = parse_u32(v.as_str()) {
                                cfg.buffer_size_ms = b;
                                changed = true;
                            }
                        },
                        CliOption::SetAudioTx => {
                            cfg.selected_in = v.clone();
                            changed = true;
                        },
                        CliOption::SetAudioRx => {
                            cfg.selected_out = v.clone();
                            changed = true;
                        },
                        CliOption::Autostart => {
                            cfg.autostart = switch_on(v.as_str());
                            changed = true;
                        },
                        CliOption::Vpn => {
                            cfg.vpn_enabled = switch_on(v.as_str());
                            changed = true;
                        },
                        CliOption::VpnEndpoint => {
                            cfg.vpn_endpoint = v.clone();
                            changed = true;
                        },
                        CliOption::VpnLocalIp => {
                            cfg.vpn_local_ip = v.clone();
                            changed = true;
                        },
                        CliOption::VpnAllowedIps => {
                            cfg.vpn_allowed_ips = v.clone();
                            changed = true;
                        },
                        CliOption::VpnPeerPub => {
                            cfg.vpn_peer_public_key = v.clone();
                            changed = true;
                        },
                    }
                    assert(volumes_view(volumes@) =~= apply_option(st, o, a[i + 1]).volumes);
                    assert(CliState { cfg: cfg@, changed, volumes: volumes_view(volumes@) }
                        == apply_option(st, o, a[i + 1]));
                    i = i + 2;
                } else {
                    i = i + 1;
                }
            },
            None => {
                i = i + 1;
            },
        }
    }
    CliOutcome { changed, volumes }
}

/// A command line of one option `a` with its value `v`, after the
/// program's name, has that option's effect.
proof fn lemma_cli_one(p: Seq<char>, a: Seq<char>, v: Seq<char>, st: CliState, o: CliOption)
    requires
        cli_option_spec(a) == Some(o),
    ensures
        cli_from(seq![p, a, v], 1, st) == apply_option(st, o, v),
{
    let args = seq![p, a, v];
    assert(args.len() == 3 && args[1] == a && args[2] == v);
    assert(cli_from(args, 1, st) == cli_from(args, 3, apply_option(st, o, v)));
}

/// `--set-audio-rx v` sets the output (RX) device to `v`; the input device
/// and every other setting stay as they were.
pub proof fn lemma_cli_set_audio_rx(p: Seq<char>, v: Seq<char>, st: CliState)
    ensures
        cli_from(seq![p, "--set-audio-rx"@, v], 1, st) == (CliState { cfg: ConfigView { selected_out: v, ..st.cfg }, changed: true, ..st }),
{
    reveal_strlit("--volume-in");
    reveal_strlit("--volume-out");
    reveal_strlit("--url-tx");
    reveal_strlit("--port-rx");
    reveal_strlit("--buffer");
    reveal_strlit("--set-audio-tx");
    reveal_strlit("--set-audio-rx");
    reveal_strlit("--autostart");
    reveal_strlit("--vpn");
    reveal_strlit("--vpn-endpoint");
    reveal_strlit("--vpn-local-ip");
    reveal_strlit("--vpn-allowed-ips");
    reveal_strlit("--vpn-peer-pub");
    assert("--set-audio-rx"@.len() != "--volume-in"@.len());
    assert("--set-audio-rx"@.len() != "--volume-out"@.len());
    assert("--set-audio-rx"@.len() != "--url-tx"@.len());
    assert("--set-audio-rx"@.len() != "--port-rx"@.len());
    assert("--set-audio-rx"@.len() != "--buffer"@.len());
    assert("--set-audio-rx"@[12] != "--set-audio-tx"@[12]);
    assert(cli_option_spec("--set-audio-rx"@) == Some(CliOption::SetAudioRx));
    lemma_cli_one(p, "--set-audio-rx"@, v, st, CliOption::SetAudioRx);
}

/// `--set-audio-tx v` sets the input (TX) device to `v`; the output device
/// and every other setting stay as they were.
pub proof fn lemma_cli_set_audio_tx(p: Seq<char>, v: Seq<char>, st: CliState)
    ensures
        cli_from(seq![p, "--set-audio-tx"@, v], 1, st) == (CliState { cfg: ConfigView { selected_in: v, ..st.cfg }, changed: true, ..st }),
{
    reveal_strlit("--volume-in");
    reveal_strlit("--volume-out");
    reveal_strlit("--url-tx");
    reveal_strlit("--port-rx");
    reveal_strlit("--buffer");
    reveal_strlit("--set-audio-tx");
    reveal_strlit("--set-audio-rx");
    reveal_strlit("--autostart");
    reveal_strlit("--vpn");
    reveal_strlit("--vpn-endpoint");
    reveal_strlit("--vpn-local-ip");
    reveal_strlit("--vpn-allowed-ips");
    reveal_strlit("--vpn-peer-pub");
    assert("--set-audio-tx"@.len() != "--volume-in"@.len());
    assert("--set-audio-tx"@.len() != "--volume-out"@.len());
    assert("--set-audio-tx"@.len() != "--url-tx"@.len());
    assert("--set-audio-tx"@.len() != "--port-rx"@.len());
    assert("--set-audio-tx"@.len() != "--buffer"@.len());
    assert(cli_option_spec("--set-audio-tx"@) == Some(CliOption::SetAudioTx));
    lemma_cli_one(p, "--set-audio-tx"@, v, st, CliOption::SetAudioTx);
}

/// `--url-tx v` sets the target address to `v` and nothing else.
pub proof fn lemma_cli_url_tx(p: Seq<char>, v: Seq<char>, st: CliState)
    ensures
        cli_from(seq![p, "--url-tx"@, v], 1, st) == (CliState { cfg: ConfigView { target_ip: v, ..st.cfg }, changed: true, ..st }),
{
    reveal_strlit("--volume-in");
    reveal_strlit("--volume-out");
    reveal_strlit("--url-tx");
    reveal_strlit("--port-rx");
    reveal_strlit("--buffer");
    reveal_strlit("--set-audio-tx");
    reveal_strlit("--set-audio-rx");
    reveal_strlit("--autostart");
    reveal_strlit("--vpn");
    reveal_strlit("--vpn-endpoint");
    reveal_strlit("--vpn-local-ip");
    reveal_strlit("--vpn-allowed-ips");
    reveal_strlit("--vpn-peer-pub");
    assert("--url-tx"@.len() != "--volume-in"@.len());
    assert("--url-tx"@.len() != "--volume-out"@.len());
    assert(cli_option_spec("--url-tx"@) == Some(CliOption::UrlTx));
    lemma_cli_one(p, "--url-tx"@, v, st, CliOption::UrlTx);
}

/// `--vpn-endpoint v` sets the VPN endpoint to `v` and nothing else.
pub proof fn lemma_cli_vpn_endpoint(p: Seq<char>, v: Seq<char>, st: CliState)
    ensures
        cli_from(seq![p, "--vpn-endpoint"@, v], 1, st) == (CliState { cfg: ConfigView { vpn_endpoint: v, ..st.cfg }, changed: true, ..st }),
{
    reveal_strlit("--volume-in");
    reveal_strlit("--volume-out");
    reveal_strlit("--url-tx");
    reveal_strlit("--port-rx");
    reveal_strlit("--buffer");
    reveal_strlit("--set-audio-tx");
    reveal_strlit("--set-audio-rx");
    reveal_strlit("--autostart");
    reveal_strlit("--vpn");
    reveal_strlit("--vpn-endpoint");
    reveal_strlit("--vpn-local-ip");
    reveal_strlit("--vpn-allowed-ips");
    reveal_strlit("--vpn-peer-pub");
    assert("--vpn-endpoint"@.len() != "--volume-in"@.len());
    assert("--vpn-endpoint"@.len() != "--volume-out"@.len());
    assert("--vpn-endpoint"@.len() != "--url-tx"@.len());
    assert("--vpn-endpoint"@.len() != "--port-rx"@.len());
    assert("--vpn-endpoint"@.len() != "--buffer"@.len());
    assert("--vpn-endpoint"@[2] != "--set-audio-tx"@[2]);
    assert("--vpn-endpoint"@[2] != "--set-audio-rx"@[2]);
    assert("--vpn-endpoint"@.len() != "--autostart"@.len());
    assert("--vpn-endpoint"@.len() != "--vpn"@.len());
    assert(cli_option_spec("--vpn-endpoint"@) == Some(CliOption::VpnEndpoint));
    lemma_cli_one(p, "--vpn-endpoint"@, v, st, CliOption::VpnEndpoint);
}

/// `--vpn-local-ip v` sets the tunnel's local address to `v` and nothing
/// else.
pub proof fn lemma_cli_vpn_local_ip(p: Seq<char>, v: Seq<char>, st: CliState)
    ensures
        cli_from(seq![p, "--vpn-local-ip"@, v], 1, st) == (CliState { cfg: ConfigView { vpn_local_ip: v, ..st.cfg }, changed: true, ..st }),
{
    reveal_strlit("--volume-in");
    reveal_strlit("--volume-out");
    reveal_strlit("--url-tx");
    reveal_strlit("--port-rx");
    reveal_strlit("--buffer");
    reveal_strlit("--set-audio-tx");
    reveal_strlit("--set-audio-rx");
    reveal_strlit("--autostart");
    reveal_strlit("--vpn");
    reveal_strlit("--vpn-endpoint");
    reveal_strlit("--vpn-local-ip");
    reveal_strlit("--vpn-allowed-ips");
    reveal_strlit("--vpn-peer-pub");
    assert("--vpn-local-ip"@.len() != "--volume-in"@.len());
    assert("--vpn-local-ip"@.len() != "--volume-out"@.len());
    assert("--vpn-local-ip"@.len() != "--url-tx"@.len());
    assert("--vpn-local-ip"@.len() != "--port-rx"@.len());
    assert("--vpn-local-ip"@.len() != "--buffer"@.len());
    assert("--vpn-local-ip"@[2] != "--set-audio-tx"@[2]);
    assert("--vpn-local-ip"@[2] != "--set-audio-rx"@[2]);
    assert("--vpn-local-ip"@.len() != "--autostart"@.len());
    assert("--vpn-local-ip"@.len() != "--vpn"@.len());
    assert("--vpn-local-ip"@[6] != "--vpn-endpoint"@[6]);
    assert(cli_option_spec("--vpn-local-ip"@) == Some(CliOption::VpnLocalIp));
    lemma_cli_one(p, "--vpn-local-ip"@, v, st, CliOption::VpnLocalIp);
}

/// `--vpn-allowed-ips v` sets the allowed addresses to `v` and nothing
/// else.
pub proof fn lemma_cli_vpn_allowed_ips(p: Seq<char>, v: Seq<char>, st: CliState)
    ensures
        cli_from(seq![p, "--vpn-allowed-ips"@, v], 1, st) == (CliState { cfg: ConfigView { vpn_allowed_ips: v, ..st.cfg }, changed: true, ..st }),
{
    reveal_strlit("--volume-in");
    reveal_strlit("--volume-out");
    reveal_strlit("--url-tx");
    reveal_strlit("--port-rx");
    reveal_strlit("--buffer");
    reveal_strlit("--set-audio-tx");
    reveal_strlit("--set-audio-rx");
    reveal_strlit("--autostart");
    reveal_strlit("--vpn");
    reveal_strlit("--vpn-endpoint");
    reveal_strlit("--vpn-local-ip");
    reveal_strlit("--vpn-allowed-ips");
    reveal_strlit("--vpn-peer-pub");
    assert("--vpn-allowed-ips"@.len() != "--volume-in"@.len());
    assert("--vpn-allowed-ips"@.len() != "--volume-out"@.len());
    assert("--vpn-allowed-ips"@.len() != "--url-tx"@.len());
    assert("--vpn-allowed-ips"@.len() != "--port-rx"@.len());
    assert("--vpn-allowed-ips"@.len() != "--buffer"@.len());
    assert("--vpn-allowed-ips"@.len() != "--set-audio-tx"@.len());
    assert("--vpn-allowed-ips"@.len() != "--set-audio-rx"@.len());
    assert("--vpn-allowed-ips"@.len() != "--autostart"@.len());
    assert("--vpn-allowed-ips"@.len() != "--vpn"@.len());
    assert("--vpn-allowed-ips"@.len() != "--vpn-endpoint"@.len());
    assert("--vpn-allowed-ips"@.len() != "--vpn-local-ip"@.len());
    assert(cli_option_spec("--vpn-allowed-ips"@) == Some(CliOption::VpnAllowedIps));
    lemma_cli_one(p, "--vpn-allowed-ips"@, v, st, CliOption::VpnAllowedIps);
}

/// `--vpn-peer-pub v` sets the server's public key to `v` and nothing
/// else; the private key stays.
pub proof fn lemma_cli_vpn_peer_pub(p: Seq<char>, v: Seq<char>, st: CliState)
    ensures
        cli_from(seq![p, "--vpn-peer-pub"@, v], 1, st) == (CliState { cfg: ConfigView { vpn_peer_public_key: v, ..st.cfg }, changed: true, ..st }),
{
    reveal_strlit("--volume-in");
    reveal_strlit("--volume-out");
    reveal_strlit("--url-tx");
    reveal_strlit("--port-rx");
    reveal_strlit("--buffer");
    reveal_strlit("--set-audio-tx");
    reveal_strlit("--set-audio-rx");
    reveal_strlit("--autostart");
    reveal_strlit("--vpn");
    reveal_strlit("--vpn-endpoint");
    reveal_strlit("--vpn-local-ip");
    reveal_strlit("--vpn-allowed-ips");
    reveal_strlit("--vpn-peer-pub");
    assert("--vpn-peer-pub"@.len() != "--volume-in"@.len());
    assert("--vpn-peer-pub"@.len() != "--volume-out"@.len());
    assert("--vpn-peer-pub"@.len() != "--url-tx"@.len());
    assert("--vpn-peer-pub"@.len() != "--port-rx"@.len());
    assert("--vpn-peer-pub"@.len() != "--buffer"@.len());
    assert("--vpn-peer-pub"@[2] != "--set-audio-tx"@[2]);
    assert("--vpn-peer-pub"@[2] != "--set-audio-rx"@[2]);
    assert("--vpn-peer-pub"@.len() != "--autostart"@.len());
    assert("--vpn-peer-pub"@.len() != "--vpn"@.len());
    assert("--vpn-peer-pub"@[6] != "--vpn-endpoint"@[6]);
    assert("--vpn-peer-pub"@[6] != "--vpn-local-ip"@[6]);
    assert("--vpn-peer-pub"@.len() != "--vpn-allowed-ips"@.len());
    assert(cli_option_spec("--vpn-peer-pub"@) == Some(CliOption::VpnPeerPub));
    lemma_cli_one(p, "--vpn-peer-pub"@, v, st, CliOption::VpnPeerPub);
}

/// `--autostart v` switches automatic start on exactly when `v`, lower-cased,
/// is `true`, `t` or `1`, and off otherwise; nothing else changes.
pub proof fn lemma_cli_autostart(p: Seq<char>, v: Seq<char>, st: CliState)
    ensures
        cli_from(seq![p, "--autostart"@, v], 1, st) == (CliState { cfg: ConfigView { autostart: (lower_text(v) == "true"@ || lower_text(v) == "t"@ || lower_text(v) == "1"@), ..st.cfg }, changed: true, ..st }),
{
    reveal_strlit("--volume-in");
    reveal_strlit("--volume-out");
    reveal_strlit("--url-tx");
    reveal_strlit("--port-rx");
    reveal_strlit("--buffer");
    reveal_strlit("--set-audio-tx");
    reveal_strlit("--set-audio-rx");
    reveal_strlit("--autostart");
    reveal_strlit("--vpn");
    reveal_strlit("--vpn-endpoint");
    reveal_strlit("--vpn-local-ip");
    reveal_strlit("--vpn-allowed-ips");
    reveal_strlit("--vpn-peer-pub");
    assert("--autostart"@[2] != "--volume-in"@[2]);
    assert("--autostart"@.len() != "--volume-out"@.len());
    assert("--autostart"@.len() != "--url-tx"@.len());
    assert("--autostart"@.len() != "--port-rx"@.len());
    assert("--autostart"@.len() != "--buffer"@.len());
    assert("--autostart"@.len() != "--set-audio-tx"@.len());
    assert("--autostart"@.len() != "--set-audio-rx"@.len());
    assert(cli_option_spec("--autostart"@) == Some(CliOption::Autostart));
    lemma_cli_one(p, "--autostart"@, v, st, CliOption::Autostart);
}

/// `--vpn v` switches the VPN on exactly when `v`, lower-cased, is `true`,
/// `t` or `1`, and off otherwise; nothing else changes.
pub proof fn lemma_cli_vpn(p: Seq<char>, v: Seq<char>, st: CliState)
    ensures
        cli_from(seq![p, "--vpn"@, v], 1, st) == (CliState { cfg: ConfigView { vpn_enabled: (lower_text(v) == "true"@ || lower_text(v) == "t"@ || lower_text(v) == "1"@), ..st.cfg }, changed: true, ..st }),
{
    reveal_strlit("--volume-in");
    reveal_strlit("--volume-out");
    reveal_strlit("--url-tx");
    reveal_strlit("--port-rx");
    reveal_strlit("--buffer");
    reveal_strlit("--set-audio-tx");
    reveal_strlit("--set-audio-rx");
    reveal_strlit("--autostart");
    reveal_strlit("--vpn");
    reveal_strlit("--vpn-endpoint");
    reveal_strlit("--vpn-local-ip");
    reveal_strlit("--vpn-allowed-ips");
    reveal_strlit("--vpn-peer-pub");
    assert("--vpn"@.len() != "--volume-in"@.len());
    assert("--vpn"@.len() != "--volume-out"@.len());
    assert("--vpn"@.len() != "--url-tx"@.len());
    assert("--vpn"@.len() != "--port-rx"@.len());
    assert("--vpn"@.len() != "--buffer"@.len());
    assert("--vpn"@.len() != "--set-audio-tx"@.len());
    assert("--vpn"@.len() != "--set-audio-rx"@.len());
    assert("--vpn"@.len() != "--autostart"@.len());
    assert(cli_option_spec("--vpn"@) == Some(CliOption::Vpn));
    lemma_cli_one(p, "--vpn"@, v, st, CliOption::Vpn);
}

/// `--volume-in v` changes no setting here: it records `v` as an input
/// volume, after those already met, for the caller to read as a number.
pub proof fn lemma_cli_volume_in(p: Seq<char>, v: Seq<char>, st: CliState)
    ensures
        cli_from(seq![p, "--volume-in"@, v], 1, st) == (CliState { volumes: st.volumes.push((VolumeTarget::Input, v)), ..st }),
{
    reveal_strlit("--volume-in");
    reveal_strlit("--volume-out");
    reveal_strlit("--url-tx");
    reveal_strlit("--port-rx");
    reveal_strlit("--buffer");
    reveal_strlit("--set-audio-tx");
    reveal_strlit("--set-audio-rx");
    reveal_strlit("--autostart");
    reveal_strlit("--vpn");
    reveal_strlit("--vpn-endpoint");
    reveal_strlit("--vpn-local-ip");
    reveal_strlit("--vpn-allowed-ips");
    reveal_strlit("--vpn-peer-pub");
    assert(cli_option_spec("--volume-in"@) == Some(CliOption::VolumeIn));
    lemma_cli_one(p, "--volume-in"@, v, st, CliOption::VolumeIn);
}

/// `--volume-out v` changes no setting here: it records `v` as an output
/// volume, after those already met, for the caller to read as a number.
pub proof fn lemma_cli_volume_out(p: Seq<char>, v: Seq<char>, st: CliState)
    ensures
        cli_from(seq![p, "--volume-out"@, v], 1, st) == (CliState { volumes: st.volumes.push((VolumeTarget::Output, v)), ..st }),
{
    reveal_strlit("--volume-in");
    reveal_strlit("--volume-out");
    reveal_strlit("--url-tx");
    reveal_strlit("--port-rx");
    reveal_strlit("--buffer");
    reveal_strlit("--set-audio-tx");
    reveal_strlit("--set-audio-rx");
    reveal_strlit("--autostart");
    reveal_strlit("--vpn");
    reveal_strlit("--vpn-endpoint");
    reveal_strlit("--vpn-local-ip");
    reveal_strlit("--vpn-allowed-ips");
    reveal_strlit("--vpn-peer-pub");
    assert("--volume-out"@.len() != "--volume-in"@.len());
    assert(cli_option_spec("--volume-out"@) == Some(CliOption::VolumeOut));
    lemma_cli_one(p, "--volume-out"@, v, st, CliOption::VolumeOut);
}

/// `--port-rx v` sets the local port to the number `v` when it reads as a
/// port number, and changes nothing otherwise.
pub proof fn lemma_cli_port_rx(p: Seq<char>, v: Seq<char>, st: CliState)
    ensures
        cli_from(seq![p, "--port-rx"@, v], 1, st) == (match parse_unsigned_spec(v, 0xffff) { Some(n) => CliState { cfg: ConfigView { local_port: n as u16, ..st.cfg }, changed: true, ..st }, None => st }),
{
    reveal_strlit("--volume-in");
    reveal_strlit("--volume-out");
    reveal_strlit("--url-tx");
    reveal_strlit("--port-rx");
    reveal_strlit("--buffer");
    reveal_strlit("--set-audio-tx");
    reveal_strlit("--set-audio-rx");
    reveal_strlit("--autostart");
    reveal_strlit("--vpn");
    reveal_strlit("--vpn-endpoint");
    reveal_strlit("--vpn-local-ip");
    reveal_strlit("--vpn-allowed-ips");
    reveal_strlit("--vpn-peer-pub");
    assert("--port-rx"@.len() != "--volume-in"@.len());
    assert("--port-rx"@.len() != "--volume-out"@.len());
    assert("--port-rx"@.len() != "--url-tx"@.len());
    assert(cli_option_spec("--port-rx"@) == Some(CliOption::PortRx));
    lemma_cli_one(p, "--port-rx"@, v, st, CliOption::PortRx);
}

/// `--buffer v` sets the jitter buffer length to the number `v` when it
/// reads as a 32-bit number, and changes nothing otherwise.
pub proof fn lemma_cli_buffer(p: Seq<char>, v: Seq<char>, st: CliState)
    ensures
        cli_from(seq![p, "--buffer"@, v], 1, st) == (match parse_unsigned_spec(v, 0xffff_ffff) { Some(n) => CliState { cfg: ConfigView { buffer_size_ms: n as u32, ..st.cfg }, changed: true, ..st }, None => st }),
{
    reveal_strlit("--volume-in");
    reveal_strlit("--volume-out");
    reveal_strlit("--url-tx");
    reveal_strlit("--port-rx");
    reveal_strlit("--buffer");
    reveal_strlit("--set-audio-tx");
    reveal_strlit("--set-audio-rx");
    reveal_strlit("--autostart");
    reveal_strlit("--vpn");
    reveal_strlit("--vpn-endpoint");
    reveal_strlit("--vpn-local-ip");
    reveal_strlit("--vpn-allowed-ips");
    reveal_strlit("--vpn-peer-pub");
    assert("--buffer"@.len() != "--volume-in"@.len());
    assert("--buffer"@.len() != "--volume-out"@.len());
    assert("--buffer"@[2] != "--url-tx"@[2]);
    assert("--buffer"@.len() != "--port-rx"@.len());
    assert(cli_option_spec("--buffer"@) == Some(CliOption::Buffer));
    lemma_cli_one(p, "--buffer"@, v, st, CliOption::Buffer);
}

} // verus!
