use audio_bridge::config::{apply_cli_args, cli_option, verifica_e_genera_chiavi_vpn, CliOption, Config, Tab, VolumeTarget};
use audio_bridge::vpnkey::decode_key;

fn args(v: &[&str]) -> Vec<String> {
    v.iter().map(|s| s.to_string()).collect()
}

#[test]
fn default_settings() {
    let c = Config::default();
    assert_eq!(c.target_ip, "127.0.0.1:12345");
    assert_eq!(c.local_port, 12345);
    assert_eq!(c.buffer_size_ms, 60);
    assert!(c.selected_tab == Tab::TX);
    assert_eq!(f32::from_bits(c.in_volume_bits), 1.0);
    assert_eq!(f32::from_bits(c.out_volume_bits), 1.0);
    assert_eq!(c.bitrate_kbps, 96);
    assert_eq!(c.customer_name, "Default User");
    assert_eq!(c.mode, "BOTH");
    assert_eq!(c.vpn_local_ip, "10.0.0.2");
    assert_eq!(c.vpn_allowed_ips, "10.0.0.0/24");
    assert!(!c.autostart && !c.vpn_enabled);
}

#[test]
fn cli_options() {
    let mut c = Config::default();
    let out = apply_cli_args(
        &mut c,
        &args(&[
            "audio_bridge", "--url-tx", "10.0.0.9:4000", "--port-rx", "5000", "--buffer", "abc",
            "--autostart", "T", "--vpn", "no", "--volume-in", "150", "--set-audio-tx", "hw:1",
            "--unknown", "--vpn-peer-pub", "KEY", "--volume-out",
        ]),
    );
    assert!(out.changed);
    assert_eq!(c.target_ip, "10.0.0.9:4000");
    assert_eq!(c.local_port, 5000);
    assert_eq!(c.buffer_size_ms, 60);
    assert!(c.autostart);
    assert!(!c.vpn_enabled);
    assert_eq!(c.selected_in, "hw:1");
    assert_eq!(c.vpn_peer_public_key, "KEY");
    assert_eq!(out.volumes, vec![(VolumeTarget::Input, "150".to_string())]);
}

#[test]
fn cli_without_options() {
    let mut c = Config::default();
    let out = apply_cli_args(&mut c, &args(&["audio_bridge", "--buffer", "x"]));
    assert!(!out.changed);
    assert!(out.volumes.is_empty());
    let out2 = apply_cli_args(&mut c, &args(&[]));
    assert!(!out2.changed);
    let out3 = apply_cli_args(&mut c, &args(&["--buffer", "100"]));
    assert!(!out3.changed);
    assert_eq!(c.buffer_size_ms, 60);
}

#[test]
fn cli_switch_values() {
    for (v, on) in [("true", true), ("TRUE", true), ("t", true), ("1", true), ("yes", false), ("0", false)] {
        let mut c = Config::default();
        apply_cli_args(&mut c, &args(&["x", "--vpn", v]));
        assert_eq!(c.vpn_enabled, on, "value {:?}", v);
    }
}

#[test]
fn option_names() {
    assert_eq!(cli_option("--vpn-allowed-ips"), Some(CliOption::VpnAllowedIps));
    assert_eq!(cli_option("--vpn-local-ip"), Some(CliOption::VpnLocalIp));
    assert_eq!(cli_option("--volume-out"), Some(CliOption::VolumeOut));
    assert_eq!(cli_option("--help"), None);
}

#[test]
fn vpn_identity_generated_once() {
    let mut c = Config::default();
    assert!(verifica_e_genera_chiavi_vpn(&mut c));
    let k = c.vpn_private_key.clone();
    assert!(decode_key(&k).is_some());
    assert!(!verifica_e_genera_chiavi_vpn(&mut c));
    assert_eq!(c.vpn_private_key, k);
}

#[test]
fn first_run_answers() {
    let c = audio_bridge::config::wizard_config("  Mario Rossi\n", " ABCDEF0123456789 \n");
    assert_eq!(c.customer_name, "Mario Rossi");
    assert_eq!(c.license_key, "ABCDEF0123456789");
    assert_eq!(c.target_ip, "127.0.0.1:12345");
    assert_eq!(c.local_port, 12345);
    assert_eq!(c.buffer_size_ms, 60);
    assert!(!c.vpn_enabled && !c.autostart);
}

#[test]
fn license_activation() {
    let key = audio_bridge::license::license_key("ABC123", "Cliente");
    let cmd = audio_bridge::config::activate_license(false, "ABC123", "Cliente", &key);
    assert!(matches!(cmd, Some(audio_bridge::config::AudioCommand::UpdateAuth(true))));
    assert!(audio_bridge::config::activate_license(true, "ABC123", "Cliente", &key).is_none());
    assert!(audio_bridge::config::activate_license(false, "ABC123", "Cliente", "0000").is_none());
}

#[test]
fn first_run_answers_trim_unicode_space() {
    let c = audio_bridge::config::wizard_config("\u{3000}Mario\u{a0}", "\tK\u{2009}");
    assert_eq!(c.customer_name, "Mario");
    assert_eq!(c.license_key, "K");
}
