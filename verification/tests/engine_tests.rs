use audio_bridge::codec::{bitrate_from_kbps, Application, Bitrate, Channels, Decoder, Encoder};
use audio_bridge::config::{AudioCommand, Config};
use audio_bridge::engine::{Destination, EngineAction, EngineState, RxEvent, Socket, TunnelOutput, TxGate};
use audio_bridge::frame::{pack_bin, unpack_bin};
use base64::Engine;

fn plain_engine() -> EngineState {
    let mut c = Config::default();
    c.target_ip = "10.0.0.1:3333".to_string();
    c.buffer_size_ms = 40;
    EngineState::new(&c, true)
}

fn sent_bytes(a: &EngineAction) -> Vec<u8> {
    match a {
        EngineAction::Send { bytes, .. } => bytes.clone(),
        _ => panic!("not a send"),
    }
}

#[test]
fn start_up_state() {
    let e = plain_engine();
    assert_eq!(e.delay_pkts, 2);
    assert_eq!(e.dest_port, 3333);
    assert!(!e.active && e.licensed && !e.tunnel_up);
    assert_eq!(e.tx_gate(), TxGate::Idle);
}

#[test]
fn sender_to_receiver_loopback() {
    let mut tx = plain_engine();
    let mut rx = plain_engine();
    tx.handle_command(AudioCommand::SetTransmitting(true));
    let a0 = tx.on_encoded(&[1, 2, 3]);
    let a1 = tx.on_encoded(&[4]);
    assert_eq!(tx.seq_tx, 2);
    assert_eq!(tx.bytes_tx, 12 + 10);
    let b0 = sent_bytes(&a0);
    let b1 = sent_bytes(&a1);
    assert_eq!(unpack_bin(&b0), Some((0, 0, vec![1, 2, 3])));
    assert_eq!(unpack_bin(&b1), Some((1, 0, vec![4])));
    if let EngineAction::Send { socket, dest: Destination::Target(t), .. } = &a0 {
        assert!(*socket == Socket::Current);
        assert_eq!(t, "10.0.0.1:3333");
    } else {
        panic!("expected a plain send");
    }
    assert_eq!(rx.on_payload(&b1, b1.len()), RxEvent::Audio);
    assert_eq!(rx.on_payload(&b0, b0.len()), RxEvent::Audio);
    assert_eq!(rx.bytes_rx, b0.len() + b1.len());
    assert_eq!(rx.jitter.len(), 2);
    assert_eq!(rx.playout(), Some(vec![1, 2, 3]));
    assert_eq!(rx.playout(), None);
}

#[test]
fn stop_sends_end_of_stream() {
    let mut tx = plain_engine();
    tx.handle_command(AudioCommand::SetTransmitting(true));
    assert_eq!(tx.tx_gate(), TxGate::Transmit);
    let acts = tx.handle_command(AudioCommand::SetTransmitting(false));
    assert_eq!(acts.len(), 1);
    let end = sent_bytes(&acts[0]);
    assert_eq!(end, pack_bin(0, 1, &[]));
    let mut rx = plain_engine();
    rx.on_payload(&pack_bin(9, 0, &[1]), 10);
    assert_eq!(rx.on_payload(&end, end.len()), RxEvent::EndOfStream);
    assert_eq!(rx.jitter.len(), 0);
    assert!(tx.handle_command(AudioCommand::SetTransmitting(false)).is_empty());
}

#[test]
fn simple_commands() {
    let mut e = plain_engine();
    let a = e.handle_command(AudioCommand::UpdateBitrate(128));
    assert!(matches!(a[0], EngineAction::SetBitrate(Bitrate::Bits(131072))));
    e.handle_command(AudioCommand::UpdateBufferSize(100));
    assert_eq!(e.delay_pkts, 5);
    e.handle_command(AudioCommand::UpdateAuth(false));
    e.handle_command(AudioCommand::SetTransmitting(true));
    assert_eq!(e.tx_gate(), TxGate::DiscardInput);
    e.handle_command(AudioCommand::UpdateTarget("1.2.3.4:5".to_string()));
    assert_eq!(e.target, "1.2.3.4:5");
    let r = e.handle_command(AudioCommand::UpdateLocalPort(4444));
    assert!(matches!(r[0], EngineAction::Rebind(4444)));
    let d = e.handle_command(AudioCommand::UpdateInputDevice("mic".to_string()));
    assert!(matches!(&d[0], EngineAction::OpenInput(n) if n == "mic"));
}

#[test]
fn vpn_switching() {
    let mut e = plain_engine();
    let on = e.handle_command(AudioCommand::UpdateVpnEnabled(true));
    assert_eq!(e.vpn_status, 1);
    assert!(matches!(on[1], EngineAction::ReloadVpnSettings));
    let (keys, logs) = e.vpn_restart("bad", "keys");
    assert!(keys.is_none());
    assert_eq!(e.vpn_status, 3);
    assert!(matches!(&logs[0], EngineAction::LogAppend(l) if l.starts_with("❌")));
    let k = base64::engine::general_purpose::STANDARD.encode([5u8; 32]);
    let (keys, _) = e.vpn_restart(&k, &k);
    assert_eq!(keys, Some((vec![5u8; 32], vec![5u8; 32])));
    let hs = e.tunnel_started(false, TunnelOutput::WriteToNetwork(vec![1, 2]));
    assert!(e.tunnel_up);
    assert!(matches!(&hs[0], EngineAction::Send { socket: Socket::Initial, dest: Destination::Endpoint, bytes } if bytes == &vec![1, 2]));
    let off = e.handle_command(AudioCommand::UpdateVpnEnabled(false));
    assert_eq!(off.len(), 3);
    assert!(!e.tunnel_up && !e.vpn_enabled);
    assert_eq!(e.vpn_status, 0);
}

#[test]
fn vpn_start_up_decisions() {
    let mut c = Config::default();
    c.vpn_enabled = true;
    c.vpn_allowed_ips = "10.9.0.0/24".to_string();
    let mut e = EngineState::new(&c, true);
    let k = base64::engine::general_purpose::STANDARD.encode([9u8; 32]);
    let (keys, logs) = e.vpn_startup(false, &k, &k);
    assert!(keys.is_some());
    assert_eq!(e.vpn_status, 1);
    assert_eq!(logs.len(), 3);
    assert!(matches!(&logs[2], EngineAction::Log(l) if l.ends_with("10.9.0.0/24")));
    let (none, logs2) = e.vpn_startup(true, "", &k);
    assert!(none.is_none());
    assert_eq!(e.vpn_status, 3);
    assert_eq!(logs2.len(), 1);
    let mut plain = plain_engine();
    let (n, l) = plain.vpn_startup(false, "", "");
    assert!(n.is_none() && l.is_empty());
    assert_eq!(plain.vpn_status, 0);
}

#[test]
fn tunnel_outputs() {
    let mut c = Config::default();
    c.vpn_enabled = true;
    let mut e = EngineState::new(&c, true);
    e.tunnel_started(true, TunnelOutput::Done);
    assert!(e.decapsulates());
    e.begin_round();
    assert_eq!(e.vpn_status, 1);
    let (p, a) = e.on_decapsulated(TunnelOutput::WriteToTunnelV4(vec![7, 7]));
    assert_eq!(p, Some(vec![7, 7]));
    assert!(a.is_empty());
    assert_eq!(e.vpn_status, 2);
    let (p, a) = e.on_decapsulated(TunnelOutput::Error("WireGuardError(ConnectionExpired)".to_string()));
    assert!(p.is_none() && a.is_empty());
    let (_, a) = e.on_decapsulated(TunnelOutput::Error("NoCurrentSession".to_string()));
    assert!(matches!(&a[0], EngineAction::Log(l) if l == "❌ Errore crittografico: NoCurrentSession"));
    let t = e.on_timer(TunnelOutput::WriteToNetwork(vec![0u8; 148]));
    assert!(matches!(&t[0], EngineAction::Log(l) if l == "🚀 Invio pacchetto Handshake/Keepalive al MikroTik (148 byte)"));
    assert!(matches!(&t[1], EngineAction::Send { dest: Destination::Connected, .. }));
    e.on_timer(TunnelOutput::Error("x".to_string()));
    assert_eq!(e.vpn_status, 3);
}

#[test]
fn vpn_receive_skips_udp_header() {
    let mut c = Config::default();
    c.vpn_enabled = true;
    let mut e = EngineState::new(&c, true);
    let mut raw = vec![0u8; 8];
    raw.extend(pack_bin(3, 0, &[1, 2]));
    assert_eq!(e.on_payload(&raw, 100), RxEvent::Audio);
    assert_eq!(e.bytes_rx, 100);
    assert_eq!(e.on_payload(&[1, 2, 3], 3), RxEvent::Ignored);
}

#[test]
fn vpn_audio_goes_through_tunnel() {
    let mut c = Config::default();
    c.vpn_enabled = true;
    c.local_port = 3333;
    let mut e = EngineState::new(&c, true);
    e.tunnel_started(true, TunnelOutput::Done);
    e.handle_command(AudioCommand::SetTransmitting(true));
    let a = e.on_encoded(&[1]);
    match a {
        EngineAction::Encapsulate { socket, dest: Destination::Endpoint, frame } => {
            assert!(socket == Socket::Initial);
            assert_eq!(frame.len(), 28 + 10);
            assert_eq!(&frame[16..20], &[192, 168, 11, 1]);
            assert_eq!(&frame[20..22], &[0x0d, 0x05]);
            assert_eq!(unpack_bin(&frame[28..]), Some((0, 0, vec![1])));
        },
        _ => panic!("expected encapsulation"),
    }
}

#[test]
fn one_second_tick() {
    let mut e = plain_engine();
    e.bytes_tx = 2048;
    e.bytes_rx = 128;
    let (tk, rk, ping) = e.on_second();
    assert_eq!((tk, rk), (16, 1));
    assert_eq!((e.bytes_tx, e.bytes_rx), (0, 0));
    assert_eq!(sent_bytes(&ping), pack_bin(0, 2, b"PING_AUDIO_TX"));
    let mut rx = plain_engine();
    let p = sent_bytes(&ping);
    assert_eq!(rx.on_payload(&p, p.len()), RxEvent::Other);
    assert_eq!(rx.jitter.len(), 0);
}

#[test]
fn codec_stand_ins() {
    let mut enc = Encoder::new(48000, Channels::Stereo, Application::Audio).unwrap();
    assert!(enc.set_bitrate(bitrate_from_kbps(96)).is_ok());
    assert!(Decoder::new(48000, Channels::Stereo).is_ok());
    assert_eq!(bitrate_from_kbps(320), Bitrate::Bits(327680));
    assert_eq!(bitrate_from_kbps(u32::MAX), Bitrate::Bits(-1024));
}

#[test]
fn numbering_survives_stop_and_start() {
    let mut tx = plain_engine();
    tx.handle_command(AudioCommand::SetTransmitting(true));
    let a0 = tx.on_encoded(&[10]);
    let stop = tx.handle_command(AudioCommand::SetTransmitting(false));
    assert_eq!(stop.len(), 1);
    assert_eq!(sent_bytes(&stop[0]), vec![0, 0, 0, 0, 0, 0, 0, 0, 1]);
    assert_eq!(tx.tx_gate(), TxGate::Idle);
    let again = tx.handle_command(AudioCommand::SetTransmitting(false));
    assert!(again.is_empty());
    tx.handle_command(AudioCommand::SetTransmitting(true));
    let a1 = tx.on_encoded(&[11]);
    assert_eq!(unpack_bin(&sent_bytes(&a0)), Some((0, 0, vec![10])));
    assert_eq!(unpack_bin(&sent_bytes(&a1)), Some((1, 0, vec![11])));
    assert_eq!(tx.seq_tx, 2);
}

#[test]
fn unlicensed_engine_neither_sends_nor_plays() {
    let mut e = plain_engine();
    e.handle_command(AudioCommand::SetTransmitting(true));
    e.handle_command(AudioCommand::UpdateAuth(false));
    assert_eq!(e.tx_gate(), TxGate::DiscardInput);
    let f = pack_bin(0, 0, &[1]);
    let g = pack_bin(1, 0, &[2]);
    let h = pack_bin(2, 0, &[3]);
    e.on_payload(&f, f.len());
    e.on_payload(&g, g.len());
    e.on_payload(&h, h.len());
    assert_eq!(e.playout(), None);
    e.handle_command(AudioCommand::UpdateAuth(true));
    assert_eq!(e.tx_gate(), TxGate::Transmit);
}

#[test]
fn counters_between_ticks() {
    let mut tx = plain_engine();
    tx.handle_command(AudioCommand::SetTransmitting(true));
    for _ in 0..100 {
        tx.on_encoded(&[0u8; 91]);
    }
    let ping = pack_bin(0, 2, b"PING_AUDIO_TX");
    tx.on_payload(&ping, ping.len());
    tx.on_payload(&[1, 2], 2);
    assert_eq!(tx.bytes_tx, 100 * 100);
    assert_eq!(tx.bytes_rx, ping.len());
    let (tk, rk, _) = tx.on_second();
    assert_eq!(tk, (100 * 100 * 8 / 1024) as u32);
    assert_eq!(rk, (ping.len() * 8 / 1024) as u32);
}

#[test]
fn only_audio_frames_are_held() {
    let mut rx = plain_engine();
    let ping = pack_bin(7, 2, b"PING_AUDIO_TX");
    rx.on_payload(&ping, ping.len());
    assert_eq!(rx.jitter.len(), 0);
    let a = pack_bin(7, 0, &[1]);
    let b = pack_bin(7, 0, &[2]);
    rx.on_payload(&a, a.len());
    rx.on_payload(&b, b.len());
    assert_eq!(rx.jitter.len(), 1);
    rx.handle_command(AudioCommand::UpdateBufferSize(100));
    assert_eq!(rx.jitter.len(), 0);
    assert_eq!(rx.delay_pkts, 5);
}

#[test]
fn tunnel_driven_by_the_engine() {
    let mut c = Config::default();
    c.vpn_enabled = true;
    let mut e = EngineState::new(&c, true);
    let peer = boringtun::x25519::PublicKey::from(&boringtun::x25519::StaticSecret::from([7u8; 32])).to_bytes();
    let (mut t, acts) = e.start_tunnel(&[9u8; 32], &peer, true);
    assert!(e.tunnel_up);
    if let Some(first) = acts.first() {
        assert!(matches!(first, EngineAction::Send { socket: Socket::Current, dest: Destination::Endpoint, bytes } if bytes.len() == 148 || bytes.len() == 32));
    }
    let (p, logs) = e.read_through_tunnel(&mut t, &[1, 2, 3]);
    assert!(p.is_none());
    assert_eq!(logs.len(), 1);
    assert!(matches!(&logs[0], EngineAction::Log(l) if l == "❌ Errore crittografico: InvalidPacket"));
    let mut bad_shape = vec![4u8, 1, 0, 0];
    bad_shape.resize(40, 0);
    let (_, logs) = e.read_through_tunnel(&mut t, &bad_shape);
    assert!(matches!(&logs[0], EngineAction::Log(l) if l == "❌ Errore crittografico: InvalidPacket"));
    let (p, logs) = e.read_through_tunnel(&mut t, &[]);
    assert!(p.is_none());
    assert!(logs.iter().all(|a| matches!(a, EngineAction::Send { .. })));
    let _ = e.tick_tunnel(&mut t);
    if let Some(sealed) = audio_bridge::tunnel::seal_frame(&mut t, &[1, 2, 3]) {
        assert!(sealed.len() == 3 + 32 || sealed.len() == 148);
    }
    assert!(e.vpn_status <= 3);
}
