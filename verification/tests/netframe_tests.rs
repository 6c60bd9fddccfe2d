use audio_bridge::netframe::{dest_port_from_target, parse_ipv4, ping_frame, vpn_audio_frame};

#[test]
fn ipv4_parse_cases() {
    let ok: [(&str, [u8; 4]); 4] = [
        ("10.0.0.2", [10, 0, 0, 2]),
        ("0.0.0.0", [0, 0, 0, 0]),
        ("255.255.255.255", [255, 255, 255, 255]),
        ("192.168.11.1", [192, 168, 11, 1]),
    ];
    for (c, o) in ok {
        assert_eq!(parse_ipv4(c), Some(o.to_vec()), "input {:?}", c);
    }
    let bad = [
        "256.0.0.1", "1.2.3", "1.2.3.4.5", "01.2.3.4", "1.2.3.04", "1.2.3.", ".1.2.3", "a.b.c.d",
        "", "1..2.3", "1234.1.1.1", "127.000.0.1", " 1.2.3.4", "+1.2.3.4", "1.2.3.4:80",
    ];
    for c in bad {
        assert_eq!(parse_ipv4(c), None, "input {:?}", c);
    }
}

#[test]
fn destination_port() {
    assert_eq!(dest_port_from_target("127.0.0.1:3333"), 3333);
    assert_eq!(dest_port_from_target("127.0.0.1"), 12345);
    assert_eq!(dest_port_from_target("127.0.0.1:abc"), 12345);
    assert_eq!(dest_port_from_target("127.0.0.1:70000"), 12345);
    assert_eq!(dest_port_from_target("a:4000:5000"), 4000);
    assert_eq!(dest_port_from_target(":9"), 9);
}

#[test]
fn audio_envelope_bytes() {
    let pkt = [1u8, 2, 3];
    let f = vpn_audio_frame(&pkt, "10.0.0.2", 3333, 12345);
    let expected: Vec<u8> = vec![
        0x45, 0, 0, 31, 0, 0, 0, 0, 64, 17, 0, 0, 10, 0, 0, 2, 192, 168, 11, 1, 0x0d, 0x05, 0x30,
        0x39, 0, 11, 0, 0, 1, 2, 3,
    ];
    assert_eq!(f, expected);
    let g = vpn_audio_frame(&pkt, "bad", 1, 2);
    assert_eq!(&g[12..16], &[0, 0, 0, 0]);
    assert_eq!(g.len(), 31);
}

#[test]
fn audio_envelope_long_lengths() {
    let pkt = vec![0u8; 300];
    let f = vpn_audio_frame(&pkt, "10.0.0.2", 1, 2);
    assert_eq!(((f[2] as usize) << 8) | f[3] as usize, f.len());
    assert_eq!(((f[24] as usize) << 8) | f[25] as usize, f.len() - 20);
}

#[test]
fn ping_envelope_bytes() {
    let pkt = [9u8, 8];
    let f = ping_frame(&pkt, "10.0.0.2", "10.0.0.1:12345");
    assert_eq!(f, vec![0x45, 0, 0, 22, 0, 0, 0, 0, 64, 17, 0, 0, 10, 0, 0, 2, 10, 0, 0, 1, 9, 8]);
    let g = ping_frame(&pkt, "10.0.0.2", "host.example:1");
    assert_eq!(&g[12..20], &[0u8; 8]);
}
