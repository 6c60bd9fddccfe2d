use audio_bridge::frame::{pack_bin, unpack_bin};

#[test]
fn pack_bin_layout() {
    let v = pack_bin(0x0102030405060708, 7, &[9, 10, 11]);
    assert_eq!(v, vec![1, 2, 3, 4, 5, 6, 7, 8, 7, 9, 10, 11]);
}

#[test]
fn pack_bin_empty_payload() {
    let v = pack_bin(0, 1, &[]);
    assert_eq!(v, vec![0, 0, 0, 0, 0, 0, 0, 0, 1]);
}

#[test]
fn unpack_bin_roundtrip() {
    for seq in [0u64, 1, 255, 256, 0xdead_beef, u64::MAX] {
        for ctrl in [0u8, 1, 2, 255] {
            let data: Vec<u8> = (0..(seq % 17) as u8).collect();
            let v = pack_bin(seq, ctrl, &data);
            assert_eq!(unpack_bin(&v), Some((seq, ctrl, data.clone())));
        }
    }
}

#[test]
fn unpack_bin_short_buffers() {
    for n in 0..9usize {
        let buf = vec![0xffu8; n];
        assert_eq!(unpack_bin(&buf), None);
    }
    assert_eq!(unpack_bin(&[0, 0, 0, 0, 0, 0, 0, 5, 2]), Some((5, 2, vec![])));
}

#[test]
fn unpack_then_pack_gives_buffer_back() {
    let buf = [0x10u8, 0x20, 0x30, 0x40, 0x50, 0x60, 0x70, 0x80, 0x00, 0xaa, 0xbb];
    let (s, c, d) = unpack_bin(&buf).unwrap();
    assert_eq!(s, 0x1020304050607080);
    assert_eq!(pack_bin(s, c, &d), buf.to_vec());
}
