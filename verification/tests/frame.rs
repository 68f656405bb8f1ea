use makepad_logic::frame::{decode_frame_header, encode_frame_header};

#[test]
fn header_is_big_endian_length() {
    let h = encode_frame_header(0x0102_0304_0506_0708);
    assert_eq!(h, vec![1, 2, 3, 4, 5, 6, 7, 8]);
    assert_eq!(h, 0x0102_0304_0506_0708u64.to_be_bytes().to_vec());
}

#[test]
fn header_round_trip() {
    for n in [0u64, 1, 255, 256, 65_536, u64::MAX] {
        let h = encode_frame_header(n);
        assert_eq!(decode_frame_header(&h), n);
        assert_eq!(decode_frame_header(&h), u64::from_be_bytes(h.clone().try_into().unwrap()));
    }
}
