use roller::ola::{new_header, PROTOCOL_VERSION, SIZE_MASK};

#[test]
fn header_carries_version_and_size() {
    assert_eq!(new_header(0), [0, 0, 0, 0x10]);
    assert_eq!(new_header(0x0203), [0x03, 0x02, 0, 0x10]);
    let h = u32::from_le_bytes(new_header(12345));
    assert_eq!(h >> 28, PROTOCOL_VERSION);
    assert_eq!(h & SIZE_MASK, 12345);
}

#[test]
fn header_size_is_cut_to_28_bits() {
    assert_eq!(new_header(0x1000_0005), [0x05, 0, 0, 0x10]);
}
