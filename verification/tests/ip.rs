use glow::ip::IpAddress;

#[test]
fn four_bytes_are_an_ipv4_address() {
    assert_eq!(IpAddress::from_bytes(&[192, 168, 1, 10]), Some(IpAddress::V4([192, 168, 1, 10])));
    assert_eq!(IpAddress::from_bytes(&[0, 0, 0, 0]), Some(IpAddress::V4([0, 0, 0, 0])));
}

#[test]
fn sixteen_bytes_are_an_ipv6_address() {
    let bytes = [0xfe, 0x80, 0, 0, 0, 0, 0, 0, 0x02, 0x11, 0x22, 0xff, 0xfe, 0x33, 0x44, 0x55];
    assert_eq!(
        IpAddress::from_bytes(&bytes),
        Some(IpAddress::V6([0xfe80, 0, 0, 0, 0x0211, 0x22ff, 0xfe33, 0x4455]))
    );
}

#[test]
fn other_lengths_are_no_address() {
    assert_eq!(IpAddress::from_bytes(&[]), None);
    assert_eq!(IpAddress::from_bytes(&[1, 2, 3]), None);
    assert_eq!(IpAddress::from_bytes(&[1, 2, 3, 4, 5]), None);
    assert_eq!(IpAddress::from_bytes(&[0; 15]), None);
    assert_eq!(IpAddress::from_bytes(&[0; 17]), None);
}
