use rust_in_action::ethernet::MacAddress;

#[test]
fn from_octets_sets_local_and_clears_multicast() {
    let mac = MacAddress::from_octets([0xff, 1, 2, 3, 4, 5]);
    assert_eq!(mac.0, [0xfe, 1, 2, 3, 4, 5]);
    let mac = MacAddress::from_octets([0x00, 0, 0, 0, 0, 0xab]);
    assert_eq!(mac.0, [0x02, 0, 0, 0, 0, 0xab]);
}

#[test]
fn random_addresses_are_local_unicast() {
    for _ in 0..200 {
        let mac = MacAddress::new();
        assert_eq!(mac.0[0] & 0b10, 0b10);
        assert_eq!(mac.0[0] & 0b01, 0);
    }
}

#[test]
fn text_form() {
    let mac = MacAddress([0x02, 0x00, 0x5e, 0x10, 0xab, 0xff]);
    assert_eq!(mac.to_string(), "02:00:5e:10:ab:ff");
    let mac = MacAddress::from_octets([0x9c, 0x1, 0x0a, 0xb0, 0xc3, 0x7f]);
    assert_eq!(mac.to_string(), "9e:01:0a:b0:c3:7f");
}
