use pytui_native::ansi::{attributes_with_link, get_base_attributes, get_link_id_from_attributes, has_link};

#[test]
fn attributes_with_link_and_get_link_id() {
    assert_eq!(get_link_id_from_attributes(attributes_with_link(0, 0)), 0);
    assert_eq!(get_link_id_from_attributes(attributes_with_link(1, 100)), 100);
    let attr = attributes_with_link(0xFF, 0x123456);
    assert_eq!(attr & 0xFF, 0xFF);
    assert_eq!(get_link_id_from_attributes(attr), 0x123456);
}

#[test]
fn link_bits_are_masked() {
    let attr = attributes_with_link(0x1234, 0xAB00_0001);
    assert_eq!(attr, 0x0000_0134);
    assert_eq!(get_base_attributes(attr), 0x34);
    assert!(has_link(attr));
    assert!(!has_link(0xFF));
}
