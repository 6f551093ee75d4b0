use sonetto::encoding::{ansi_host, read_wide_string, wants_wide_unit, wide_host};
use sonetto::text::hex_prefix;

#[test]
fn wide_hosts_end_with_a_nul() {
    assert_eq!(wide_host("ab"), vec![0x61, 0x62, 0]);
    assert_eq!(wide_host("\u{10437}"), vec![0xd801, 0xdc37, 0]);
    assert_eq!(wide_host(""), vec![0]);
}

#[test]
fn ansi_hosts_end_with_a_nul_and_hold_no_other() {
    assert_eq!(ansi_host("a\u{e9}"), Ok(vec![0x61, 0xc3, 0xa9, 0]));
    assert_eq!(ansi_host("a\0b\0"), Err(1));
}

#[test]
fn wide_strings_are_read_up_to_the_nul() {
    assert_eq!(read_wide_string(&[0x61, 0, 0x62], 512).as_deref(), Some("a"));
    assert_eq!(read_wide_string(&[0], 512).as_deref(), Some(""));
    assert_eq!(read_wide_string(&[0x61, 0x62], 2), None);
    assert_eq!(read_wide_string(&[0x61, 0x62, 0], 2), None);
    assert_eq!(read_wide_string(&[], 0), None);
}

#[test]
fn surrogates_without_a_partner_are_replaced() {
    assert_eq!(
        read_wide_string(&[0xd801, 0xdc37, 0xd801, 0x61, 0xdc37, 0], 512).as_deref(),
        Some("\u{10437}\u{fffd}a\u{fffd}")
    );
}

#[test]
fn wide_hosts_read_back() {
    for host in ["reverse1999.example", "h\u{e4}user.example", "\u{1f600}"] {
        let units = wide_host(host);
        assert_eq!(read_wide_string(&units, 512).as_deref(), Some(host));
    }
}

#[test]
fn units_are_wanted_up_to_the_nul_or_the_limit() {
    assert!(wants_wide_unit(&[], 2));
    assert!(wants_wide_unit(&[0x61], 2));
    assert!(!wants_wide_unit(&[0x61, 0x62], 2));
    assert!(!wants_wide_unit(&[0], 2));
}

#[test]
fn hex_has_two_digits_for_a_byte() {
    assert_eq!(hex_prefix(&[0x00, 0x0f, 0xa0, 0xff]), "000fa0ff");
    assert_eq!(hex_prefix(&[]), "");
}
