use sonetto::route::should_route_tls_to_private;
use sonetto::tls::{
    adjust_u16, adjust_u24, extract_tls_sni, is_readable, is_tls_client_hello, rewrite_tls_sni,
    TlsError,
};

fn server_name_extension(host: &[u8]) -> Vec<u8> {
    let name_list_len = 3 + host.len();
    let extension_len = 2 + name_list_len;
    let mut extension = vec![
        0,
        0,
        (extension_len >> 8) as u8,
        extension_len as u8,
        (name_list_len >> 8) as u8,
        name_list_len as u8,
        0,
        (host.len() >> 8) as u8,
        host.len() as u8,
    ];
    extension.extend_from_slice(host);
    extension
}

fn record_with(extensions: &[u8]) -> Vec<u8> {
    let mut body = vec![0x03, 0x03];
    body.extend_from_slice(&[0; 32]);
    body.push(0);
    body.extend_from_slice(&[0, 2, 0, 0x2f]);
    body.extend_from_slice(&[1, 0]);
    body.extend_from_slice(&[(extensions.len() >> 8) as u8, extensions.len() as u8]);
    body.extend_from_slice(extensions);

    let handshake_len = body.len();
    let mut handshake = vec![
        1,
        (handshake_len >> 16) as u8,
        (handshake_len >> 8) as u8,
        handshake_len as u8,
    ];
    handshake.extend_from_slice(&body);

    let mut record = vec![
        0x16,
        0x03,
        0x01,
        (handshake.len() >> 8) as u8,
        handshake.len() as u8,
    ];
    record.extend_from_slice(&handshake);
    record
}

fn tls_client_hello(host: &str) -> Vec<u8> {
    record_with(&server_name_extension(host.as_bytes()))
}

#[test]
fn detects_tls_client_hello_records() {
    assert!(is_tls_client_hello(&[0x16, 0x03, 0x01, 0x01, 0x00]));
    assert!(is_tls_client_hello(&[0x16, 0x03, 0x03, 0x00, 0xf1]));
}

#[test]
fn keeps_game_protocol_out_of_tls_route() {
    assert!(!is_tls_client_hello(&[0x20, 0x00, 0x00, 0x00, 0x01]));
    assert!(!is_tls_client_hello(&[0x16, 0x04, 0x01, 0x01, 0x00]));
    assert!(!is_tls_client_hello(&[0x16, 0x03]));
}

#[test]
fn routes_sdk_sni_to_private_tls() {
    let hello = tls_client_hello("game-re-en-service.sl916.com");
    assert_eq!(
        extract_tls_sni(&hello).as_deref(),
        Some("game-re-en-service.sl916.com")
    );
    assert!(should_route_tls_to_private(&hello));
}

#[test]
fn leaves_crash_reporting_tls_on_the_official_route() {
    let hello = tls_client_hello("pc.crashsight.wetest.net");
    assert_eq!(
        extract_tls_sni(&hello).as_deref(),
        Some("pc.crashsight.wetest.net")
    );
    assert!(!should_route_tls_to_private(&hello));
}

#[test]
fn names_are_read_behind_other_extensions() {
    let mut extensions = vec![0, 0x10, 0, 2, 7, 7];
    extensions.extend_from_slice(&server_name_extension(b"sl916.com"));
    let hello = record_with(&extensions);
    assert_eq!(extract_tls_sni(&hello).as_deref(), Some("sl916.com"));
}

#[test]
fn records_without_a_name_give_none() {
    assert_eq!(extract_tls_sni(&record_with(&[])), None);
    assert_eq!(extract_tls_sni(&record_with(&[0, 0x10, 0, 2, 7, 7])), None);
    // An extension that overruns the list ends the search.
    assert_eq!(extract_tls_sni(&record_with(&[0, 0x10, 0, 9, 7, 7])), None);
    // A name that is no UTF-8 is none.
    assert_eq!(
        extract_tls_sni(&record_with(&server_name_extension(&[0xff]))),
        None
    );
    // Another handshake message, a message that overruns the record, a prefix.
    let mut hello = tls_client_hello("sl916.com");
    hello[5] = 2;
    assert_eq!(extract_tls_sni(&hello), None);
    let mut hello = tls_client_hello("sl916.com");
    hello[8] += 1;
    assert_eq!(extract_tls_sni(&hello), None);
    assert_eq!(extract_tls_sni(&[0x16, 0x03]), None);
    assert_eq!(extract_tls_sni(&[0x17, 0x03, 0x03, 0x00]), None);
}

#[test]
fn some_records_are_too_short_to_be_read() {
    assert!(!is_readable(&[0x16, 3, 1, 0, 0]));
    assert!(!is_readable(&[0x16, 3, 1, 0, 3, 1, 0, 0]));
    assert!(is_readable(&[0x16, 3, 1, 0, 3, 1, 0, 0, 0]));
    assert!(is_readable(&[0x16, 3, 1, 0, 1, 2]));
    assert!(is_readable(&[0x16, 3, 1, 0]));
    assert!(is_readable(&[0x17, 3, 1, 0, 0]));
    assert!(is_readable(&tls_client_hello("sl916.com")));
}

#[test]
fn replaced_names_change_the_lengths_around_them() {
    let mut record = tls_client_hello("sl916.com");
    let before = record.clone();
    let report = rewrite_tls_sni(&mut record, "reverse1999.example");
    assert_eq!(
        report,
        Ok(Some(
            "game tls SNI rewrite sl916.com -> reverse1999.example".to_string()
        ))
    );
    // Ten bytes more; the length of all extensions is left as it was.
    assert_eq!(record.len(), before.len() + 10);
    let mut expected = record_with(&server_name_extension(b"reverse1999.example"));
    expected[50] = before[50];
    expected[51] = before[51];
    assert_eq!(record, expected);
}

#[test]
fn names_of_the_same_length_are_read_back() {
    let mut record = tls_client_hello("sl916.com");
    assert!(rewrite_tls_sni(&mut record, "abc.local").is_ok());
    assert_eq!(record, tls_client_hello("abc.local"));
    assert_eq!(extract_tls_sni(&record).as_deref(), Some("abc.local"));
}

#[test]
fn longer_names_are_read_back_where_the_extensions_have_room() {
    let mut extensions = server_name_extension(b"sl916.com");
    extensions.extend_from_slice(&[0, 0x10, 0, 12, 1, 2, 3, 4, 5, 6, 7, 8, 9, 10, 11, 12]);
    let mut record = record_with(&extensions);
    assert!(rewrite_tls_sni(&mut record, "reverse1999.example").is_ok());
    assert_eq!(
        extract_tls_sni(&record).as_deref(),
        Some("reverse1999.example")
    );
}

#[test]
fn shorter_names_leave_the_extensions_too_long_to_be_read() {
    let mut record = tls_client_hello("sl916.com");
    assert!(rewrite_tls_sni(&mut record, "a.b").is_ok());
    assert_eq!(extract_tls_sni(&record), None);
}

#[test]
fn a_name_replaced_by_itself_changes_nothing() {
    let mut record = tls_client_hello("gamesdk-en.sl916.com");
    let before = record.clone();
    assert!(rewrite_tls_sni(&mut record, "gamesdk-en.sl916.com").is_ok());
    assert_eq!(record, before);
}

#[test]
fn invalid_names_are_reported_with_replacement_characters() {
    let mut record = record_with(&server_name_extension(&[0x61, 0xff, 0x62]));
    assert_eq!(
        rewrite_tls_sni(&mut record, "x"),
        Ok(Some("game tls SNI rewrite a\u{fffd}b -> x".to_string()))
    );
}

#[test]
fn records_without_a_name_are_left_as_they_are() {
    let mut record = record_with(&[]);
    let before = record.clone();
    assert_eq!(
        rewrite_tls_sni(&mut record, "x"),
        Ok(Some(
            "game tls SNI not present; private TLS endpoint selected".to_string()
        ))
    );
    assert_eq!(record, before);
    let mut short = vec![0x16, 0x03, 0x01, 0x00, 0x01, 0x01];
    assert_eq!(rewrite_tls_sni(&mut short, "x"), Ok(None));
    assert_eq!(short, [0x16, 0x03, 0x01, 0x00, 0x01, 0x01]);
}

#[test]
fn names_with_a_list_too_short_are_read_and_not_replaced() {
    let mut record = tls_client_hello("sl916.com");
    // The length of the name list stands behind the head of the extension.
    record[56] = 0;
    record[57] = 2;
    assert_eq!(extract_tls_sni(&record).as_deref(), Some("sl916.com"));
    assert_eq!(
        rewrite_tls_sni(&mut record, "x"),
        Ok(Some(
            "game tls SNI not present; private TLS endpoint selected".to_string()
        ))
    );
}

#[test]
fn hosts_over_255_bytes_are_refused() {
    let mut record = tls_client_hello("sl916.com");
    let before = record.clone();
    assert_eq!(
        rewrite_tls_sni(&mut record, &"h".repeat(256)),
        Err(TlsError::HostTooLong)
    );
    assert_eq!(record, before);
    assert!(rewrite_tls_sni(&mut record, &"h".repeat(255)).is_ok());
    // Where no name is looked for, the host does not matter.
    let mut short = vec![0x17];
    assert_eq!(rewrite_tls_sni(&mut short, &"h".repeat(256)), Ok(None));
}

#[test]
fn lengths_that_do_not_fit_are_refused_after_the_name_is_replaced() {
    let mut record = tls_client_hello("sl916.com");
    // A name list of three bytes cannot shrink by eight.
    record[56] = 0;
    record[57] = 3;
    assert_eq!(
        rewrite_tls_sni(&mut record, "x"),
        Err(TlsError::LengthExceedsU16)
    );
    assert_eq!(record[58..62], [0, 0, 1, b'x']);
    assert_eq!(record[56..58], [0, 3]);
}

#[test]
fn fields_take_what_fits() {
    let mut two = [0u8; 2];
    assert_eq!(adjust_u16(&mut two, 0xabcd), Ok(()));
    assert_eq!(two, [0xab, 0xcd]);
    assert_eq!(
        adjust_u16(&mut two, 0x1_0000),
        Err(TlsError::LengthExceedsU16)
    );
    assert_eq!(two, [0xab, 0xcd]);
    let mut three = [0u8; 3];
    assert_eq!(adjust_u24(&mut three, 0xabcdef), Ok(()));
    assert_eq!(three, [0xab, 0xcd, 0xef]);
    assert_eq!(
        adjust_u24(&mut three, 0x100_0000),
        Err(TlsError::HandshakeLengthExceedsU24)
    );
    assert_eq!(
        adjust_u16(&mut three, 1),
        Err(TlsError::LengthExceedsU16)
    );
    assert_eq!(
        adjust_u24(&mut two, 1),
        Err(TlsError::HandshakeLengthExceedsU24)
    );
    assert_eq!(three, [0xab, 0xcd, 0xef]);
}

#[test]
fn tls_errors_have_words() {
    assert_eq!(TlsError::HostTooLong.message(), "TLS SNI host is too long");
    assert_eq!(
        TlsError::LengthExceedsU16.message(),
        "TLS length exceeds u16"
    );
    assert_eq!(
        TlsError::HandshakeLengthExceedsU24.message(),
        "TLS handshake length exceeds u24"
    );
}
