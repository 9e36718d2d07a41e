use nicocast_v2::p2p::{
    hex_to_bytes, parse_wfd_subelement, wps_dev_type_to_bytes, HexError, WfdError, WpsError,
};

#[test]
fn hex_to_bytes_valid() {
    let bytes = hex_to_bytes("000600111c4400c8").unwrap();
    assert_eq!(bytes, vec![0x00, 0x06, 0x00, 0x11, 0x1c, 0x44, 0x00, 0xc8]);
}

#[test]
fn hex_to_bytes_case_insensitive() {
    let bytes = hex_to_bytes("DEADBEEF").unwrap();
    assert_eq!(bytes, vec![0xDE, 0xAD, 0xBE, 0xEF]);
}

#[test]
fn hex_to_bytes_odd_length_errors() {
    assert!(hex_to_bytes("abc").is_err());
}

#[test]
fn hex_to_bytes_invalid_char_errors() {
    assert!(hex_to_bytes("ZZZZ").is_err());
}

#[test]
fn wfd_ie_subelement_structure() {
    // Format used by wpa_supplicant WFDIEs:
    //   ID(1) | Length(1) | DevInfo(2 BE) | CtrlPort(2 BE) | MaxTput(2 BE)
    let bytes = hex_to_bytes("000600111c4400c8").unwrap();
    assert_eq!(bytes[0], 0x00, "subelement ID must be 0x00 (WFD Device Info)");
    assert_eq!(bytes[1], 6, "subelement length must be 6");
    let dev_info = u16::from_be_bytes([bytes[2], bytes[3]]);
    assert_eq!(
        dev_info & 0x0003,
        0x0001,
        "bits 1:0 must be 01 (Primary Sink)"
    );
    assert_ne!(dev_info & 0x0010, 0, "bit 4 must be 1 (Session Available)");
    let ctrl_port = u16::from_be_bytes([bytes[4], bytes[5]]);
    assert_eq!(ctrl_port, 7236, "RTSP control port must be 7236");
}

#[test]
fn wps_dev_type_display_television() {
    // "7-0050F204-1" → Category 7 (Display), OUI 00:50:F2:04, Sub 1 (TV)
    let bytes = wps_dev_type_to_bytes("7-0050F204-1").unwrap();
    // Full expected byte array: [cat_hi, cat_lo, oui×4, sub_hi, sub_lo]
    assert_eq!(
        bytes,
        [0x00, 0x07, 0x00, 0x50, 0xF2, 0x04, 0x00, 0x01],
        "complete 8-byte WPS blob for 7-0050F204-1"
    );
    assert_eq!(u16::from_be_bytes([bytes[0], bytes[1]]), 7, "category 7 = Display");
    assert_eq!(&bytes[2..6], &[0x00, 0x50, 0xF2, 0x04], "OUI 00:50:F2:04");
    assert_eq!(u16::from_be_bytes([bytes[6], bytes[7]]), 1, "subcategory 1 = TV");
}

#[test]
fn wps_dev_type_bad_format_errors() {
    assert!(wps_dev_type_to_bytes("7-0050F204").is_err(), "missing subcategory");
    assert!(wps_dev_type_to_bytes("x-0050F204-1").is_err(), "non-numeric category");
    assert!(wps_dev_type_to_bytes("7-ZZZZZZZZ-1").is_err(), "invalid OUI hex");
    assert!(wps_dev_type_to_bytes("7-0050F2-1").is_err(), "OUI too short");
}

#[test]
fn parse_wfd_subelement_default_ie() {
    // Default WFD IE: 000600111c4400c8
    // ID=0x00, Length=6 (1 byte), Payload=00111c4400c8
    let bytes = hex_to_bytes("000600111c4400c8").unwrap();
    let (id, payload_hex) = parse_wfd_subelement(&bytes).unwrap();
    assert_eq!(id, 0x00, "subelement ID");
    assert_eq!(payload_hex, "00111c4400c8", "payload hex (without header)");
}

#[test]
fn parse_wfd_subelement_id_extracted() {
    // Subelement with ID=1, length=2 (1 byte), payload=[AB, CD]
    let bytes: Vec<u8> = vec![0x01, 0x02, 0xAB, 0xCD];
    let (id, payload_hex) = parse_wfd_subelement(&bytes).unwrap();
    assert_eq!(id, 1);
    assert_eq!(payload_hex, "abcd");
}

#[test]
fn parse_wfd_subelement_too_short_errors() {
    assert!(parse_wfd_subelement(&[]).is_err(), "empty slice needs at least 2 bytes");
    // Header says length=3 but no payload bytes present
    assert!(parse_wfd_subelement(&[0x00, 0x03]).is_err(), "length mismatch");
}

#[test]
fn parse_wfd_subelement_length_mismatch_errors() {
    // Header says length=10 but only 2 payload bytes are present
    let bytes: Vec<u8> = vec![0x00, 0x0A, 0x01, 0x02];
    assert!(parse_wfd_subelement(&bytes).is_err(), "length mismatch");
}

#[test]
fn parse_wfd_subelement_zero_length_payload() {
    // Subelement with a zero-length payload (ID=0, Length=0)
    let bytes: Vec<u8> = vec![0x00, 0x00];
    let (id, payload_hex) = parse_wfd_subelement(&bytes).unwrap();
    assert_eq!(id, 0x00);
    assert_eq!(payload_hex, "", "empty payload hex");
}

#[test]
fn hex_errors_and_messages() {
    let e = hex_to_bytes("abc").unwrap_err();
    assert!(matches!(e, HexError::OddLength { ref hex } if hex == "abc"));
    assert_eq!(e.message(), "hex string has odd length: 'abc'");

    let e = hex_to_bytes("00zz0g").unwrap_err();
    assert!(matches!(e, HexError::InvalidByte { position: 2, ref pair } if pair == "zz"));
    assert_eq!(e.message(), "invalid hex byte at position 2: 'zz'");

    assert_eq!(hex_to_bytes("").unwrap(), Vec::<u8>::new());
}

#[test]
fn only_hex_digits_are_decoded() {
    for a in 0u8..128 {
        for b in 0u8..128 {
            let (hi, lo) = (char::from(a), char::from(b));
            let expected = match (hi.to_digit(16), lo.to_digit(16)) {
                (Some(h), Some(l)) => Some(16 * h + l),
                _ => None,
            };
            let pair = format!("{hi}{lo}");
            let got = hex_to_bytes(&pair).ok().map(|v| u32::from(v[0]));
            assert_eq!(got, expected, "{pair:?}");
        }
    }
    assert_eq!(
        hex_to_bytes("00+f").unwrap_err().message(),
        "invalid hex byte at position 2: '+f'"
    );
    assert!(wps_dev_type_to_bytes("7-+0+5F204-1").is_err());
}

#[test]
fn wide_characters_are_no_hex_digits() {
    let message = |hex: &str| hex_to_bytes(hex).unwrap_err().message();
    // Two bytes stand for a pair; a wider character, or one that begins inside
    // a pair, is named whole.
    assert_eq!(message("éé"), "invalid hex byte at position 0: 'é'");
    assert_eq!(message("00é"), "invalid hex byte at position 2: 'é'");
    assert_eq!(message("aéb"), "invalid hex byte at position 0: 'aé'");
    assert_eq!(message("€0"), "invalid hex byte at position 0: '€'");
    assert_eq!(message("00😀"), "invalid hex byte at position 2: '😀'");
    assert_eq!(message("é0"), "hex string has odd length: 'é0'");
    assert_eq!(
        wps_dev_type_to_bytes("7-aéb-1").unwrap_err().message(),
        "invalid OUI 'aéb' in WPS dev type"
    );
}

#[test]
fn hex_round_trip() {
    let mut ie = vec![9u8, 255];
    for b in 0u8..255 {
        ie.push(b);
    }
    let (id, payload) = parse_wfd_subelement(&ie).unwrap();
    assert_eq!(id, 9);
    assert_eq!(payload.len(), 510);
    assert_eq!(hex_to_bytes(&payload).unwrap(), ie[2..].to_vec());
    assert_eq!(hex_to_bytes(&payload.to_uppercase()).unwrap(), ie[2..].to_vec());
}

#[test]
fn subelement_leaves_what_follows() {
    let (id, payload) = parse_wfd_subelement(&[2, 1, 0x0f, 3, 4]).unwrap();
    assert_eq!((id, payload.as_str()), (2, "0f"));
}

#[test]
fn subelement_errors_and_messages() {
    let e = parse_wfd_subelement(&[7]).unwrap_err();
    assert!(matches!(e, WfdError::TooShort { len: 1 }));
    assert_eq!(e.message(), "WFD IE too short to parse subelement header (1 bytes)");

    let e = parse_wfd_subelement(&[0x00, 0x0A, 0x01, 0x02]).unwrap_err();
    assert!(matches!(e, WfdError::LengthMismatch { declared: 10, available: 2 }));
    assert_eq!(
        e.message(),
        "WFD IE length mismatch: header says 10 bytes but only 2 available"
    );
}

#[test]
fn dev_type_errors_and_messages() {
    let e = wps_dev_type_to_bytes("7-0050F204").unwrap_err();
    assert!(matches!(e, WpsError::Format { .. }));
    assert_eq!(
        e.message(),
        "invalid WPS device type '7-0050F204': expected format N-XXXXXXXX-N"
    );

    let e = wps_dev_type_to_bytes("65536-0050F204-1").unwrap_err();
    assert!(matches!(e, WpsError::Category { .. }));
    assert_eq!(e.message(), "invalid category '65536' in WPS dev type");

    let e = wps_dev_type_to_bytes("7-ZZZZZZZZ-1").unwrap_err();
    assert!(matches!(
        e,
        WpsError::Oui { cause: HexError::InvalidByte { position: 0, .. }, .. }
    ));
    assert_eq!(e.message(), "invalid OUI 'ZZZZZZZZ' in WPS dev type");

    let e = wps_dev_type_to_bytes("7-0050F2-1").unwrap_err();
    assert!(matches!(e, WpsError::OuiLength { len: 3 }));
    assert_eq!(e.message(), "WPS OUI must be exactly 4 bytes, got 3");

    let e = wps_dev_type_to_bytes("7-0050F204-1-2").unwrap_err();
    assert!(matches!(e, WpsError::Subcategory { .. }));
    assert_eq!(e.message(), "invalid subcategory '1-2' in WPS dev type");
}

#[test]
fn dev_type_layout() {
    assert_eq!(
        wps_dev_type_to_bytes("258-aabbccdd-65535").unwrap(),
        [1, 2, 0xaa, 0xbb, 0xcc, 0xdd, 255, 255]
    );
    assert_eq!(
        wps_dev_type_to_bytes("0-00000000-007").unwrap(),
        [0, 0, 0, 0, 0, 0, 0, 7]
    );
}
