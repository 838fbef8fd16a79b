use gpg_bridge::parse_assuan;
use gpg_bridge::parse_cygwin;
use gpg_bridge::parse_rendezvous;
use gpg_bridge::starts_cygwin;
use gpg_bridge::BridgeError;

fn assuan_file(prefix: &[u8], nonce: &[u8]) -> Vec<u8> {
    let mut v = prefix.to_vec();
    v.extend_from_slice(nonce);
    v
}

fn sample_nonce() -> Vec<u8> {
    (0u8..16).collect()
}

#[test]
fn assuan_round_trip_example() {
    // ASCII `12345\n` followed by the bytes 00 01 .. 0f.
    let file = assuan_file(b"12345\n", &sample_nonce());
    let ep = parse_rendezvous(&file).unwrap();
    assert_eq!(ep.port, 12345);
    assert_eq!(ep.nonce, sample_nonce());
}

#[test]
fn assuan_accepts_surrounding_whitespace() {
    let file = assuan_file(b" 443 \r\n", &[0xAA; 16]);
    let ep = parse_assuan(&file).unwrap();
    assert_eq!(ep.port, 443);
    assert_eq!(ep.nonce, vec![0xAA; 16]);
}

#[test]
fn assuan_accepts_leading_zeros() {
    let file = assuan_file(b"007\n", &[1; 16]);
    let ep = parse_assuan(&file).unwrap();
    assert_eq!(ep.port, 7);
}

#[test]
fn assuan_accepts_largest_port() {
    let file = assuan_file(b"65535\n", &[9; 16]);
    let ep = parse_assuan(&file).unwrap();
    assert_eq!(ep.port, 65535);
}

#[test]
fn assuan_rejects_port_zero() {
    let file = assuan_file(b"0\n", &[1; 16]);
    let e = parse_rendezvous(&file).unwrap_err();
    assert!(matches!(e, BridgeError::InvalidData(_)));
}

#[test]
fn assuan_rejects_port_above_range() {
    let file = assuan_file(b"65536\n", &[1; 16]);
    let e = parse_rendezvous(&file).unwrap_err();
    assert!(matches!(e, BridgeError::InvalidData(_)));
}

#[test]
fn assuan_rejects_huge_port() {
    let file = assuan_file(b"4294967297\n", &[1; 16]);
    let e = parse_rendezvous(&file).unwrap_err();
    assert!(matches!(e, BridgeError::InvalidData(_)));
}

#[test]
fn assuan_rejects_non_digit_port() {
    let file = assuan_file(b"12a45\n", &[1; 16]);
    let e = parse_rendezvous(&file).unwrap_err();
    assert!(matches!(e, BridgeError::InvalidData(_)));
}

#[test]
fn assuan_rejects_empty_port() {
    let file = assuan_file(b"\n", &[1; 16]);
    let e = parse_rendezvous(&file).unwrap_err();
    assert!(matches!(e, BridgeError::InvalidData(_)));
}

#[test]
fn assuan_rejects_truncated_file() {
    let file: Vec<u8> = vec![0x31; 16];
    let e = parse_rendezvous(&file).unwrap_err();
    assert!(matches!(e, BridgeError::InvalidData(_)));
}

const CYGWIN_GOOD: &[u8] = b"!<socket >54321 s 00010203-04050607-08090a0b-0c0d0e0fx\0";

#[test]
fn cygwin_round_trip_example() {
    let file = CYGWIN_GOOD.to_vec();
    let ep = parse_rendezvous(&file).unwrap();
    assert_eq!(ep.port, 54321);
    assert_eq!(ep.nonce, sample_nonce());
}

#[test]
fn cygwin_nonce_is_kept_in_source_order() {
    let file = b"!<socket >1 s f0e1d2c3-b4a59687-78695a4b-3c2d1e0fx\0".to_vec();
    let ep = parse_cygwin(&file).unwrap();
    assert_eq!(
        ep.nonce,
        vec![
            0xf0, 0xe1, 0xd2, 0xc3, 0xb4, 0xa5, 0x96, 0x87, 0x78, 0x69, 0x5a, 0x4b, 0x3c, 0x2d,
            0x1e, 0x0f
        ]
    );
}

#[test]
fn cygwin_rejects_port_zero() {
    let file = b"!<socket >0 s 00010203-04050607-08090a0b-0c0d0e0fx\0".to_vec();
    let e = parse_rendezvous(&file).unwrap_err();
    assert!(matches!(e, BridgeError::InvalidData(_)));
}

#[test]
fn cygwin_rejects_port_above_range() {
    let file = b"!<socket >65536 s 00010203-04050607-08090a0b-0c0d0e0fx\0".to_vec();
    let e = parse_rendezvous(&file).unwrap_err();
    assert!(matches!(e, BridgeError::InvalidData(_)));
}

#[test]
fn cygwin_rejects_misplaced_separators() {
    // The three `-` separators and the closing `x` each stand at one fixed
    // position; anything else there is rejected.
    let positions = [26usize, 35, 44, 53];
    for &p in positions.iter() {
        let mut file = CYGWIN_GOOD.to_vec();
        file[p] = b'+';
        let e = parse_rendezvous(&file).unwrap_err();
        assert!(matches!(e, BridgeError::InvalidData(_)));
    }
    // `x` where `-` belongs, and `-` where `x` belongs.
    let mut file = CYGWIN_GOOD.to_vec();
    file[26] = b'x';
    assert!(parse_rendezvous(&file).is_err());
    let mut file = CYGWIN_GOOD.to_vec();
    file[53] = b'-';
    assert!(parse_rendezvous(&file).is_err());
}

#[test]
fn cygwin_rejects_uppercase_hex() {
    let file = b"!<socket >54321 s 00010203-04050607-08090A0B-0c0d0e0fx\0".to_vec();
    let e = parse_rendezvous(&file).unwrap_err();
    assert!(matches!(e, BridgeError::InvalidData(_)));
}

#[test]
fn cygwin_rejects_bad_hex_digit() {
    let file = b"!<socket >54321 s 000102g3-04050607-08090a0b-0c0d0e0fx\0".to_vec();
    assert!(parse_rendezvous(&file).is_err());
}

#[test]
fn cygwin_rejects_missing_stream_marker() {
    let file = b"!<socket >54321 t 00010203-04050607-08090a0b-0c0d0e0fx\0".to_vec();
    assert!(parse_rendezvous(&file).is_err());
}

#[test]
fn cygwin_rejects_missing_terminator() {
    let file = b"!<socket >54321 s 00010203-04050607-08090a0b-0c0d0e0fxZ".to_vec();
    assert!(parse_rendezvous(&file).is_err());
}

#[test]
fn cygwin_rejects_truncated_file() {
    let file = b"!<socket >54321 s 00010203-0405".to_vec();
    assert!(parse_rendezvous(&file).is_err());
}

#[test]
fn cygwin_rejects_missing_space() {
    let file = b"!<socket >54321s00010203-04050607-08090a0b-0c0d0e0fx\0".to_vec();
    assert!(parse_rendezvous(&file).is_err());
}

#[test]
fn assuan_nonce_bytes_are_taken_raw() {
    // Whitespace-looking bytes inside the 16-byte nonce are data, not
    // padding: only the port prefix is trimmed.
    let nonce = [b' ', b'\n', 0, 1, 2, 3, 4, 5, 6, 7, 8, 9, 10, 11, 12, b'\r'];
    let file = assuan_file(b"80\n", &nonce);
    let ep = parse_assuan(&file).unwrap();
    assert_eq!(ep.port, 80);
    assert_eq!(ep.nonce, nonce.to_vec());
}

#[test]
fn cygwin_accepts_leading_zero_port() {
    let file = b"!<socket >054321 s 00010203-04050607-08090a0b-0c0d0e0fx\0".to_vec();
    let ep = parse_cygwin(&file).unwrap();
    assert_eq!(ep.port, 54321);
}

#[test]
fn cygwin_accepts_largest_port() {
    let file = b"!<socket >65535 s 00010203-04050607-08090a0b-0c0d0e0fx\0".to_vec();
    assert_eq!(parse_rendezvous(&file).unwrap().port, 65535);
}

#[test]
fn cygwin_ignores_bytes_after_terminator() {
    // The advertised string ends at its NUL; what follows is not read.
    let mut file = CYGWIN_GOOD.to_vec();
    file.extend_from_slice(b"trailing junk");
    let ep = parse_rendezvous(&file).unwrap();
    assert_eq!(ep.port, 54321);
    assert_eq!(ep.nonce, sample_nonce());
}

#[test]
fn dialect_is_chosen_by_prefix() {
    assert!(starts_cygwin(&CYGWIN_GOOD.to_vec()));
    assert!(!starts_cygwin(&b"12345\n0123456789abcdef".to_vec()));
    // A file with the cygwin prefix is never parsed as Assuan, however
    // plausible its tail would be in that layout.
    let file = b"!<socket >not a port\0".to_vec();
    assert!(parse_rendezvous(&file).is_err());
}
