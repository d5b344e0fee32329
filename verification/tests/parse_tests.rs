use cosim::parse::{decode_hex, decode_reg_write, parse_commit_port, parse_line};

#[test]
fn line_write_then_bubble() {
    // One commit on slot 1, a bubble on slot 2.
    let line = "[0x00000000]<write:1=0x0000002a> (bubble)";
    let (p1, p2) = parse_line(line.as_bytes()).unwrap();
    let p1 = p1.unwrap();
    assert_eq!(p1.pc, 0);
    assert_eq!(p1.reg_write, Some((1u8, 42u32)));
    assert!(p2.is_none());
}

#[test]
fn line_bubble_then_no_write() {
    // A bubble on slot 1, a writeless commit on slot 2.
    let line = "(bubble) [0x00000004]<no_write>";
    let (p1, p2) = parse_line(line.as_bytes()).unwrap();
    assert!(p1.is_none());
    let p2 = p2.unwrap();
    assert_eq!(p2.pc, 4);
    assert_eq!(p2.reg_write, None);
}

#[test]
fn line_two_bubbles() {
    let (p1, p2) = parse_line("(bubble) (bubble)".as_bytes()).unwrap();
    assert!(p1.is_none());
    assert!(p2.is_none());
}

#[test]
fn line_two_commits_in_order() {
    let line = "[0x00000100]<no_write> [0x00000104]<write:31=0xffffffff>";
    let (p1, p2) = parse_line(line.as_bytes()).unwrap();
    let p1 = p1.unwrap();
    let p2 = p2.unwrap();
    assert_eq!(p1.pc, 0x100);
    assert_eq!(p1.reg_write, None);
    assert_eq!(p2.pc, 0x104);
    assert_eq!(p2.reg_write, Some((31u8, 0xffffffffu32)));
}

#[test]
fn line_without_space_is_an_error() {
    assert!(parse_line("(bubble)".as_bytes()).is_err());
}

#[test]
fn line_with_extra_token_is_an_error() {
    assert!(parse_line("(bubble) (bubble) (bubble)".as_bytes()).is_err());
}

#[test]
fn empty_line_is_an_error() {
    assert!(parse_line("".as_bytes()).is_err());
}

#[test]
fn hex_plain_values() {
    assert_eq!(decode_hex("0x2a".as_bytes()), Some(42));
    assert_eq!(decode_hex("0x0".as_bytes()), Some(0));
    assert_eq!(decode_hex("0xffffffff".as_bytes()), Some(0xffffffff));
    assert_eq!(decode_hex("0xDeadBeef".as_bytes()), Some(0xdeadbeef));
}

#[test]
fn hex_leading_zeros_are_fine() {
    assert_eq!(decode_hex("0x0000000001".as_bytes()), Some(1));
}

#[test]
fn hex_too_large_is_rejected() {
    assert_eq!(decode_hex("0x100000000".as_bytes()), None);
}

#[test]
fn hex_needs_prefix_and_digits() {
    assert_eq!(decode_hex("2a".as_bytes()), None);
    assert_eq!(decode_hex("0x".as_bytes()), None);
    assert_eq!(decode_hex("".as_bytes()), None);
    assert_eq!(decode_hex("0xg1".as_bytes()), None);
    assert_eq!(decode_hex("0x2a ".as_bytes()), None);
}

#[test]
fn reg_write_no_write() {
    assert_eq!(decode_reg_write("no_write".as_bytes()), Ok(None));
}

#[test]
fn reg_write_plain() {
    assert_eq!(decode_reg_write("write:31=0xff".as_bytes()), Ok(Some((31u8, 255u32))));
    assert_eq!(decode_reg_write("write:0=0x0".as_bytes()), Ok(Some((0u8, 0u32))));
}

#[test]
fn reg_write_index_too_large_is_an_error() {
    assert!(decode_reg_write("write:256=0x1".as_bytes()).is_err());
}

#[test]
fn reg_write_malformed_is_an_error() {
    assert!(decode_reg_write("write:=0x1".as_bytes()).is_err());
    assert!(decode_reg_write("write:1".as_bytes()).is_err());
    assert!(decode_reg_write("1=0x1".as_bytes()).is_err());
    assert!(decode_reg_write("".as_bytes()).is_err());
    assert!(decode_reg_write("write:a=0x1".as_bytes()).is_err());
}

#[test]
fn token_malformed_is_an_error() {
    assert!(parse_commit_port("bubble".as_bytes()).is_err());
    assert!(parse_commit_port("(bubble".as_bytes()).is_err());
    assert!(parse_commit_port("[0x0]no_write>".as_bytes()).is_err());
    assert!(parse_commit_port("[0x0]<no_write".as_bytes()).is_err());
    assert!(parse_commit_port("[]<no_write>".as_bytes()).is_err());
    assert!(parse_commit_port("".as_bytes()).is_err());
}

#[test]
fn token_bubble_and_commit() {
    assert!(parse_commit_port("(bubble)".as_bytes()).unwrap().is_none());
    let p = parse_commit_port("[0x00000008]<no_write>".as_bytes()).unwrap().unwrap();
    assert_eq!(p.pc, 8);
    assert_eq!(p.reg_write, None);
}
