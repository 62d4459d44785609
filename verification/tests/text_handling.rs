//! Byte-string helpers and command-line text handling.

use simple_os::bytes::{append_bytes, append_dec_u32, bytes_eq, clone_bytes, parse_u16};
use simple_os::cmd::{command_invocations, is_help};
use simple_os::parse::{split_on, tokenize, trim};

#[test]
fn clone_and_compare_bytes() {
    let a = b"hello".to_vec();
    let b = clone_bytes(&a);
    assert!(bytes_eq(&a, &b));
    assert!(!bytes_eq(&a, &b"hellO".to_vec()));
    assert!(!bytes_eq(&a, &b"hell".to_vec()));
}

#[test]
fn append_appends() {
    let mut out = b"ab".to_vec();
    append_bytes(&mut out, &b"cd".to_vec());
    assert_eq!(out, b"abcd".to_vec());
}

#[test]
fn decimal_rendering() {
    let mut out = Vec::new();
    append_dec_u32(&mut out, 0);
    out.push(b' ');
    append_dec_u32(&mut out, 7);
    out.push(b' ');
    append_dec_u32(&mut out, 65535);
    out.push(b' ');
    append_dec_u32(&mut out, 4294967295);
    assert_eq!(out, b"0 7 65535 4294967295".to_vec());
}

#[test]
fn parse_u16_accepts_digits() {
    assert_eq!(parse_u16(&b"0".to_vec()), Some(0));
    assert_eq!(parse_u16(&b"42".to_vec()), Some(42));
    assert_eq!(parse_u16(&b"65535".to_vec()), Some(65535));
}

#[test]
fn parse_u16_rejects_junk() {
    assert_eq!(parse_u16(&b"".to_vec()), None);
    assert_eq!(parse_u16(&b"12a".to_vec()), None);
    assert_eq!(parse_u16(&b"-1".to_vec()), None);
    assert_eq!(parse_u16(&b"65536".to_vec()), None);
    assert_eq!(parse_u16(&b"99999999999".to_vec()), None);
}

#[test]
fn trim_strips_surrounding_whitespace() {
    assert_eq!(trim(&b"  ps  ".to_vec()), b"ps".to_vec());
    assert_eq!(trim(&b"\t kill 3 \r\n".to_vec()), b"kill 3".to_vec());
    assert_eq!(trim(&b"   ".to_vec()), b"".to_vec());
    assert_eq!(trim(&b"x".to_vec()), b"x".to_vec());
}

#[test]
fn split_keeps_every_piece() {
    let pieces = split_on(&b"help ; ps".to_vec(), b';');
    assert_eq!(pieces, vec![b"help ".to_vec(), b" ps".to_vec()]);
    let pieces = split_on(&b";;".to_vec(), b';');
    assert_eq!(pieces, vec![b"".to_vec(), b"".to_vec(), b"".to_vec()]);
    let pieces = split_on(&b"one".to_vec(), b';');
    assert_eq!(pieces, vec![b"one".to_vec()]);
}

#[test]
fn tokenize_splits_on_whitespace() {
    let toks = tokenize(&b"  kill   3 ".to_vec());
    assert_eq!(toks, vec![b"kill".to_vec(), b"3".to_vec()]);
    let toks = tokenize(&b"".to_vec());
    assert!(toks.is_empty());
    let toks = tokenize(&b" \t ".to_vec());
    assert!(toks.is_empty());
}

#[test]
fn invocations_drop_empty_commands() {
    let inv = command_invocations(&b"help ; ps".to_vec());
    assert_eq!(
        inv,
        vec![vec![b"help".to_vec()], vec![b"ps".to_vec()]]
    );
    let inv = command_invocations(&b" ; ; kill 3".to_vec());
    assert_eq!(inv, vec![vec![b"kill".to_vec(), b"3".to_vec()]]);
    let inv = command_invocations(&b"".to_vec());
    assert!(inv.is_empty());
}

#[test]
fn help_verbs_are_recognized() {
    assert!(is_help(&b"help".to_vec()));
    assert!(is_help(&b"?".to_vec()));
    assert!(!is_help(&b"ps".to_vec()));
    assert!(!is_help(&b"helper".to_vec()));
}
