use std::error::Error;
use std::str::FromStr;

use uuid::Uuid;
use uuid_b64::{ParseError, UuidB64};

fn refused(text: &str) -> ParseError {
    match UuidB64::from_str(text) {
        Ok(id) => panic!("{:?} was read as {:?}", text, id),
        Err(e) => e,
    }
}

#[test]
fn hyphenated_hex_is_refused() {
    let e = refused("b0c1ee86-6f46-4f1b-8d8b-7849e75dbcee");
    assert_eq!(e.input(), "b0c1ee86-6f46-4f1b-8d8b-7849e75dbcee");
    assert!("b0c1ee86-6f46-4f1b-8d8b-7849e75dbcee"
        .parse::<UuidB64>()
        .is_err());
}

#[test]
fn simple_hex_is_refused() {
    // 32 characters of the alphabet carry 24 bytes.
    refused("b0c1ee866f464f1b8d8b7849e75dbcee");
}

#[test]
fn error_keeps_the_input() {
    for text in ["", "not an id", "sMHuhm9GTxuNi3hJ51287g=", "\u{e9}\u{e9}"] {
        assert_eq!(refused(text).input(), text);
    }
}

#[test]
fn error_message_quotes_the_input() {
    let e = refused("nope");
    assert_eq!(
        e.to_string(),
        "Invalid Base64 representation for UUID: 'nope'"
    );
    assert_eq!(
        format!("{}", refused("")),
        "Invalid Base64 representation for UUID: ''"
    );
    let boxed: Box<dyn Error> = Box::new(e.clone());
    assert_eq!(boxed.to_string(), e.to_string());
    assert!(format!("{:?}", e).contains("nope"));
}

#[test]
fn other_lengths_are_refused() {
    refused("");
    // Valid Base64 of 3, 15, 17 and 18 bytes.
    refused("AAAA");
    refused("AAAAAAAAAAAAAAAAAAAA");
    refused("AAAAAAAAAAAAAAAAAAAAAAA");
    refused("AAAAAAAAAAAAAAAAAAAAAAAA");
    // 21 characters: one character alone carries no byte.
    refused("sMHuhm9GTxuNi3hJ51287");
    refused("sMHuhm9GTxuNi3hJ51287gA");
    refused("sMHuhm9GTxuNi3hJ51287gsMHuhm9GTxuNi3hJ51287g");
}

#[test]
fn standard_alphabet_is_refused() {
    refused("sMHuhm9GTxuNi3hJ5128+g");
    refused("sMHuhm9GTxuNi3hJ5128/g");
    refused("+MHuhm9GTxuNi3hJ51287g");
    refused("/MHuhm9GTxuNi3hJ51287g");
    // The same places hold `-` and `_` in an identifier's text.
    assert!(UuidB64::from_str("sMHuhm9GTxuNi3hJ5128-g").is_ok());
    assert!(UuidB64::from_str("sMHuhm9GTxuNi3hJ5128_g").is_ok());
}

#[test]
fn padding_is_refused() {
    refused("sMHuhm9GTxuNi3hJ51287g==");
    refused("sMHuhm9GTxuNi3hJ51287g=");
    refused("sMHuhm9GTxuNi3hJ51287=");
    refused("sMHuhm9GTxuNi3hJ5128==");
    refused("=MHuhm9GTxuNi3hJ51287g");
    refused("======================");
}

#[test]
fn other_characters_are_refused() {
    refused("sMHuhm9GTxuNi3hJ51287 ");
    refused(" sMHuhm9GTxuNi3hJ51287");
    refused("sMHuhm9GTxuNi3hJ51287\n");
    refused("sMHuhm9GTxuNi3hJ5128.g");
    refused("sMHuhm9GTxuNi3hJ5128\u{e9}g");
    // 22 characters, but not 22 bytes, and the other way round.
    refused("\u{e9}MHuhm9GTxuNi3hJ51287g");
    refused("\u{e9}\u{e9}\u{e9}\u{e9}\u{e9}\u{e9}\u{e9}\u{e9}\u{e9}\u{e9}\u{e9}");
}

#[test]
fn last_character_gives_two_bits() {
    let id: UuidB64 = "sMHuhm9GTxuNi3hJ51287g".parse().unwrap();
    // `g` is 32: upper bits 10, lower bits 0000. `h` to `v` are 33 to 47.
    for last in ["h", "i", "p", "v"] {
        let text = format!("sMHuhm9GTxuNi3hJ51287{}", last);
        let same: UuidB64 = text.parse().unwrap();
        assert_eq!(same, id);
        assert_eq!(same.to_string(), "sMHuhm9GTxuNi3hJ51287g");
    }
    // `f` is 31 and `w` is 48: other upper bits, another last byte.
    let below: UuidB64 = "sMHuhm9GTxuNi3hJ51287f".parse().unwrap();
    let above: UuidB64 = "sMHuhm9GTxuNi3hJ51287w".parse().unwrap();
    assert_eq!(below.uuid().as_bytes()[15], 0xed);
    assert_eq!(id.uuid().as_bytes()[15], 0xee);
    assert_eq!(above.uuid().as_bytes()[15], 0xef);
    assert_eq!(below.to_string(), "sMHuhm9GTxuNi3hJ51287Q");
}

#[test]
fn parse_gives_the_carried_bytes() {
    let id: UuidB64 = "ABCDEFGHIJKLMNOPQRSTUQ".parse().unwrap();
    assert_eq!(
        id.uuid(),
        Uuid::from_bytes([
            0x00, 0x10, 0x83, 0x10, 0x51, 0x87, 0x20, 0x92, 0x8b, 0x30, 0xd3, 0x8f, 0x41, 0x14,
            0x93, 0x51
        ])
    );
    let id: UuidB64 = "_____________________w".parse().unwrap();
    assert_eq!(id.uuid(), Uuid::from_bytes([0xff; 16]));
    let id: UuidB64 = "0123456789-_abcdefghiA".parse().unwrap();
    assert_eq!(
        id.uuid(),
        Uuid::from_bytes([
            0xd3, 0x5d, 0xb7, 0xe3, 0x9e, 0xbb, 0xf3, 0xdf, 0xbf, 0x69, 0xb7, 0x1d, 0x79, 0xf8,
            0x21, 0x88
        ])
    );
}
