use std::collections::HashSet;

use uuid::Uuid;
use uuid_b64::UuidB64;

const KNOWN_HEX: &str = "b0c1ee86-6f46-4f1b-8d8b-7849e75dbcee";
const KNOWN_B64: &str = "sMHuhm9GTxuNi3hJ51287g";

fn known() -> UuidB64 {
    UuidB64::from(Uuid::parse_str(KNOWN_HEX).unwrap())
}

#[test]
fn display_is_b64() {
    let id = UuidB64::new();
    let fmted = format!("{}", id);
    assert_eq!(fmted.len(), 22);
    assert_eq!(format!("UuidB64({})", fmted), format!("{:?}", id));
}

#[test]
fn parse_roundtrips() {
    let original = UuidB64::new();
    let encoded = format!("{}", original);
    let parsed: UuidB64 = encoded.parse().unwrap();
    assert_eq!(parsed, original);
}

#[test]
fn from_uuid_works() {
    let _ = UuidB64::from(Uuid::new_v4());
}

#[test]
fn to_istring_works() {
    let b64 = UuidB64::from(Uuid::parse_str("b0c1ee86-6f46-4f1b-8d8b-7849e75dbcee").unwrap());
    assert_eq!(b64.to_istring(), "sMHuhm9GTxuNi3hJ51287g");

    for _ in 0..10 {
        let b64 = UuidB64::new();
        b64.to_istring();
    }
}

#[test]
fn known_id_has_known_text() {
    let id = known();
    assert_eq!(id.to_string(), KNOWN_B64);
    assert_eq!(format!("{}", id), KNOWN_B64);
    let mut buf = String::new();
    id.to_buf(&mut buf);
    assert_eq!(&buf, KNOWN_B64);
}

#[test]
fn known_text_parses_to_known_id() {
    let parsed: UuidB64 = KNOWN_B64.parse().unwrap();
    assert_eq!(parsed, known());
    assert_eq!(parsed.uuid(), Uuid::parse_str(KNOWN_HEX).unwrap());
    assert_eq!(parsed.uuid().to_string(), KNOWN_HEX);
}

#[test]
fn debug_wraps_text_in_type_name() {
    assert_eq!(format!("{:?}", known()), "UuidB64(sMHuhm9GTxuNi3hJ51287g)");
    let parsed: UuidB64 = KNOWN_B64.parse().unwrap();
    assert_eq!(format!("{:?}", parsed), "UuidB64(sMHuhm9GTxuNi3hJ51287g)");
}

#[test]
fn nil_is_all_first_symbol() {
    let nil = UuidB64::from(Uuid::from_bytes([0u8; 16]));
    assert_eq!(nil.to_string(), "AAAAAAAAAAAAAAAAAAAAAA");
    assert_eq!(nil.to_istring(), "AAAAAAAAAAAAAAAAAAAAAA");
    let back: UuidB64 = "AAAAAAAAAAAAAAAAAAAAAA".parse().unwrap();
    assert_eq!(back, nil);
    assert_eq!(back.uuid().as_bytes(), &[0u8; 16]);
}

#[test]
fn every_symbol_in_its_place() {
    // The six-bit groups 0, 1, 2, ... 20 and then the two bits 01.
    let counting = UuidB64::from(Uuid::from_bytes([
        0x00, 0x10, 0x83, 0x10, 0x51, 0x87, 0x20, 0x92, 0x8b, 0x30, 0xd3, 0x8f, 0x41, 0x14, 0x93,
        0x51,
    ]));
    assert_eq!(counting.to_string(), "ABCDEFGHIJKLMNOPQRSTUQ");

    // The groups 42 to 63, whose last gives only its upper two bits.
    let upper = UuidB64::from(Uuid::from_bytes([
        0xaa, 0xbb, 0x2c, 0xb6, 0xdb, 0xae, 0xba, 0xfb, 0xf0, 0xc7, 0x2c, 0xf4, 0xd7, 0x6d, 0xf8,
        0xe7,
    ]));
    assert_eq!(upper.to_string(), "qrssttuuuvvwxyz012345w");

    let ones = UuidB64::from(Uuid::from_bytes([0xff; 16]));
    assert_eq!(ones.to_string(), "_____________________w");

    let dashes = UuidB64::from(Uuid::from_bytes([
        0xfb, 0xef, 0xbe, 0xfb, 0xef, 0xbe, 0xfb, 0xef, 0xbe, 0xfb, 0xef, 0xbe, 0xfb, 0xef, 0xbe,
        0xfb,
    ]));
    assert_eq!(dashes.to_string(), "---------------------w");
}

#[test]
fn fields_give_their_text() {
    let uuid = Uuid::from_fields(0xff, 2, 3, &[1, 2, 3, 4, 5, 6, 7, 8]);
    let my_id = UuidB64::from(uuid);
    assert_eq!(my_id.to_istring(), "AAAA_wACAAMBAgMEBQYHCA");
    assert_eq!(my_id.to_string(), "AAAA_wACAAMBAgMEBQYHCA");
    let back: UuidB64 = "AAAA_wACAAMBAgMEBQYHCA".parse().unwrap();
    assert_eq!(back, my_id);
}

#[test]
fn text_is_22_symbols_without_padding() {
    for _ in 0..200 {
        let text = UuidB64::new().to_string();
        assert_eq!(text.len(), 22);
        assert!(text
            .chars()
            .all(|c| c.is_ascii_alphanumeric() || c == '-' || c == '_'));
        assert!(!text.contains('='));
    }
}

#[test]
fn text_reads_back_for_random_ids() {
    for _ in 0..1000 {
        let raw = Uuid::new_v4();
        let id = UuidB64::from(raw);
        let parsed: UuidB64 = id.to_string().parse().unwrap();
        assert_eq!(parsed, id);
        assert_eq!(parsed.uuid(), raw);
    }
}

#[test]
fn different_ids_have_different_texts() {
    let mut texts = HashSet::new();
    for i in 0..=255u8 {
        for place in [0usize, 7, 15] {
            let mut bytes = [0u8; 16];
            bytes[place] = i;
            texts.insert(UuidB64::from(Uuid::from_bytes(bytes)).to_string());
        }
    }
    // 255 non-zero values in each of three places, and the nil value once.
    assert_eq!(texts.len(), 3 * 255 + 1);
}

#[test]
fn all_writers_agree() {
    for _ in 0..1000 {
        let id = UuidB64::new();
        let allocated = id.to_string();
        let mut buf = String::new();
        id.to_buf(&mut buf);
        assert_eq!(buf.as_bytes(), allocated.as_bytes());
        assert_eq!(id.to_istring(), allocated.as_str());
        assert_eq!(format!("{}", id), allocated);
    }
}

#[test]
fn to_buf_appends() {
    let mut buf = String::from("id=");
    known().to_buf(&mut buf);
    assert_eq!(buf, "id=sMHuhm9GTxuNi3hJ51287g");
    known().to_buf(&mut buf);
    assert_eq!(buf, "id=sMHuhm9GTxuNi3hJ51287gsMHuhm9GTxuNi3hJ51287g");
}

#[test]
fn uuid_copies_the_bytes_out() {
    let raw = Uuid::parse_str(KNOWN_HEX).unwrap();
    let id = UuidB64::from(raw);
    assert_eq!(id.uuid(), raw);
    assert_eq!(
        id.uuid().as_bytes(),
        &[
            0xb0, 0xc1, 0xee, 0x86, 0x6f, 0x46, 0x4f, 0x1b, 0x8d, 0x8b, 0x78, 0x49, 0xe7, 0x5d,
            0xbc, 0xee
        ]
    );
}

#[test]
fn new_is_version_4() {
    for _ in 0..100 {
        let raw = UuidB64::new().uuid();
        assert_eq!(raw.get_version_num(), 4);
        assert_eq!(raw.get_variant(), uuid::Variant::RFC4122);
        assert_eq!(raw.as_bytes()[6] >> 4, 4);
        assert_eq!(raw.as_bytes()[8] >> 6, 2);
    }
}

#[test]
fn new_ids_differ() {
    let mut seen = HashSet::new();
    for _ in 0..1000 {
        assert!(seen.insert(UuidB64::new()));
    }
}

#[test]
fn any_version_is_accepted() {
    let v1 = Uuid::parse_str("c232ab00-9414-11ec-b3c8-9f6bdeced846").unwrap();
    assert_eq!(v1.get_version_num(), 1);
    assert_eq!(UuidB64::from(v1).uuid(), v1);
    let max = Uuid::from_bytes([0xff; 16]);
    assert_eq!(UuidB64::from(max).uuid(), max);
}

#[test]
fn equal_ids_hash_alike() {
    let a = known();
    let b: UuidB64 = KNOWN_B64.parse().unwrap();
    let copy = a;
    assert!(a == b);
    assert!(!(a != b));
    assert!(copy == a);
    let mut set = HashSet::new();
    set.insert(a);
    assert!(set.contains(&b));
    assert!(!set.insert(b));
}
