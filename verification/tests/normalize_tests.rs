use zstor_metadata_decoder::hex::hex_encode;
use zstor_metadata_decoder::json::{JsonValue, Number};
use zstor_metadata_decoder::normalize::{
    as_byte_array, is_checksum_name, normalize, process_checksums,
};

fn text(s: &str) -> JsonValue {
    JsonValue::String(s.to_string())
}

fn num(n: u64) -> JsonValue {
    JsonValue::Number(Number::PosInt(n))
}

fn bytes(b: &[u8]) -> JsonValue {
    JsonValue::Array(b.iter().map(|x| num(*x as u64)).collect())
}

fn object(fields: Vec<(&str, JsonValue)>) -> JsonValue {
    JsonValue::Object(fields.into_iter().map(|(k, v)| (k.to_string(), v)).collect())
}

#[test]
fn hex_of_three_bytes() {
    assert_eq!(hex_encode(&vec![0u8, 255, 16]), "00ff10");
}

#[test]
fn hex_of_no_bytes_is_empty() {
    assert_eq!(hex_encode(&Vec::new()), "");
}

#[test]
fn hex_has_two_lowercase_digits_per_byte() {
    let all: Vec<u8> = (0u8..=255).collect();
    let out = hex_encode(&all);
    assert_eq!(out.len(), 512);
    assert!(out.chars().all(|c| c.is_ascii_digit() || ('a'..='f').contains(&c)));
    assert_eq!(&out[0..8], "00010203");
    assert_eq!(&out[20..24], "0a0b");
    assert_eq!(&out[510..512], "ff");
}

#[test]
fn number_as_byte_edges() {
    assert_eq!(Number::PosInt(0).as_byte(), Some(0));
    assert_eq!(Number::PosInt(255).as_byte(), Some(255));
    assert_eq!(Number::PosInt(256).as_byte(), None);
    assert_eq!(Number::PosInt(u64::MAX).as_byte(), None);
    assert_eq!(Number::NegInt(-1).as_byte(), None);
    assert_eq!(Number::NegInt(7).as_byte(), Some(7));
    assert_eq!(Number::NegInt(i64::MIN).as_byte(), None);
    assert_eq!(Number::Float(0).as_byte(), None);
}

#[test]
fn checksum_name_is_exact() {
    assert!(is_checksum_name(&"checksum".to_string()));
    assert!(!is_checksum_name(&"Checksum".to_string()));
    assert!(!is_checksum_name(&"checksums".to_string()));
    assert!(!is_checksum_name(&"".to_string()));
}

#[test]
fn byte_array_is_recognised() {
    assert_eq!(as_byte_array(&bytes(&[1, 2, 3])), Some(vec![1u8, 2, 3]));
    assert_eq!(as_byte_array(&JsonValue::Array(Vec::new())), Some(Vec::new()));
    assert_eq!(as_byte_array(&JsonValue::Array(vec![num(1), num(256)])), None);
    assert_eq!(as_byte_array(&JsonValue::Array(vec![num(1), text("2")])), None);
    assert_eq!(as_byte_array(&text("0102")), None);
    assert_eq!(as_byte_array(&JsonValue::Null), None);
}

#[test]
fn document_without_checksum_is_unchanged() {
    let doc = object(vec![
        ("size", num(10)),
        ("name", text("a/b")),
        ("flags", JsonValue::Array(vec![JsonValue::Bool(true), JsonValue::Null])),
        ("shards", JsonValue::Array(vec![object(vec![("index", num(0)), ("data", bytes(&[1, 2]))])])),
        ("ratio", JsonValue::Number(Number::Float(0x3ff8_0000_0000_0000))),
        ("offset", JsonValue::Number(Number::NegInt(-4))),
    ]);
    assert_eq!(normalize(&doc), doc);
}

#[test]
fn scalars_are_unchanged() {
    assert_eq!(normalize(&JsonValue::Null), JsonValue::Null);
    assert_eq!(normalize(&JsonValue::Bool(false)), JsonValue::Bool(false));
    assert_eq!(normalize(&num(3)), num(3));
    assert_eq!(normalize(&text("checksum")), text("checksum"));
}

#[test]
fn checksum_bytes_become_hex() {
    let doc = object(vec![("checksum", bytes(&[0, 255, 16]))]);
    assert_eq!(normalize(&doc), object(vec![("checksum", text("00ff10"))]));
}

#[test]
fn empty_checksum_becomes_empty_string() {
    let doc = object(vec![("checksum", JsonValue::Array(Vec::new()))]);
    assert_eq!(normalize(&doc), object(vec![("checksum", text(""))]));
}

#[test]
fn normalize_is_idempotent() {
    let doc = object(vec![
        ("checksum", bytes(&[171, 205])),
        ("parts", JsonValue::Array(vec![object(vec![("checksum", bytes(&[1]))])])),
    ]);
    let once = normalize(&doc);
    assert_eq!(
        once,
        object(vec![
            ("checksum", text("abcd")),
            ("parts", JsonValue::Array(vec![object(vec![("checksum", text("01"))])])),
        ])
    );
    assert_eq!(normalize(&once), once);
}

#[test]
fn nested_checksum_is_reached() {
    let doc = object(vec![(
        "a",
        object(vec![(
            "b",
            JsonValue::Array(vec![
                num(1),
                object(vec![("c", object(vec![("checksum", bytes(&[222, 173]))]))]),
            ]),
        )]),
    )]);
    let want = object(vec![(
        "a",
        object(vec![(
            "b",
            JsonValue::Array(vec![
                num(1),
                object(vec![("c", object(vec![("checksum", text("dead"))]))]),
            ]),
        )]),
    )]);
    assert_eq!(normalize(&doc), want);
}

#[test]
fn checksums_at_several_levels_are_each_rewritten() {
    let doc = object(vec![
        ("checksum", bytes(&[1])),
        ("inner", object(vec![("checksum", bytes(&[2, 3])), ("size", num(2))])),
    ]);
    let want = object(vec![
        ("checksum", text("01")),
        ("inner", object(vec![("checksum", text("0203")), ("size", num(2))])),
    ]);
    assert_eq!(normalize(&doc), want);
}

#[test]
fn checksum_that_is_a_string_is_kept() {
    let doc = object(vec![("checksum", text("00ff"))]);
    assert_eq!(normalize(&doc), doc);
}

#[test]
fn checksum_with_a_large_number_is_kept() {
    let doc = object(vec![("checksum", JsonValue::Array(vec![num(1), num(256)]))]);
    assert_eq!(normalize(&doc), doc);
}

#[test]
fn checksum_with_other_elements_is_kept() {
    for odd in [
        JsonValue::Number(Number::NegInt(-1)),
        JsonValue::Number(Number::Float(0x3ff0_0000_0000_0000)),
        text("1"),
        JsonValue::Null,
        JsonValue::Bool(true),
        JsonValue::Array(vec![num(1)]),
    ] {
        let doc = object(vec![("checksum", JsonValue::Array(vec![num(1), odd]))]);
        assert_eq!(normalize(&doc), doc);
    }
}

#[test]
fn checksum_that_is_kept_is_still_walked() {
    let doc = object(vec![(
        "checksum",
        JsonValue::Array(vec![object(vec![("checksum", bytes(&[10]))]), num(300)]),
    )]);
    let want = object(vec![(
        "checksum",
        JsonValue::Array(vec![object(vec![("checksum", text("0a"))]), num(300)]),
    )]);
    assert_eq!(normalize(&doc), want);
}

#[test]
fn array_at_the_top_is_walked() {
    let doc = JsonValue::Array(vec![object(vec![("checksum", bytes(&[15]))]), bytes(&[1, 2])]);
    let want = JsonValue::Array(vec![object(vec![("checksum", text("0f"))]), bytes(&[1, 2])]);
    assert_eq!(normalize(&doc), want);
}

#[test]
fn field_order_is_kept() {
    let doc = object(vec![("z", num(1)), ("checksum", bytes(&[9])), ("a", num(2))]);
    let want = object(vec![("z", num(1)), ("checksum", text("09")), ("a", num(2))]);
    assert_eq!(normalize(&doc), want);
}

#[test]
fn process_checksums_rewrites_in_place() {
    let mut doc = object(vec![("size", num(10)), ("checksum", bytes(&[0, 1, 255]))]);
    process_checksums(&mut doc);
    assert_eq!(doc, object(vec![("size", num(10)), ("checksum", text("0001ff"))]));
}

#[test]
fn clone_is_equal() {
    let doc = object(vec![
        ("checksum", bytes(&[1, 2])),
        ("list", JsonValue::Array(vec![text("x"), JsonValue::Null, JsonValue::Bool(true)])),
        ("n", JsonValue::Number(Number::NegInt(-3))),
    ]);
    let copy = doc.clone();
    assert_eq!(copy, doc);
    assert_eq!(normalize(&copy), normalize(&doc));
}
