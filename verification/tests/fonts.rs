use layerpen::fonts::{asset, check_font_size, encode_font, font_id, valid_id, FONT_SIZE_LIMIT};

#[test]
fn rejects_paths_and_invalid_font_data() {
    assert!(!valid_id("../settings"));
    assert!(!valid_id(&"z".repeat(64)));
    assert!(valid_id(&"a".repeat(64)));
    assert!(asset("a".repeat(64), b"not a font".to_vec()).is_err());
}

#[test]
fn installed_font_can_be_imported() {
    let mut db = fontdb::Database::new();
    db.load_system_fonts();
    if let Some(face) = db.faces().next() {
        let bytes = db.with_face_data(face.id, |data, _| data.to_vec()).unwrap();
        let id = font_id(&bytes);
        let font = asset(id.clone(), bytes).unwrap();
        assert_eq!(font.family, format!("OnPenFont-{id}"));
        assert!(!font.name.is_empty());
    };
}

#[test]
fn font_id_is_the_sha256_digest_in_lower_hex() {
    assert_eq!(font_id(b""), "e3b0c44298fc1c149afbf4c8996fb92427ae41e4649b934ca495991b7852b855");
    assert_eq!(font_id(b"abc"), "ba7816bf8f01cfea414140de5dae2223b00361a396177a9cb410ff61f20015ad");
    assert!(valid_id(&font_id(b"not a font")));
}

#[test]
fn oversized_font_files_are_refused() {
    assert!(check_font_size(FONT_SIZE_LIMIT).is_ok());
    assert_eq!(check_font_size(FONT_SIZE_LIMIT + 1).unwrap_err(), "Font file must be smaller than 32 MB");
}

#[test]
fn font_data_is_sent_as_standard_base64() {
    assert_eq!(encode_font(b"hello"), "aGVsbG8=");
    assert_eq!(encode_font(&[0xff, 0xfe]), "//4=");
    assert_eq!(encode_font(b""), "");
}

#[test]
fn identifiers_are_64_hex_digits_of_either_case() {
    assert!(valid_id(&"ABCDEF0123456789".repeat(4)));
    assert!(!valid_id(&"a".repeat(63)));
    assert!(!valid_id(&"a".repeat(65)));
    assert!(!valid_id(""));
}
