use org_roamers::file::{decoded_file, read_to_string};

#[test]
fn utf8_files_are_read_as_they_are() {
    let text = "* Grüße\nSome text with ümlauts and 世界 and more text to be sure.\n";
    let d = read_to_string(text.as_bytes());
    assert_eq!(d.text, text);
    assert!(!d.non_utf8);
    assert!(!d.malformed);
    assert_eq!(d.encoding, "UTF-8");
}

#[test]
fn legacy_files_are_decoded() {
    let bytes = b"* Caf\xe9\nLe caf\xe9 est tr\xe8s bon, n'est-ce pas? D\xe9j\xe0 vu.\n";
    let d = read_to_string(bytes);
    assert!(d.non_utf8);
    assert!(d.text.contains("Café"), "{}", d.text);
    assert!(d.text.contains("très"), "{}", d.text);
}

#[test]
fn a_utf8_byte_order_mark_is_dropped() {
    let mut bytes = vec![0xEF, 0xBB, 0xBF];
    bytes.extend_from_slice("* Überschrift\n".as_bytes());
    let d = read_to_string(&bytes);
    assert_eq!(d.text, "* Überschrift\n");
    assert!(!d.malformed);
    assert!(!d.non_utf8);
}

#[test]
fn decoded_file_flags_encodings_not_written_as_utf8() {
    let d = decoded_file("windows-1252".to_string(), ("Café".to_string(), false));
    assert!(d.non_utf8);
    assert_eq!(d.text, "Café");
    assert_eq!(d.encoding, "windows-1252");
    let d = decoded_file("UTF-16LE".to_string(), ("x".to_string(), true));
    assert!(!d.non_utf8);
    assert!(d.malformed);
}

#[test]
fn utf8_with_an_escape_byte_and_non_ascii_is_read_as_it_is() {
    let text = "* Grüße \u{1b}[1m bold\n";
    let d = read_to_string(text.as_bytes());
    assert_eq!(d.text, text);
    assert_eq!(d.encoding, "UTF-8");
}
