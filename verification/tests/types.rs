use org_roamers::types::{RoamID, RoamTitle};

#[test]
fn types_test_id_from() {
    let s = "\"a64477aa-d900-476d-b500-b8ab0b03c17d\"";
    assert_eq!(RoamID::from(s), RoamID::from_text("a64477aa-d900-476d-b500-b8ab0b03c17d"));
    assert_eq!(RoamID::from(s).id(), "a64477aa-d900-476d-b500-b8ab0b03c17d");
    let s = "a64477aa-d900-476d-b500-b8ab0b03c17d";
    assert_eq!(RoamID::from(s), RoamID::from_text("a64477aa-d900-476d-b500-b8ab0b03c17d"));
    assert_eq!(RoamID::from(s).id(), "a64477aa-d900-476d-b500-b8ab0b03c17d");
}

#[test]
fn types_test_title_from() {
    let s = "\"Vec<T> in Rust\"";
    assert_eq!(RoamTitle::from(s), RoamTitle::from_text("Vec<T> in Rust"));
    assert_eq!(RoamTitle::from(s).title(), "Vec<T> in Rust");
    let s = "Vec<T> in \"Rust\"";
    assert_eq!(RoamTitle::from(s), RoamTitle::from_text("Vec<T> in \"Rust\""));
    assert_eq!(RoamTitle::from(s).title(), "Vec<T> in \"Rust\"");
}

#[test]
fn id_stops_at_the_next_quote() {
    assert_eq!(RoamID::from_text("\"abc\"def\"").id(), "abc");
    assert_eq!(RoamID::from_text("ab\"c").id(), "ab");
    assert_eq!(RoamID::from_text("").id(), "");
    assert_eq!(RoamID::from(String::from("\"x\"")).id(), "x");
}

#[test]
fn id_with_quotes_round_trip() {
    let id = RoamID::from_text("abc");
    assert_eq!(id.with_quotes(2), "\"\"abc\"\"");
    assert_eq!(id.with_quotes(0), "abc");
    assert_eq!(RoamID::from_text(&id.with_quotes(1)).id(), "abc");
}

#[test]
fn title_keeps_unbalanced_quotes() {
    assert_eq!(RoamTitle::from_text("\"only start").title(), "\"only start");
    assert_eq!(RoamTitle::from_text("\"\"").title(), "");
    assert_eq!(RoamTitle::from(String::from("plain")).title(), "plain");
}
