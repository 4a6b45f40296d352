//! JSON values.

use scaffold_ai::json::{Json, Member};

#[test]
fn members_are_found_by_key() {
    let value = Json::object(vec![
        Member::new("a", Json::Int(1)),
        Member::new("b", Json::str("x")),
        Member::new("a", Json::Int(2)),
        Member::new("c", Json::array(vec![Json::Null])),
    ]);
    assert_eq!(value.int_at("a"), Some(1));
    assert_eq!(value.text_at("b"), Some("x"));
    assert_eq!(value.text_at("a"), None);
    assert_eq!(value.int_at("z"), None);
    assert_eq!(value.array_at("c").unwrap().len(), 1);
    assert!(value.array_at("b").is_none());
    assert!(Json::Null.get("a").is_none());
    let copy = value.clone();
    assert_eq!(format!("{copy:?}"), format!("{value:?}"));
}
