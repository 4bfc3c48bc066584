use mpd_codec::conditional_uint::{self, ConditionalUint};
use mpd_codec::tags;

fn strings(items: &[&str]) -> Vec<String> {
    items.iter().map(|s| s.to_string()).collect()
}

#[test]
fn tags_split_on_commas() {
    assert_eq!(tags::deserialize("a,b,c"), strings(&["a", "b", "c"]));
    assert_eq!(tags::deserialize("a,,b,"), strings(&["a", "", "b", ""]));
    assert_eq!(tags::deserialize(" a , b"), strings(&[" a ", " b"]));
    assert_eq!(tags::deserialize("x,x"), strings(&["x", "x"]));
}

#[test]
fn empty_tag_text_is_one_empty_token() {
    assert_eq!(tags::deserialize(""), strings(&[""]));
}

#[test]
fn tags_join_with_commas() {
    assert_eq!(tags::serialize(&strings(&["a", "b", "c"])), "a,b,c");
    assert_eq!(tags::serialize(&strings(&["solo"])), "solo");
    assert_eq!(tags::serialize(&Vec::new()), "");
}

#[test]
fn tags_round_trip() {
    let list = strings(&["urn:mpeg:dash:profile:isoff-live:2011", "", "b"]);
    assert_eq!(tags::deserialize(&tags::serialize(&list)), list);
}

#[test]
fn conditional_flags_and_counts() {
    assert_eq!(conditional_uint::deserialize("true").unwrap(), ConditionalUint::Flag(true));
    assert_eq!(conditional_uint::deserialize("false").unwrap(), ConditionalUint::Flag(false));
    assert_eq!(conditional_uint::deserialize("42").unwrap(), ConditionalUint::Count(42));
    assert_eq!(conditional_uint::deserialize("+7").unwrap(), ConditionalUint::Count(7));
    assert_eq!(
        conditional_uint::deserialize("18446744073709551615").unwrap(),
        ConditionalUint::Count(u64::MAX)
    );
}

#[test]
fn conditional_type_mismatch() {
    assert_eq!(conditional_uint::deserialize("abc").unwrap_err().input, "abc");
    assert!(conditional_uint::deserialize("").is_err());
    assert!(conditional_uint::deserialize("True").is_err());
    assert!(conditional_uint::deserialize("-1").is_err());
    assert!(conditional_uint::deserialize("18446744073709551616").is_err());
}

#[test]
fn conditional_serialize() {
    assert_eq!(conditional_uint::serialize(&ConditionalUint::Count(42)), "42");
    assert_eq!(conditional_uint::serialize(&ConditionalUint::Count(0)), "0");
    assert_eq!(conditional_uint::serialize(&ConditionalUint::Flag(true)), "true");
    assert_eq!(conditional_uint::serialize(&ConditionalUint::Flag(false)), "false");
}
