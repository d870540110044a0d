use line_protocol::{Error, Measurement, Tag, TagKey, TagValue};
use std::convert::TryFrom;

#[test]
fn tag_renders_escaped_key_and_value() {
    let t = Tag::new("host name", "server,A=1").unwrap();
    assert_eq!(t.to_text(), r"host\ name=server\,A\=1");
    let t = Tag::new("host", "serverA").unwrap();
    assert_eq!(t.to_text(), "host=serverA");
}

#[test]
fn tag_key_rules() {
    assert_eq!(TagKey::new("_host").unwrap_err(), Error::ReservedPrefix);
    assert_eq!(TagKey::new("ho\nst").unwrap_err(), Error::NewLine);
    assert_eq!(TagKey::try_from("host").unwrap().as_str(), "host");
    assert_eq!(Tag::new("_k", "v").unwrap_err(), Error::ReservedPrefix);
    assert_eq!(Tag::new("_k", "v\n").unwrap_err(), Error::ReservedPrefix);
    assert_eq!(Tag::new("k", "v\n").unwrap_err(), Error::NewLine);
}

#[test]
fn tag_value_allows_leading_underscore() {
    assert_eq!(TagValue::new("_v").unwrap().as_str(), "_v");
    assert_eq!(TagValue::new("v\nw").unwrap_err(), Error::NewLine);
    let t = Tag::try_from(("k", "_v")).unwrap();
    assert_eq!(t.key().as_str(), "k");
    assert_eq!(t.value().as_str(), "_v");
}

#[test]
fn measurement_rules() {
    assert_eq!(Measurement::new("cpu\nload").unwrap_err(), Error::NewLine);
    assert_eq!(Measurement::new("_cpu").unwrap_err(), Error::ReservedPrefix);
    assert_eq!(Measurement::new("_cpu\n").unwrap_err(), Error::ReservedPrefix);
    assert_eq!(Measurement::new("c_pu").unwrap().as_str(), "c_pu");
    assert_eq!(Measurement::try_from("cpu").unwrap().as_str(), "cpu");
}

#[test]
fn names_borrow_as_str() {
    let k = TagKey::new("host").unwrap();
    let s: &str = k.as_ref();
    assert_eq!(s, "host");
    let mut set = std::collections::HashSet::new();
    set.insert(k.clone());
    assert!(set.contains("host"));
    let m = Measurement::new("cpu").unwrap();
    let b: &str = std::borrow::Borrow::borrow(&m);
    assert_eq!(b, "cpu");
}
