use line_protocol::escape::{escape, field_key, field_value, measurement, tag_key, tag_value, Reserved};
use line_protocol::name_restriction::{check_measurement, prevent_filed_value_string, prevent_key, prevent_tag_value};
use line_protocol::Error;

#[test]
fn text_without_reserved_characters_is_unchanged() {
    assert_eq!(measurement("cpu_load-1"), "cpu_load-1");
    assert_eq!(tag_key("region"), "region");
    assert_eq!(tag_value("us-west/2"), "us-west/2");
    assert_eq!(field_key("ółπ≠²"), "ółπ≠²");
    assert_eq!(field_value("a = b, c"), "a = b, c");
    assert_eq!(measurement(""), "");
}

#[test]
fn each_reserved_character_gets_one_backslash() {
    assert_eq!(measurement("a b,c=d"), r"a\ b\,c=d");
    assert_eq!(tag_key("a b,c=d"), r"a\ b\,c\=d");
    assert_eq!(tag_value("=,= "), r"\=\,\=\ ");
    assert_eq!(field_key("ł =ł"), r"ł\ \=ł");
    assert_eq!(field_value(r#"say "hi" \o/"#), r#"say \"hi\" \\o/"#);
    assert_eq!(field_value(r"\\"), r"\\\\");
}

#[test]
fn escape_by_set() {
    assert_eq!(escape(Reserved::CommaSpace, ", "), r"\,\ ");
    assert_eq!(escape(Reserved::CommaEqualSpace, "x=1"), r"x\=1");
    assert_eq!(escape(Reserved::QuoteBackslash, "\"="), "\\\"=");
}

#[test]
fn validators() {
    assert_eq!(prevent_key("_a"), Err(Error::ReservedPrefix));
    assert_eq!(prevent_key("a\n"), Err(Error::NewLine));
    assert_eq!(prevent_key("a"), Ok(()));
    assert_eq!(prevent_tag_value("_a"), Ok(()));
    assert_eq!(prevent_tag_value("\n"), Err(Error::NewLine));
    assert_eq!(prevent_filed_value_string("x\ny"), Err(Error::NewLine));
    assert_eq!(check_measurement("_m"), Ok(()));
    assert_eq!(check_measurement("m\n"), Err(Error::NewLine));
}

#[test]
fn error_messages() {
    assert_eq!(Error::NewLine.message(), "New line `\\n` is not allowed");
    assert!(Error::TimestampOverflow.message().contains("nanoseconds"));
}
