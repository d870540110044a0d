use line_protocol::{Error, Field, FieldValue, IntoPoint, Point, Precision, Tag, Timestamp};
use std::convert::TryFrom;

#[test]
fn add_vec_of_fields_to_builder() {
    let a = Field::new("a", FieldValue::try_from("b").unwrap()).unwrap();
    let b = Field::new("c", 6i64.into()).unwrap();

    let _point = Point::builder("test")
        .unwrap()
        .add_fields(vec![a, b])
        .build()
        .unwrap();
}

#[test]
fn try_add_tags_to_builder() {
    let v = vec![("field1", "value1"), ("field2", "value2")];
    let _point = Point::builder("test")
        .unwrap()
        .try_add_fields(v)
        .build()
        .unwrap();
}

#[test]
fn end_to_end_line() {
    let p = Point::builder("test")
        .unwrap()
        .add_tag(Tag::new("host", "serverA").unwrap())
        .add_field(Field::new("value", FieldValue::Integer(1)).unwrap())
        .timestamp(Timestamp::Nanos(100))
        .build()
        .unwrap();
    assert_eq!(p.to_text().unwrap(), "test,host=serverA value=1i 100");
}

#[test]
fn unresolved_timestamp_is_omitted() {
    let p = Point::builder("m")
        .unwrap()
        .try_add_field(("f", "v"))
        .build()
        .unwrap();
    assert_eq!(p.to_text().unwrap(), "m f=\"v\"");
    assert_eq!(p.precision(), None);
}

#[test]
fn several_tags_and_fields_keep_their_order() {
    let p = Point::builder("weather report")
        .unwrap()
        .try_add_tags(vec![("city", "New York"), ("z", "1"), ("a", "2")])
        .add_fields(vec![
            Field::new("temp", FieldValue::float("-3.5").unwrap()).unwrap(),
            Field::new("ok", FieldValue::Boolean(false)).unwrap(),
            Field::new("n", FieldValue::UInteger(7)).unwrap(),
        ])
        .timestamp(Timestamp::Secs(2))
        .build()
        .unwrap();
    assert_eq!(
        p.to_text().unwrap(),
        r"weather\ report,city=New\ York,z=1,a=2 temp=-3.5, ok=false, n=7u 2000000000"
    );
    assert_eq!(p.tags().len(), 3);
    assert_eq!(p.fields().len(), 3);
    assert_eq!(p.measurement().as_str(), "weather report");
    assert_eq!(p.timestamp(), Timestamp::Secs(2));
}

#[test]
fn duplicate_tags_are_kept() {
    let p = Point::builder("m")
        .unwrap()
        .try_add_tag(("k", "1"))
        .try_add_tag(("k", "1"))
        .try_add_field(("f", "x"))
        .build()
        .unwrap();
    assert_eq!(p.to_text().unwrap(), "m,k=1,k=1 f=\"x\"");
}

#[test]
fn text_with_precision_converts_the_timestamp() {
    let p = Point::builder("m")
        .unwrap()
        .add_field(Field::new("f", FieldValue::Integer(1)).unwrap())
        .timestamp(Timestamp::Nanos(1_500))
        .build()
        .unwrap();
    assert_eq!(p.to_text_with_precision(Precision::Micro).unwrap(), "m f=1i 1");
    assert_eq!(p.to_text().unwrap(), "m f=1i 1500");
}

#[test]
fn overflowing_timestamp_fails_to_render() {
    let p = Point::builder("m")
        .unwrap()
        .add_field(Field::new("f", FieldValue::Integer(1)).unwrap())
        .timestamp(Timestamp::Secs(i64::MAX))
        .build()
        .unwrap();
    assert_eq!(p.to_text(), Err(Error::TimestampOverflow));
    assert_eq!(p.to_text_with_precision(Precision::Secs).unwrap(), format!("m f=1i {}", i64::MAX));
}

#[test]
fn builder_queues_errors_and_build_returns_the_first() {
    let b = Point::builder("m")
        .unwrap()
        .try_add_tag(("_bad", "v"))
        .try_add_field(("ok", "fine"))
        .try_add_field(("f", "line\nbreak"))
        .try_add_tags(vec![("t", "v"), ("x", "y\n")]);
    assert_eq!(b.errors(), &vec![Error::ReservedPrefix, Error::NewLine, Error::NewLine]);
    assert_eq!(b.build(), Err(Error::ReservedPrefix));
}

#[test]
fn build_without_fields_fails() {
    let b = Point::builder("m").unwrap().try_add_tag(("t", "v"));
    assert_eq!(b.build(), Err(Error::NoFields));
    let b = Point::builder("m").unwrap().try_add_field(("_f", "v"));
    assert_eq!(b.build(), Err(Error::NoFields));
}

#[test]
fn builder_rejects_bad_measurement() {
    assert_eq!(Point::builder("a\nb").unwrap_err(), Error::NewLine);
    assert_eq!(Point::builder("_a").unwrap_err(), Error::ReservedPrefix);
}

#[test]
fn into_point_is_identity() {
    let p = Point::builder("m")
        .unwrap()
        .try_add_field(("f", "v"))
        .build()
        .unwrap();
    let q = p.clone().into_point();
    assert_eq!(p, q);
}

#[test]
fn bulk_of_raw_tags_is_all_or_nothing() {
    let b = Point::builder("m")
        .unwrap()
        .try_add_tags(vec![("ok", "1"), ("_bad", "2"), ("fine", "3"), ("nl", "4\n")])
        .try_add_field(("f", "v"));
    assert_eq!(b.errors(), &vec![Error::ReservedPrefix, Error::NewLine]);
    let b = Point::builder("m")
        .unwrap()
        .try_add_tags(vec![("a", "1"), ("b", "2")])
        .try_add_field(("f", "v"));
    assert_eq!(b.build().unwrap().to_text().unwrap(), "m,a=1,b=2 f=\"v\"");
}

#[test]
fn bulk_of_raw_fields_is_all_or_nothing() {
    let b = Point::builder("m")
        .unwrap()
        .try_add_fields(vec![("ok", "1"), ("bad", "x\ny"), ("_k", "z")]);
    assert_eq!(b.errors(), &vec![Error::NewLine, Error::ReservedPrefix]);
    assert_eq!(b.build(), Err(Error::NoFields));
}

#[test]
fn raw_keys_with_typed_values() {
    let p = Point::builder("m")
        .unwrap()
        .try_add_field_value(("u", FieldValue::UInteger(45)))
        .try_add_field_values(vec![("i", FieldValue::Integer(-2)), ("b", FieldValue::Boolean(true))])
        .build()
        .unwrap();
    assert_eq!(p.to_text().unwrap(), "m u=45u, i=-2i, b=true");

    let b = Point::builder("m")
        .unwrap()
        .try_add_field_value(("_u", FieldValue::UInteger(45)))
        .try_add_field_values(vec![("i", FieldValue::Integer(1)), ("_b", FieldValue::Boolean(true)), ("_c", FieldValue::Integer(3))]);
    assert_eq!(b.errors(), &vec![Error::ReservedPrefix, Error::ReservedPrefix, Error::ReservedPrefix]);
    assert_eq!(b.build(), Err(Error::NoFields));
}
