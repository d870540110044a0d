use line_protocol::{Error, Field, FieldKey, FieldString, FieldValue, FloatValue};
use std::convert::{TryFrom, TryInto};

#[test]
fn escape_field_value_string() {
    let fv1 = FieldValue::try_from("FieldValue").unwrap();
    assert_eq!(fv1.to_text(), r#""FieldValue""#);

    let fv2 = FieldValue::try_from("Contains=EqualSign").unwrap();
    assert_eq!(fv2.to_text(), r#""Contains=EqualSign""#);

    let fv3 = FieldValue::try_from(r#"This value contains spaces and " quote"#).unwrap();
    assert_eq!(
        fv3.to_text(),
        r#""This value contains spaces and \" quote""#
    );

    let fv4 = FieldValue::try_from(r#"All = " \ , escaped characters"#).unwrap();
    assert_eq!(fv4.to_text(), r#""All = \" \\ , escaped characters""#);
}

#[test]
fn escape_field_value() {
    let fv: FieldValue = 64i64.into();
    assert_eq!(fv.to_text(), r#"64i"#);

    let fv: FieldValue = 64u64.into();
    assert_eq!(fv.to_text(), r#"64u"#);

    let fl = 64.4f64;
    let fv: FieldValue = FloatValue::new(&fl.to_string()).unwrap().into();
    assert_eq!(fv.to_text(), fl.to_string());

    let fv: FieldValue = true.into();
    assert_eq!(fv.to_text(), r#"true"#);
}

#[test]
fn escape_filed_set() {
    let fv = FieldValue::try_from(String::from(r#""\"#).as_str()).unwrap();
    let key = String::from(r#"" =,"#);
    let fs = Field::new(&key, fv).unwrap();
    assert_eq!(fs.to_text(), r#""\ \=\,="\"\\""#);
}

#[test]
fn try_into_for_field() {
    let _: Field = ("Some", "Value").try_into().unwrap();
    let _: Field = ("U", 45u64).try_into().unwrap();
    let _: Field = ("I", 45i64).try_into().unwrap();
    let _: Field = ("F", FieldValue::float(&44f64.to_string()).unwrap())
        .try_into()
        .unwrap();
    let _: Field = ("bool", true).try_into().unwrap();
}

#[test]
fn try_from_for_field() {
    let _ = Field::try_from(("Some", "Value")).unwrap();
    let _ = Field::try_from(("U", 45u64)).unwrap();
    let _ = Field::try_from(("I", 45i64)).unwrap();
    let _ = Field::try_from(("F", FieldValue::float(&44f64.to_string()).unwrap())).unwrap();
    let _ = Field::try_from(("bool", true)).unwrap();
}

#[test]
fn field_encodings_per_variant() {
    let f = Field::new("k", FieldValue::Integer(42)).unwrap();
    assert_eq!(f.to_text(), "k=42i");
    let f = Field::new("k", FieldValue::UInteger(42)).unwrap();
    assert_eq!(f.to_text(), "k=42u");
    let f = Field::new("k", FieldValue::Boolean(true)).unwrap();
    assert_eq!(f.to_text(), "k=true");
    let f = Field::new("k", FieldValue::float(&3.5f64.to_string()).unwrap()).unwrap();
    assert_eq!(f.to_text(), "k=3.5");
    let f = Field::new("k", FieldValue::Boolean(false)).unwrap();
    assert_eq!(f.to_text(), "k=false");
}

#[test]
fn integer_encodings_at_the_limits() {
    assert_eq!(FieldValue::Integer(i64::MIN).to_text(), "-9223372036854775808i");
    assert_eq!(FieldValue::Integer(i64::MAX).to_text(), "9223372036854775807i");
    assert_eq!(FieldValue::Integer(-7).to_text(), "-7i");
    assert_eq!(FieldValue::Integer(0).to_text(), "0i");
    assert_eq!(FieldValue::UInteger(u64::MAX).to_text(), "18446744073709551615u");
    assert_eq!(FieldValue::UInteger(0).to_text(), "0u");
    assert_eq!(FieldValue::UInteger(1090).to_text(), "1090u");
}

#[test]
fn field_key_rules() {
    assert_eq!(FieldKey::new("_x").unwrap_err(), Error::ReservedPrefix);
    assert_eq!(FieldKey::new("a\nb").unwrap_err(), Error::NewLine);
    assert_eq!(FieldKey::new("_a\nb").unwrap_err(), Error::ReservedPrefix);
    assert_eq!(FieldKey::new("a_b").unwrap().as_str(), "a_b");
    assert_eq!(FieldKey::try_from("").unwrap().as_str(), "");
    assert_eq!(Field::new("_k", FieldValue::Boolean(true)).unwrap_err(), Error::ReservedPrefix);
}

#[test]
fn string_value_rules() {
    assert_eq!(FieldValue::string("a\nb").unwrap_err(), Error::NewLine);
    assert_eq!(FieldString::new("line\n").unwrap_err(), Error::NewLine);
    assert_eq!(FieldValue::try_from("_leading is fine").unwrap().to_text(), "\"_leading is fine\"");
    assert_eq!(
        Field::try_from(("k", "v\n")).unwrap_err(),
        Error::NewLine
    );
    assert_eq!(
        Field::try_from(("_k", "v\n")).unwrap_err(),
        Error::ReservedPrefix
    );
}

#[test]
fn float_values_that_are_not_numbers_fail() {
    assert_eq!(FloatValue::new(&f64::NAN.to_string()).unwrap_err(), Error::NotANumber);
    assert_eq!(FieldValue::float("NaN").unwrap_err(), Error::NotANumber);
    assert_eq!(FieldValue::float("").unwrap_err(), Error::NotANumber);
    assert_eq!(FieldValue::float("1.").unwrap_err(), Error::NotANumber);
    assert_eq!(FieldValue::float(".5").unwrap_err(), Error::NotANumber);
    assert_eq!(FieldValue::float("1.2.3").unwrap_err(), Error::NotANumber);
    assert_eq!(FieldValue::float("-").unwrap_err(), Error::NotANumber);
}

#[test]
fn float_values_that_are_numbers_pass() {
    for v in [0.0f64, -0.0, 1.5, -2.25, 1e21, 1e-7, f64::INFINITY, f64::NEG_INFINITY, f64::MAX] {
        let text = v.to_string();
        let fv = FieldValue::float(&text).unwrap();
        assert_eq!(fv.to_text(), text);
    }
}

#[test]
fn field_accessors() {
    let f = Field::new("temp", FieldValue::UInteger(3)).unwrap();
    assert_eq!(f.key().as_str(), "temp");
    assert_eq!(f.value(), &FieldValue::UInteger(3));
    let g = Field::from_parts(FieldKey::new("x").unwrap(), FieldValue::Integer(-1));
    assert_eq!(g.to_text(), "x=-1i");
}
