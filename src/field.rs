//! Fields: the data of a point, a validated key and a typed value.
use vstd::prelude::*;

use crate::error::{fails_as, Error};
use crate::escape::{escaped, lemma_escape_newline_free, Reserved};
use crate::name_restriction::{
    has_newline, key_check, lemma_concat_newline_free, newline_check, prevent_filed_value_string,
    prevent_key, valid_key, valid_value,
};
use crate::text::{int_text, lemma_int_text_newline_free, nat_text, push_char, push_signed, push_str, push_unsigned};

verus! {

/// The key of a field: no leading `_`, no line feed.
#[derive(Debug, PartialEq, Eq, Hash, PartialOrd, Ord)]
pub struct FieldKey(String);

impl View for FieldKey {
    type V = Seq<char>;

    closed spec fn view(&self) -> Seq<char> {
        self.0@
    }
}

impl Clone for FieldKey {
    fn clone(&self) -> (r: FieldKey)
        ensures
            r@ == self@,
    {
        proof {
            use_type_invariant(self);
        }
        FieldKey(self.0.clone())
    }
}

impl AsRef<str> for FieldKey {
    fn as_ref(&self) -> (r: &str)
        ensures
            r@ == self@,
    {
        self.as_str()
    }
}

impl std::borrow::Borrow<str> for FieldKey {
    fn borrow(&self) -> &str {
        self.as_str()
    }
}

impl FieldKey {
    #[verifier::type_invariant]
    spec fn inv(self) -> bool {
        valid_key(self.0@)
    }

    /// Checks `s` and wraps it.
    pub fn new(s: &str) -> (r: Result<FieldKey, Error>)
        ensures
            fails_as(r, key_check(s@)),
            r matches Ok(k) ==> k@ == s@,
    {
        prevent_key(s)?;
        Ok(FieldKey(s.to_string()))
    }

    /// The key; it never starts with `_` nor holds a line feed.
    pub fn as_str(&self) -> (r: &str)
        ensures
            r@ == self@,
            valid_key(self@),
    {
        proof {
            use_type_invariant(self);
        }
        self.0.as_str()
    }
}

impl<'a> TryFrom<&'a str> for FieldKey {
    type Error = Error;

    fn try_from(value: &'a str) -> (r: Result<FieldKey, Error>)
        ensures
            fails_as(r, key_check(value@)),
            r matches Ok(k) ==> k@ == value@,
    {
        FieldKey::new(value)
    }
}

impl<'a> vstd::std_specs::convert::TryFromSpecImpl<&'a str> for FieldKey {
    open spec fn obeys_try_from_spec() -> bool {
        false
    }

    open spec fn try_from_spec(value: &'a str) -> Result<FieldKey, Error> {
        arbitrary()
    }
}

/// The content of a string field value: no line feed.
#[derive(Debug, PartialEq, Eq, Hash, PartialOrd, Ord)]
pub struct FieldString(String);

impl View for FieldString {
    type V = Seq<char>;

    closed spec fn view(&self) -> Seq<char> {
        self.0@
    }
}

impl Clone for FieldString {
    fn clone(&self) -> (r: FieldString)
        ensures
            r@ == self@,
    {
        proof {
            use_type_invariant(self);
        }
        FieldString(self.0.clone())
    }
}

impl FieldString {
    #[verifier::type_invariant]
    spec fn inv(self) -> bool {
        valid_value(self.0@)
    }

    /// Checks `s` and wraps it.
    pub fn new(s: &str) -> (r: Result<FieldString, Error>)
        ensures
            fails_as(r, newline_check(s@)),
            r matches Ok(v) ==> v@ == s@,
    {
        prevent_filed_value_string(s)?;
        Ok(FieldString(s.to_string()))
    }

    /// The content; it never holds a line feed.
    pub fn as_str(&self) -> (r: &str)
        ensures
            r@ == self@,
            valid_value(self@),
    {
        proof {
            use_type_invariant(self);
        }
        self.0.as_str()
    }
}

pub open spec fn is_digit(c: char) -> bool {
    '0' <= c && c <= '9'
}

/// Digits, with at most one `.`, which stands between two digits.
pub open spec fn is_unsigned_decimal(s: Seq<char>) -> bool {
    &&& s.len() > 0
    &&& is_digit(s[0])
    &&& is_digit(s.last())
    &&& forall|i: int| 0 <= i < s.len() ==> is_digit(#[trigger] s[i]) || s[i] == '.'
    &&& forall|i: int, j: int|
        0 <= i < j < s.len() && #[trigger] s[i] == '.' ==> #[trigger] s[j] != '.'
}

/// The decimal text of a float that is a number: a numeral or `inf`, after
/// an optional `-`.
pub open spec fn is_float_text(s: Seq<char>) -> bool {
    let u = if s.len() > 0 && s[0] == '-' {
        s.skip(1)
    } else {
        s
    };
    u == "inf"@ || is_unsigned_decimal(u)
}

/// The text of a NaN is no float text, so it cannot make a float value.
pub proof fn lemma_nan_rejected()
    ensures
        !is_float_text("NaN"@),
        !is_float_text("-NaN"@),
{
    reveal_strlit("NaN");
    reveal_strlit("-NaN");
    reveal_strlit("inf");
    assert("NaN"@[0] != "inf"@[0]);
    assert(!is_digit("NaN"@[0]));
    assert("-NaN"@.skip(1) =~= "NaN"@);
}

/// Float text holds no line feed.
pub proof fn lemma_float_text_newline_free(s: Seq<char>)
    requires
        is_float_text(s),
    ensures
        !has_newline(s),
{
    reveal_strlit("inf");
    let neg = s.len() > 0 && s[0] == '-';
    let u = if neg {
        s.skip(1)
    } else {
        s
    };
    assert forall|i: int| 0 <= i < u.len() implies #[trigger] u[i] != '\n' by {
        if u == "inf"@ {
            assert(u[i] == 'i' || u[i] == 'n' || u[i] == 'f');
        } else {
            assert(is_digit(u[i]) || u[i] == '.');
        }
    }
    assert forall|i: int| 0 <= i < s.len() implies #[trigger] s[i] != '\n' by {
        if neg && i > 0 {
            assert(s[i] == u[i - 1]);
        }
    }
}

fn is_digit_char(c: char) -> (r: bool)
    ensures
        r == is_digit(c),
{
    '0' <= c && c <= '9'
}

fn is_unsigned_decimal_str(s: &str) -> (r: bool)
    ensures
        r == is_unsigned_decimal(s@),
{
    let n = s.unicode_len();
    if n == 0 {
        return false;
    }
    if !is_digit_char(s.get_char(0)) || !is_digit_char(s.get_char(n - 1)) {
        return false;
    }
    let mut seen_dot = false;
    let mut idx: usize = 0;
    for c in it: s.chars()
        invariant
            it.seq() == s@,
            n == s@.len(),
            idx == it.index(),
            forall|i: int| 0 <= i < idx ==> is_digit(#[trigger] s@[i]) || s@[i] == '.',
            forall|i: int, j: int|
                0 <= i < j < idx && #[trigger] s@[i] == '.' ==> #[trigger] s@[j] != '.',
            seen_dot <==> exists|i: int| 0 <= i < idx && #[trigger] s@[i] == '.',
    {
        if c == '.' {
            if seen_dot {
                let ghost i = choose|i: int| 0 <= i < idx && #[trigger] s@[i] == '.';
                assert(s@[i] == '.' && s@[idx as int] == '.');
                return false;
            }
            seen_dot = true;
        } else if !is_digit_char(c) {
            assert(!is_digit(s@[idx as int]) && s@[idx as int] != '.');
            return false;
        }
        idx = idx + 1;
    }
    true
}

fn is_infinity_str(s: &str) -> (r: bool)
    ensures
        r == (s@ == "inf"@),
{
    proof {
        reveal_strlit("inf");
    }
    if s.unicode_len() == 3 && s.get_char(0) == 'i' && s.get_char(1) == 'n' && s.get_char(2) == 'f' {
        assert(s@ =~= "inf"@);
        true
    } else {
        false
    }
}

/// A float that is a number, held as its decimal text (as Rust's `Display`
/// writes an `f64`: no exponent, `inf` for infinity).
#[derive(Debug, PartialEq, Eq, Hash)]
pub struct FloatValue(String);

impl View for FloatValue {
    type V = Seq<char>;

    closed spec fn view(&self) -> Seq<char> {
        self.0@
    }
}

impl Clone for FloatValue {
    fn clone(&self) -> (r: FloatValue)
        ensures
            r@ == self@,
    {
        proof {
            use_type_invariant(self);
        }
        FloatValue(self.0.clone())
    }
}

impl FloatValue {
    #[verifier::type_invariant]
    spec fn inv(self) -> bool {
        is_float_text(self.0@)
    }

    /// Wraps the decimal text of a float; anything else, `NaN` among it, is
    /// not a number.
    pub fn new(text: &str) -> (r: Result<FloatValue, Error>)
        ensures
            r is Ok <==> is_float_text(text@),
            r matches Ok(f) ==> f@ == text@,
            r matches Err(e) ==> e == Error::NotANumber,
    {
        let n = text.unicode_len();
        let body = if n > 0 && text.get_char(0) == '-' {
            text.substring_char(1, n)
        } else {
            text
        };
        assert(n > 0 && text@[0] == '-' ==> body@ =~= text@.skip(1));
        if is_infinity_str(body) || is_unsigned_decimal_str(body) {
            Ok(FloatValue(text.to_string()))
        } else {
            Err(Error::NotANumber)
        }
    }

    /// The decimal text.
    pub fn as_str(&self) -> (r: &str)
        ensures
            r@ == self@,
            is_float_text(self@),
    {
        proof {
            use_type_invariant(self);
        }
        self.0.as_str()
    }
}

/// The value of a field.
#[derive(Debug, PartialEq, Eq)]
pub enum FieldValue {
    String(FieldString),
    UInteger(u64),
    Integer(i64),
    Float(FloatValue),
    Boolean(bool),
}

/// What a field value holds, as plain values.
pub enum FieldValueView {
    String(Seq<char>),
    UInteger(u64),
    Integer(i64),
    Float(Seq<char>),
    Boolean(bool),
}

impl View for FieldValue {
    type V = FieldValueView;

    open spec fn view(&self) -> FieldValueView {
        match self {
            FieldValue::String(s) => FieldValueView::String(s@),
            FieldValue::UInteger(n) => FieldValueView::UInteger(*n),
            FieldValue::Integer(i) => FieldValueView::Integer(*i),
            FieldValue::Float(f) => FieldValueView::Float(f@),
            FieldValue::Boolean(b) => FieldValueView::Boolean(*b),
        }
    }
}

impl Clone for FieldValue {
    fn clone(&self) -> (r: FieldValue)
        ensures
            r@ == self@,
    {
        match self {
            FieldValue::String(s) => FieldValue::String(s.clone()),
            FieldValue::UInteger(n) => FieldValue::UInteger(*n),
            FieldValue::Integer(i) => FieldValue::Integer(*i),
            FieldValue::Float(f) => FieldValue::Float(f.clone()),
            FieldValue::Boolean(b) => FieldValue::Boolean(*b),
        }
    }
}

/// How a field value is written on the wire.
pub open spec fn field_value_text(v: FieldValueView) -> Seq<char> {
    match v {
        FieldValueView::String(s) => seq!['"'] + escaped(Reserved::QuoteBackslash, s) + seq!['"'],
        FieldValueView::UInteger(n) => nat_text(n as nat).push('u'),
        FieldValueView::Integer(i) => int_text(i as int).push('i'),
        FieldValueView::Float(f) => f,
        FieldValueView::Boolean(b) => if b {
            "true"@
        } else {
            "false"@
        },
    }
}

/// The text of a string value without line feeds, or of any other value,
/// holds no line feed.
pub proof fn lemma_field_value_text_newline_free(v: FieldValueView)
    requires
        match v {
            FieldValueView::String(s) => !has_newline(s),
            FieldValueView::Float(f) => is_float_text(f),
            _ => true,
        },
    ensures
        !has_newline(field_value_text(v)),
{
    match v {
        FieldValueView::String(s) => {
            lemma_escape_newline_free(Reserved::QuoteBackslash, s);
            let e = escaped(Reserved::QuoteBackslash, s);
            lemma_concat_newline_free(seq!['"'], e);
            lemma_concat_newline_free(seq!['"'] + e, seq!['"']);
        },
        FieldValueView::UInteger(n) => {
            lemma_int_text_newline_free(n as int);
            assert(int_text(n as int) == nat_text(n as nat));
            lemma_concat_newline_free(nat_text(n as nat), seq!['u']);
            assert(nat_text(n as nat).push('u') =~= nat_text(n as nat) + seq!['u']);
        },
        FieldValueView::Integer(i) => {
            lemma_int_text_newline_free(i as int);
            lemma_concat_newline_free(int_text(i as int), seq!['i']);
            assert(int_text(i as int).push('i') =~= int_text(i as int) + seq!['i']);
        },
        FieldValueView::Float(f) => {
            lemma_float_text_newline_free(f);
        },
        FieldValueView::Boolean(b) => {
            reveal_strlit("true");
            reveal_strlit("false");
            let t = field_value_text(v);
            assert forall|i: int| 0 <= i < t.len() implies #[trigger] t[i] != '\n' by {}
        },
    }
}

impl FieldValue {
    /// A string value; fails on a line feed.
    pub fn string(s: &str) -> (r: Result<FieldValue, Error>)
        ensures
            fails_as(r, newline_check(s@)),
            r matches Ok(v) ==> v@ == FieldValueView::String(s@),
    {
        let t = FieldString::new(s)?;
        Ok(FieldValue::String(t))
    }

    /// A float value from its decimal text; fails on anything that is not a number.
    pub fn float(text: &str) -> (r: Result<FieldValue, Error>)
        ensures
            r is Ok <==> is_float_text(text@),
            r matches Ok(v) ==> v@ == FieldValueView::Float(text@),
            r matches Err(e) ==> e == Error::NotANumber,
    {
        let f = FloatValue::new(text)?;
        Ok(FieldValue::Float(f))
    }

    /// Renders the value: a string quoted and escaped, an unsigned integer
    /// with `u`, a signed one with `i`, a float and a boolean as they are.
    pub fn to_text(&self) -> (r: String)
        ensures
            r@ == field_value_text(self@),
            !has_newline(r@),
    {
        let mut out = String::new();
        match self {
            FieldValue::String(s) => {
                push_char(&mut out, '"');
                let e = crate::escape::field_value(s.as_str());
                push_str(&mut out, e.as_str());
                push_char(&mut out, '"');
            },
            FieldValue::UInteger(n) => {
                push_unsigned(&mut out, *n);
                push_char(&mut out, 'u');
            },
            FieldValue::Integer(i) => {
                push_signed(&mut out, *i);
                push_char(&mut out, 'i');
            },
            FieldValue::Float(f) => {
                push_str(&mut out, f.as_str());
            },
            FieldValue::Boolean(b) => {
                if *b {
                    push_str(&mut out, "true");
                } else {
                    push_str(&mut out, "false");
                }
            },
        }
        proof {
            lemma_field_value_text_newline_free(self@);
        }
        out
    }
}

impl<'a> TryFrom<&'a str> for FieldValue {
    type Error = Error;

    fn try_from(value: &'a str) -> (r: Result<FieldValue, Error>)
        ensures
            fails_as(r, newline_check(value@)),
            r matches Ok(v) ==> v@ == FieldValueView::String(value@),
    {
        FieldValue::string(value)
    }
}

impl<'a> vstd::std_specs::convert::TryFromSpecImpl<&'a str> for FieldValue {
    open spec fn obeys_try_from_spec() -> bool {
        false
    }

    open spec fn try_from_spec(value: &'a str) -> Result<FieldValue, Error> {
        arbitrary()
    }
}

impl From<u64> for FieldValue {
    fn from(v: u64) -> (r: FieldValue) {
        FieldValue::UInteger(v)
    }
}

impl vstd::std_specs::convert::FromSpecImpl<u64> for FieldValue {
    open spec fn obeys_from_spec() -> bool {
        true
    }

    open spec fn from_spec(v: u64) -> FieldValue {
        FieldValue::UInteger(v)
    }
}

impl From<i64> for FieldValue {
    fn from(v: i64) -> (r: FieldValue) {
        FieldValue::Integer(v)
    }
}

impl vstd::std_specs::convert::FromSpecImpl<i64> for FieldValue {
    open spec fn obeys_from_spec() -> bool {
        true
    }

    open spec fn from_spec(v: i64) -> FieldValue {
        FieldValue::Integer(v)
    }
}

impl From<bool> for FieldValue {
    fn from(v: bool) -> (r: FieldValue) {
        FieldValue::Boolean(v)
    }
}

impl vstd::std_specs::convert::FromSpecImpl<bool> for FieldValue {
    open spec fn obeys_from_spec() -> bool {
        true
    }

    open spec fn from_spec(v: bool) -> FieldValue {
        FieldValue::Boolean(v)
    }
}

impl From<FloatValue> for FieldValue {
    fn from(v: FloatValue) -> (r: FieldValue) {
        FieldValue::Float(v)
    }
}

impl vstd::std_specs::convert::FromSpecImpl<FloatValue> for FieldValue {
    open spec fn obeys_from_spec() -> bool {
        true
    }

    open spec fn from_spec(v: FloatValue) -> FieldValue {
        FieldValue::Float(v)
    }
}

/// A key and a value of data.
#[derive(Debug, PartialEq, Eq)]
pub struct Field {
    key: FieldKey,
    value: FieldValue,
}

impl Clone for Field {
    fn clone(&self) -> (r: Field)
        ensures
            r@ == self@,
    {
        Field { key: self.key.clone(), value: self.value.clone() }
    }
}

impl View for Field {
    type V = (Seq<char>, FieldValueView);

    closed spec fn view(&self) -> (Seq<char>, FieldValueView) {
        (self.key@, self.value@)
    }
}

/// The outcome of checking a raw key and a raw string value: the key is
/// checked first.
pub open spec fn string_field_check(key: Seq<char>, value: Seq<char>) -> Result<(), Error> {
    match key_check(key) {
        Err(e) => Err(e),
        Ok(_) => newline_check(value),
    }
}

/// `key=value`, the key escaped and the value encoded.
pub open spec fn field_text(f: (Seq<char>, FieldValueView)) -> Seq<char> {
    escaped(Reserved::CommaEqualSpace, f.0) + seq!['='] + field_value_text(f.1)
}

/// A field with a string value from a raw key and a raw value, the key
/// checked first.
pub(crate) fn string_field(key: &str, value: &str) -> (r: Result<Field, Error>)
    ensures
        fails_as(r, string_field_check(key@, value@)),
        r matches Ok(f) ==> f@ == (key@, FieldValueView::String(value@)),
{
    let key = FieldKey::new(key)?;
    let v = FieldValue::string(value)?;
    Ok(Field::from_parts(key, v))
}

impl Field {
    /// Checks the key and pairs it with `value`.
    pub fn new(key: &str, value: FieldValue) -> (r: Result<Field, Error>)
        ensures
            fails_as(r, key_check(key@)),
            r matches Ok(f) ==> f@ == (key@, value@),
    {
        let key = FieldKey::new(key)?;
        Ok(Field::from_parts(key, value))
    }

    pub fn from_parts(key: FieldKey, value: FieldValue) -> (r: Field)
        ensures
            r@ == (key@, value@),
    {
        Field { key, value }
    }

    pub fn key(&self) -> (r: &FieldKey)
        ensures
            r@ == self@.0,
    {
        &self.key
    }

    pub fn value(&self) -> (r: &FieldValue)
        ensures
            r@ == self@.1,
    {
        &self.value
    }

    /// Renders `key=value`.
    pub fn to_text(&self) -> (r: String)
        ensures
            r@ == field_text(self@),
            !has_newline(r@),
    {
        let key = self.key.as_str();
        let mut out = crate::escape::field_key(key);
        push_char(&mut out, '=');
        let value = self.value.to_text();
        push_str(&mut out, value.as_str());
        proof {
            lemma_escape_newline_free(Reserved::CommaEqualSpace, key@);
            lemma_concat_newline_free(escaped(Reserved::CommaEqualSpace, key@), seq!['=']);
            lemma_concat_newline_free(
                escaped(Reserved::CommaEqualSpace, key@) + seq!['='],
                value@,
            );
        }
        out
    }
}

impl<'a> TryFrom<(&'a str, &'a str)> for Field {
    type Error = Error;

    fn try_from(value: (&'a str, &'a str)) -> (r: Result<Field, Error>)
        ensures
            fails_as(r, string_field_check(value.0@, value.1@)),
            r matches Ok(f) ==> f@ == (value.0@, FieldValueView::String(value.1@)),
    {
        string_field(value.0, value.1)
    }
}

impl<'a> vstd::std_specs::convert::TryFromSpecImpl<(&'a str, &'a str)> for Field {
    open spec fn obeys_try_from_spec() -> bool {
        false
    }

    open spec fn try_from_spec(value: (&'a str, &'a str)) -> Result<Field, Error> {
        arbitrary()
    }
}

impl<'a> TryFrom<(&'a str, FieldValue)> for Field {
    type Error = Error;

    fn try_from(value: (&'a str, FieldValue)) -> (r: Result<Field, Error>)
        ensures
            fails_as(r, key_check(value.0@)),
            r matches Ok(f) ==> f@ == (value.0@, value.1@),
    {
        Field::new(value.0, value.1)
    }
}

impl<'a> vstd::std_specs::convert::TryFromSpecImpl<(&'a str, FieldValue)> for Field {
    open spec fn obeys_try_from_spec() -> bool {
        false
    }

    open spec fn try_from_spec(value: (&'a str, FieldValue)) -> Result<Field, Error> {
        arbitrary()
    }
}

impl<'a> TryFrom<(&'a str, u64)> for Field {
    type Error = Error;

    fn try_from(value: (&'a str, u64)) -> (r: Result<Field, Error>)
        ensures
            fails_as(r, key_check(value.0@)),
            r matches Ok(f) ==> f@ == (value.0@, FieldValueView::UInteger(value.1)),
    {
        Field::new(value.0, FieldValue::UInteger(value.1))
    }
}

impl<'a> vstd::std_specs::convert::TryFromSpecImpl<(&'a str, u64)> for Field {
    open spec fn obeys_try_from_spec() -> bool {
        false
    }

    open spec fn try_from_spec(value: (&'a str, u64)) -> Result<Field, Error> {
        arbitrary()
    }
}

impl<'a> TryFrom<(&'a str, i64)> for Field {
    type Error = Error;

    fn try_from(value: (&'a str, i64)) -> (r: Result<Field, Error>)
        ensures
            fails_as(r, key_check(value.0@)),
            r matches Ok(f) ==> f@ == (value.0@, FieldValueView::Integer(value.1)),
    {
        Field::new(value.0, FieldValue::Integer(value.1))
    }
}

impl<'a> vstd::std_specs::convert::TryFromSpecImpl<(&'a str, i64)> for Field {
    open spec fn obeys_try_from_spec() -> bool {
        false
    }

    open spec fn try_from_spec(value: (&'a str, i64)) -> Result<Field, Error> {
        arbitrary()
    }
}

impl<'a> TryFrom<(&'a str, bool)> for Field {
    type Error = Error;

    fn try_from(value: (&'a str, bool)) -> (r: Result<Field, Error>)
        ensures
            fails_as(r, key_check(value.0@)),
            r matches Ok(f) ==> f@ == (value.0@, FieldValueView::Boolean(value.1)),
    {
        Field::new(value.0, FieldValue::Boolean(value.1))
    }
}

impl<'a> vstd::std_specs::convert::TryFromSpecImpl<(&'a str, bool)> for Field {
    open spec fn obeys_try_from_spec() -> bool {
        false
    }

    open spec fn try_from_spec(value: (&'a str, bool)) -> Result<Field, Error> {
        arbitrary()
    }
}

} // verus!
