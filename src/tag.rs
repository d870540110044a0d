//! Tags: indexed metadata, a validated key and a validated value.
use vstd::prelude::*;

use crate::error::{fails_as, Error};
use crate::escape::{escaped, lemma_escape_newline_free, Reserved};
use crate::name_restriction::{
    has_newline, key_check, lemma_concat_newline_free, newline_check, prevent_key, prevent_tag_value,
    valid_key, valid_value,
};
use crate::text::{push_char, push_str};

verus! {

/// The key of a tag: no leading `_`, no line feed.
#[derive(Debug, PartialEq, Eq, Hash, PartialOrd, Ord)]
pub struct TagKey(String);

impl View for TagKey {
    type V = Seq<char>;

    closed spec fn view(&self) -> Seq<char> {
        self.0@
    }
}

impl Clone for TagKey {
    fn clone(&self) -> (r: TagKey)
        ensures
            r@ == self@,
    {
        proof {
            use_type_invariant(self);
        }
        TagKey(self.0.clone())
    }
}

impl AsRef<str> for TagKey {
    fn as_ref(&self) -> (r: &str)
        ensures
            r@ == self@,
    {
        self.as_str()
    }
}

impl std::borrow::Borrow<str> for TagKey {
    fn borrow(&self) -> &str {
        self.as_str()
    }
}

impl TagKey {
    #[verifier::type_invariant]
    spec fn inv(self) -> bool {
        valid_key(self.0@)
    }

    /// Checks `s` and wraps it.
    pub fn new(s: &str) -> (r: Result<TagKey, Error>)
        ensures
            fails_as(r, key_check(s@)),
            r matches Ok(k) ==> k@ == s@,
    {
        prevent_key(s)?;
        Ok(TagKey(s.to_string()))
    }

    /// The key; it never starts with `_` nor holds a line feed.
    pub fn as_str(&self) -> (r: &str)
        ensures
            r@ == self@,
            valid_key(self@),
    {
        proof {
            use_type_invariant(self);
        }
        self.0.as_str()
    }
}

impl<'a> TryFrom<&'a str> for TagKey {
    type Error = Error;

    fn try_from(value: &'a str) -> (r: Result<TagKey, Error>)
        ensures
            fails_as(r, key_check(value@)),
            r matches Ok(k) ==> k@ == value@,
    {
        TagKey::new(value)
    }
}

impl<'a> vstd::std_specs::convert::TryFromSpecImpl<&'a str> for TagKey {
    open spec fn obeys_try_from_spec() -> bool {
        false
    }

    open spec fn try_from_spec(value: &'a str) -> Result<TagKey, Error> {
        arbitrary()
    }
}

/// The value of a tag: no line feed.
#[derive(Debug, PartialEq, Eq, Hash, PartialOrd, Ord)]
pub struct TagValue(String);

impl View for TagValue {
    type V = Seq<char>;

    closed spec fn view(&self) -> Seq<char> {
        self.0@
    }
}

impl Clone for TagValue {
    fn clone(&self) -> (r: TagValue)
        ensures
            r@ == self@,
    {
        proof {
            use_type_invariant(self);
        }
        TagValue(self.0.clone())
    }
}

impl AsRef<str> for TagValue {
    fn as_ref(&self) -> (r: &str)
        ensures
            r@ == self@,
    {
        self.as_str()
    }
}

impl std::borrow::Borrow<str> for TagValue {
    fn borrow(&self) -> &str {
        self.as_str()
    }
}

impl TagValue {
    #[verifier::type_invariant]
    spec fn inv(self) -> bool {
        valid_value(self.0@)
    }

    /// Checks `s` and wraps it.
    pub fn new(s: &str) -> (r: Result<TagValue, Error>)
        ensures
            fails_as(r, newline_check(s@)),
            r matches Ok(v) ==> v@ == s@,
    {
        prevent_tag_value(s)?;
        Ok(TagValue(s.to_string()))
    }

    /// The value; it never holds a line feed.
    pub fn as_str(&self) -> (r: &str)
        ensures
            r@ == self@,
            valid_value(self@),
    {
        proof {
            use_type_invariant(self);
        }
        self.0.as_str()
    }
}

impl<'a> TryFrom<&'a str> for TagValue {
    type Error = Error;

    fn try_from(value: &'a str) -> (r: Result<TagValue, Error>)
        ensures
            fails_as(r, newline_check(value@)),
            r matches Ok(v) ==> v@ == value@,
    {
        TagValue::new(value)
    }
}

impl<'a> vstd::std_specs::convert::TryFromSpecImpl<&'a str> for TagValue {
    open spec fn obeys_try_from_spec() -> bool {
        false
    }

    open spec fn try_from_spec(value: &'a str) -> Result<TagValue, Error> {
        arbitrary()
    }
}

/// A key and a value of metadata.
#[derive(Debug, PartialEq, Eq)]
pub struct Tag {
    key: TagKey,
    value: TagValue,
}

impl Clone for Tag {
    fn clone(&self) -> (r: Tag)
        ensures
            r@ == self@,
    {
        Tag { key: self.key.clone(), value: self.value.clone() }
    }
}

impl View for Tag {
    type V = (Seq<char>, Seq<char>);

    closed spec fn view(&self) -> (Seq<char>, Seq<char>) {
        (self.key@, self.value@)
    }
}

/// The outcome of checking a raw key and value: the key is checked first.
pub open spec fn tag_check(key: Seq<char>, value: Seq<char>) -> Result<(), Error> {
    match key_check(key) {
        Err(e) => Err(e),
        Ok(_) => newline_check(value),
    }
}

/// `key=value`, each escaped.
pub open spec fn tag_text(t: (Seq<char>, Seq<char>)) -> Seq<char> {
    escaped(Reserved::CommaEqualSpace, t.0) + seq!['='] + escaped(Reserved::CommaEqualSpace, t.1)
}

impl Tag {
    /// Checks the key, then the value.
    pub fn new(key: &str, value: &str) -> (r: Result<Tag, Error>)
        ensures
            fails_as(r, tag_check(key@, value@)),
            r matches Ok(t) ==> t@ == (key@, value@),
    {
        let key = TagKey::new(key)?;
        let value = TagValue::new(value)?;
        Ok(Tag::from_parts(key, value))
    }

    pub fn from_parts(key: TagKey, value: TagValue) -> (r: Tag)
        ensures
            r@ == (key@, value@),
    {
        Tag { key, value }
    }

    pub fn key(&self) -> (r: &TagKey)
        ensures
            r@ == self@.0,
    {
        &self.key
    }

    pub fn value(&self) -> (r: &TagValue)
        ensures
            r@ == self@.1,
    {
        &self.value
    }

    /// Renders `key=value` with both parts escaped.
    pub fn to_text(&self) -> (r: String)
        ensures
            r@ == tag_text(self@),
            !has_newline(r@),
    {
        let key = self.key.as_str();
        let mut out = crate::escape::tag_key(key);
        push_char(&mut out, '=');
        let raw_value = self.value.as_str();
        let value = crate::escape::tag_value(raw_value);
        push_str(&mut out, value.as_str());
        proof {
            let k = escaped(Reserved::CommaEqualSpace, key@);
            lemma_escape_newline_free(Reserved::CommaEqualSpace, key@);
            lemma_escape_newline_free(Reserved::CommaEqualSpace, raw_value@);
            lemma_concat_newline_free(k, seq!['=']);
            lemma_concat_newline_free(k + seq!['='], value@);
        }
        out
    }
}

impl<'a> TryFrom<(&'a str, &'a str)> for Tag {
    type Error = Error;

    fn try_from(value: (&'a str, &'a str)) -> (r: Result<Tag, Error>)
        ensures
            fails_as(r, tag_check(value.0@, value.1@)),
            r matches Ok(t) ==> t@ == (value.0@, value.1@),
    {
        Tag::new(value.0, value.1)
    }
}

impl<'a> vstd::std_specs::convert::TryFromSpecImpl<(&'a str, &'a str)> for Tag {
    open spec fn obeys_try_from_spec() -> bool {
        false
    }

    open spec fn try_from_spec(value: (&'a str, &'a str)) -> Result<Tag, Error> {
        arbitrary()
    }
}

} // verus!
