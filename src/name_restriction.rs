//! Naming rules: measurement names, tag keys, tag values, field keys and
//! string field values hold no line feed, and measurement names and keys do
//! not start with `_`, a prefix reserved for system use.
use vstd::prelude::*;

use crate::error::Error;

verus! {

pub open spec fn starts_with_underscore(s: Seq<char>) -> bool {
    s.len() > 0 && s[0] == '_'
}

pub open spec fn has_newline(s: Seq<char>) -> bool {
    exists|i: int| 0 <= i < s.len() && #[trigger] s[i] == '\n'
}

/// The outcome of checking a key or a measurement name: the prefix is
/// checked first.
pub open spec fn key_check(s: Seq<char>) -> Result<(), Error> {
    if starts_with_underscore(s) {
        Err(Error::ReservedPrefix)
    } else if has_newline(s) {
        Err(Error::NewLine)
    } else {
        Ok(())
    }
}

/// The outcome of checking a value for line feeds.
pub open spec fn newline_check(s: Seq<char>) -> Result<(), Error> {
    if has_newline(s) {
        Err(Error::NewLine)
    } else {
        Ok(())
    }
}

pub open spec fn valid_key(s: Seq<char>) -> bool {
    key_check(s) is Ok
}

pub open spec fn valid_value(s: Seq<char>) -> bool {
    newline_check(s) is Ok
}

/// A key or a measurement name that starts with `_` or holds a line feed is
/// rejected, and so is a value that holds a line feed.
pub proof fn lemma_restricted_names_rejected(s: Seq<char>)
    ensures
        starts_with_underscore(s) ==> key_check(s) == Err::<(), Error>(Error::ReservedPrefix),
        has_newline(s) ==> key_check(s) is Err,
        has_newline(s) ==> newline_check(s) == Err::<(), Error>(Error::NewLine),
{
}

/// Text made of two pieces without line feeds holds none.
pub proof fn lemma_concat_newline_free(a: Seq<char>, b: Seq<char>)
    requires
        !has_newline(a),
        !has_newline(b),
    ensures
        !has_newline(a + b),
{
    assert forall|i: int| 0 <= i < (a + b).len() implies #[trigger] (a + b)[i] != '\n' by {
        if i < a.len() {
            assert((a + b)[i] == a[i]);
        } else {
            assert((a + b)[i] == b[i - a.len()]);
        }
    }
}

fn prevent_start_with_(s: &str) -> (r: Result<(), Error>)
    ensures
        r == if starts_with_underscore(s@) {
            Err::<(), Error>(Error::ReservedPrefix)
        } else {
            Ok(())
        },
{
    if !s.is_empty() && s.get_char(0) == '_' {
        Err(Error::ReservedPrefix)
    } else {
        Ok(())
    }
}

fn prevent_newline(s: &str) -> (r: Result<(), Error>)
    ensures
        r == newline_check(s@),
{
    let n = s.unicode_len();
    let mut idx: usize = 0;
    for c in it: s.chars()
        invariant
            it.seq() == s@,
            n == s@.len(),
            idx == it.index(),
            forall|i: int| 0 <= i < idx ==> #[trigger] s@[i] != '\n',
    {
        if c == '\n' {
            assert(s@[idx as int] == '\n');
            return Err(Error::NewLine);
        }
        idx = idx + 1;
    }
    Ok(())
}

/// Checks a tag key or a field key.
pub fn prevent_key(s: &str) -> (r: Result<(), Error>)
    ensures
        r == key_check(s@),
{
    prevent_start_with_(s)?;
    prevent_newline(s)
}

/// Checks a tag value.
pub fn prevent_tag_value(s: &str) -> (r: Result<(), Error>)
    ensures
        r == newline_check(s@),
{
    prevent_newline(s)
}

/// Checks the content of a string field value.
pub fn prevent_filed_value_string(s: &str) -> (r: Result<(), Error>)
    ensures
        r == newline_check(s@),
{
    prevent_newline(s)
}

/// Checks a measurement name for line feeds. A measurement name is also
/// held to the prefix rule of keys where `Measurement::new` makes one.
pub fn check_measurement(s: &str) -> (r: Result<(), Error>)
    ensures
        r == newline_check(s@),
{
    prevent_newline(s)
}

} // verus!
