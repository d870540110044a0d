//! Escaping of the special characters of each kind of token.
use vstd::prelude::*;

use crate::name_restriction::{has_newline, lemma_concat_newline_free};
use crate::text::{push_char, push_str};

verus! {

/// The set of characters that a kind of token escapes.
#[derive(Debug, Clone, Copy, PartialEq, Eq, Structural)]
pub enum Reserved {
    /// `,` and ` `, in measurement names.
    CommaSpace,
    /// `=`, `,` and ` `, in tag keys, tag values and field keys.
    CommaEqualSpace,
    /// `"` and `\`, in string field values.
    QuoteBackslash,
}

pub open spec fn is_reserved(set: Reserved, c: char) -> bool {
    match set {
        Reserved::CommaSpace => c == ',' || c == ' ',
        Reserved::CommaEqualSpace => c == '=' || c == ',' || c == ' ',
        Reserved::QuoteBackslash => c == '"' || c == '\\',
    }
}

/// What one character becomes: itself, behind a backslash where it is reserved.
pub open spec fn escaped_char(set: Reserved, c: char) -> Seq<char> {
    if is_reserved(set, c) {
        seq!['\\', c]
    } else {
        seq![c]
    }
}

/// `s` with a backslash before each reserved character.
pub open spec fn escaped(set: Reserved, s: Seq<char>) -> Seq<char>
    decreases s.len(),
{
    if s.len() == 0 {
        Seq::empty()
    } else {
        escaped(set, s.drop_last()) + escaped_char(set, s.last())
    }
}

/// How many characters of `s` are reserved.
pub open spec fn count_reserved(set: Reserved, s: Seq<char>) -> nat
    decreases s.len(),
{
    if s.len() == 0 {
        0
    } else {
        count_reserved(set, s.drop_last()) + if is_reserved(set, s.last()) {
            1nat
        } else {
            0nat
        }
    }
}

pub open spec fn has_reserved(set: Reserved, s: Seq<char>) -> bool {
    exists|i: int| 0 <= i < s.len() && is_reserved(set, #[trigger] s[i])
}

fn escape_comma_equal_space(c: char) -> (r: bool)
    ensures
        r == is_reserved(Reserved::CommaEqualSpace, c),
{
    match c {
        '=' | ',' | ' ' => true,
        _ => false,
    }
}

fn is_escape_char(set: Reserved, c: char) -> (r: bool)
    ensures
        r == is_reserved(set, c),
{
    match set {
        Reserved::CommaSpace => c == ',' || c == ' ',
        Reserved::CommaEqualSpace => escape_comma_equal_space(c),
        Reserved::QuoteBackslash => c == '"' || c == '\\',
    }
}

/// Position of the first reserved character of `s`, or its length where
/// there is none.
fn first_reserved(set: Reserved, s: &str) -> (r: usize)
    ensures
        r <= s@.len(),
        forall|i: int| 0 <= i < r ==> !is_reserved(set, #[trigger] s@[i]),
        r < s@.len() ==> is_reserved(set, s@[r as int]),
{
    let n = s.unicode_len();
    let mut idx: usize = 0;
    for c in it: s.chars()
        invariant
            it.seq() == s@,
            n == s@.len(),
            idx == it.index(),
            forall|i: int| 0 <= i < idx ==> !is_reserved(set, #[trigger] s@[i]),
    {
        if is_escape_char(set, c) {
            return idx;
        }
        idx = idx + 1;
    }
    idx
}

proof fn lemma_escaped_append(set: Reserved, a: Seq<char>, c: char)
    ensures
        escaped(set, a.push(c)) == escaped(set, a) + escaped_char(set, c),
        count_reserved(set, a.push(c)) == count_reserved(set, a) + if is_reserved(set, c) {
            1nat
        } else {
            0nat
        },
{
    assert(a.push(c).drop_last() =~= a);
}

/// Escaping a string without reserved characters changes nothing.
pub proof fn lemma_escape_unreserved_unchanged(set: Reserved, s: Seq<char>)
    requires
        !has_reserved(set, s),
    ensures
        escaped(set, s) == s,
    decreases s.len(),
{
    if s.len() > 0 {
        let p = s.drop_last();
        assert forall|i: int| 0 <= i < p.len() implies !is_reserved(set, #[trigger] p[i]) by {
            assert(p[i] == s[i]);
        }
        lemma_escape_unreserved_unchanged(set, p);
        assert(!is_reserved(set, s[s.len() - 1]));
        assert(p.push(s.last()) =~= s);
    }
}

/// Escaping adds no line feed: a line feed is never reserved.
pub proof fn lemma_escape_newline_free(set: Reserved, s: Seq<char>)
    requires
        !has_newline(s),
    ensures
        !has_newline(escaped(set, s)),
    decreases s.len(),
{
    if s.len() > 0 {
        let p = s.drop_last();
        assert forall|i: int| 0 <= i < p.len() implies #[trigger] p[i] != '\n' by {
            assert(p[i] == s[i]);
        }
        lemma_escape_newline_free(set, p);
        let c = s.last();
        assert(c == s[s.len() - 1]);
        let piece = escaped_char(set, c);
        assert forall|i: int| 0 <= i < piece.len() implies #[trigger] piece[i] != '\n' by {}
        lemma_concat_newline_free(escaped(set, p), piece);
    }
}

proof fn lemma_count_prefix(set: Reserved, s: Seq<char>, k: int)
    requires
        0 <= k <= s.len(),
    ensures
        count_reserved(set, s.take(k)) <= count_reserved(set, s),
    decreases s.len(),
{
    if k < s.len() {
        assert(s.drop_last().take(k) =~= s.take(k));
        lemma_count_prefix(set, s.drop_last(), k);
    } else {
        assert(s.take(k) =~= s);
    }
}

/// Where character `i` of `s` lands in the escaped text: after itself and
/// every backslash added before it.
pub open spec fn escaped_position(set: Reserved, s: Seq<char>, i: int) -> int {
    i + count_reserved(set, s.take(i))
}

/// Escaping puts exactly one backslash before each reserved character and
/// keeps every other character, in order: the escaped text is as long as `s`
/// plus its reserved characters, and character `i` of `s` stands at
/// `escaped_position`, behind a backslash where it is reserved.
pub proof fn lemma_escape_positions(set: Reserved, s: Seq<char>)
    ensures
        escaped(set, s).len() == s.len() + count_reserved(set, s),
        forall|i: int|
            0 <= i < s.len() ==> {
                let j = #[trigger] escaped_position(set, s, i);
                if is_reserved(set, s[i]) {
                    escaped(set, s)[j] == '\\' && escaped(set, s)[j + 1] == s[i]
                } else {
                    escaped(set, s)[j] == s[i]
                }
            },
    decreases s.len(),
{
    if s.len() > 0 {
        let p = s.drop_last();
        let n = s.len() - 1;
        lemma_escape_positions(set, p);
        assert(p.push(s.last()) =~= s);
        lemma_escaped_append(set, p, s.last());
        let e = escaped(set, s);
        let ep = escaped(set, p);
        assert forall|i: int| 0 <= i < s.len() implies {
            let j = #[trigger] escaped_position(set, s, i);
            if is_reserved(set, s[i]) {
                e[j] == '\\' && e[j + 1] == s[i]
            } else {
                e[j] == s[i]
            }
        } by {
            if i < n {
                assert(s.take(i) =~= p.take(i));
                assert(p.take(i + 1) =~= p.take(i).push(p[i]));
                lemma_escaped_append(set, p.take(i), p[i]);
                lemma_count_prefix(set, p, i + 1);
                assert(escaped_position(set, p, i) == escaped_position(set, s, i));
                assert(p[i] == s[i]);
            } else {
                assert(s.take(i) =~= p);
            }
        }
    }
}

/// Returns `s` with a backslash before each character of `set`; the text
/// up to the first such character is copied as it is.
pub fn escape(set: Reserved, s: &str) -> (r: String)
    ensures
        r@ == escaped(set, s@),
        !has_reserved(set, s@) ==> r@ == s@,
{
    let n = s.unicode_len();
    let begin = first_reserved(set, s);
    if begin == n {
        proof {
            lemma_escape_unreserved_unchanged(set, s@);
        }
        return s.to_string();
    }
    let mut out = String::new();
    push_str(&mut out, s.substring_char(0, begin));
    proof {
        let pre = s@.take(begin as int);
        assert(!has_reserved(set, pre));
        lemma_escape_unreserved_unchanged(set, pre);
        assert(s@.subrange(0, begin as int) =~= pre);
    }
    let rest = s.substring_char(begin, n);
    for c in it: rest.chars()
        invariant
            it.seq() == rest@,
            rest@ == s@.subrange(begin as int, n as int),
            begin <= n == s@.len(),
            out@ == escaped(set, s@.take(begin + it.index())),
    {
        let ghost before = s@.take(begin + it.index());
        if is_escape_char(set, c) {
            push_char(&mut out, '\\');
        }
        push_char(&mut out, c);
        proof {
            assert(s@.take(begin + it.index() + 1) =~= before.push(c));
            lemma_escaped_append(set, before, c);
        }
    }
    assert(s@.take(n as int) =~= s@);
    out
}

/// Escapes a tag key.
pub fn tag_key(s: &str) -> (r: String)
    ensures
        r@ == escaped(Reserved::CommaEqualSpace, s@),
{
    escape(Reserved::CommaEqualSpace, s)
}

/// Escapes a field key.
pub fn field_key(s: &str) -> (r: String)
    ensures
        r@ == escaped(Reserved::CommaEqualSpace, s@),
{
    escape(Reserved::CommaEqualSpace, s)
}

/// Escapes a tag value.
pub fn tag_value(s: &str) -> (r: String)
    ensures
        r@ == escaped(Reserved::CommaEqualSpace, s@),
{
    escape(Reserved::CommaEqualSpace, s)
}

/// Escapes the content of a string field value.
pub fn field_value(s: &str) -> (r: String)
    ensures
        r@ == escaped(Reserved::QuoteBackslash, s@),
{
    escape(Reserved::QuoteBackslash, s)
}

/// Escapes a measurement name.
pub fn measurement(s: &str) -> (r: String)
    ensures
        r@ == escaped(Reserved::CommaSpace, s@),
{
    escape(Reserved::CommaSpace, s)
}

} // verus!
