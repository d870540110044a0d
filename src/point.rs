//! Points: one record of a series, and the builder that assembles it.
use vstd::prelude::*;

use crate::error::{fails_as, Error};
use crate::escape::{escaped, lemma_escape_newline_free, Reserved};
use crate::field::{field_text, string_field, string_field_check, Field, FieldValue, FieldValueView};
use crate::measurement::Measurement;
use crate::name_restriction::{has_newline, key_check, lemma_concat_newline_free};
use crate::precision::Precision;
use crate::tag::{tag_check, tag_text, Tag};
use crate::text::{int_text, lemma_int_text_newline_free, push_char, push_signed, push_str};
use crate::timestamp::Timestamp;

verus! {

/// What a point holds, as plain values.
pub struct PointView {
    pub measurement: Seq<char>,
    pub tags: Seq<(Seq<char>, Seq<char>)>,
    pub fields: Seq<(Seq<char>, FieldValueView)>,
    pub timestamp: Timestamp,
}

/// `,key=value` for each tag, in order.
pub open spec fn tags_text(ts: Seq<(Seq<char>, Seq<char>)>) -> Seq<char>
    decreases ts.len(),
{
    if ts.len() == 0 {
        Seq::empty()
    } else {
        tags_text(ts.drop_last()) + seq![','] + tag_text(ts.last())
    }
}

/// The fields in order, separated by `, `.
pub open spec fn fields_text(fs: Seq<(Seq<char>, FieldValueView)>) -> Seq<char>
    decreases fs.len(),
{
    if fs.len() == 0 {
        Seq::empty()
    } else if fs.len() == 1 {
        field_text(fs[0])
    } else {
        fields_text(fs.drop_last()) + ", "@ + field_text(fs.last())
    }
}

/// A space and the count of units, or nothing for `Now`.
pub open spec fn timestamp_text(t: Timestamp) -> Seq<char> {
    match t.spec_value() {
        Some(v) => seq![' '] + int_text(v as int),
        None => Seq::empty(),
    }
}

/// The line of `p`, its timestamp written as `t`.
pub open spec fn line_text(p: PointView, t: Timestamp) -> Seq<char> {
    escaped(Reserved::CommaSpace, p.measurement) + tags_text(p.tags) + seq![' '] + fields_text(
        p.fields,
    ) + timestamp_text(t)
}

/// The line of `p` with its timestamp counted in units of `precision`, or
/// the error of that conversion.
#[verifier::opaque]
pub open spec fn point_text(p: PointView, precision: Precision) -> Result<Seq<char>, Error> {
    match p.timestamp.spec_lossy(precision) {
        Ok(t) => Ok(line_text(p, t)),
        Err(e) => Err(e),
    }
}

/// Text that forms one line: not empty, and without line feeds.
pub open spec fn is_single_line(s: Seq<char>) -> bool {
    s.len() > 0 && !has_newline(s)
}

/// `r` holds the text or the error of `t`.
pub open spec fn renders(r: Result<String, Error>, t: Result<Seq<char>, Error>) -> bool {
    match (r, t) {
        (Ok(s), Ok(u)) => s@ == u,
        (Err(e), Err(f)) => e == f,
        _ => false,
    }
}

/// A single data record: a measurement, tags, at least one field and a
/// timestamp. It cannot change once built.
#[derive(Debug, PartialEq, Eq)]
pub struct Point {
    measurement: Measurement,
    tag_set: Vec<Tag>,
    field_set: Vec<Field>,
    timestamp: Timestamp,
}

impl View for Point {
    type V = PointView;

    closed spec fn view(&self) -> PointView {
        PointView {
            measurement: self.measurement@,
            tags: self.tag_set@.map_values(|t: Tag| t@),
            fields: self.field_set@.map_values(|f: Field| f@),
            timestamp: self.timestamp,
        }
    }
}

impl Clone for Point {
    fn clone(&self) -> (r: Point)
        ensures
            r@ == self@,
    {
        proof {
            use_type_invariant(self);
        }
        let tag_set = self.tag_set.clone();
        let field_set = self.field_set.clone();
        proof {
            lemma_cloned_tags(self.tag_set@, tag_set@);
            lemma_cloned_fields(self.field_set@, field_set@);
        }
        Point {
            measurement: self.measurement.clone(),
            tag_set,
            field_set,
            timestamp: self.timestamp,
        }
    }
}

proof fn lemma_cloned_tags(a: Seq<Tag>, b: Seq<Tag>)
    requires
        a.len() == b.len(),
        forall|i: int| 0 <= i < a.len() ==> cloned::<Tag>(a[i], b[i]),
    ensures
        a.map_values(|t: Tag| t@) == b.map_values(|t: Tag| t@),
{
    assert forall|i: int| 0 <= i < a.len() implies a[i]@ == b[i]@ by {
        assert(cloned::<Tag>(a[i], b[i]));
    }
    assert(a.map_values(|t: Tag| t@) =~= b.map_values(|t: Tag| t@));
}

proof fn lemma_cloned_fields(a: Seq<Field>, b: Seq<Field>)
    requires
        a.len() == b.len(),
        forall|i: int| 0 <= i < a.len() ==> cloned::<Field>(a[i], b[i]),
    ensures
        a.map_values(|f: Field| f@) == b.map_values(|f: Field| f@),
{
    assert forall|i: int| 0 <= i < a.len() implies a[i]@ == b[i]@ by {
        assert(cloned::<Field>(a[i], b[i]));
    }
    assert(a.map_values(|f: Field| f@) =~= b.map_values(|f: Field| f@));
}

impl Point {
    #[verifier::type_invariant]
    spec fn inv(self) -> bool {
        self.field_set.len() >= 1
    }

    /// Starts a point of `measurement`.
    pub fn builder(measurement: &str) -> (r: Result<PointBuilder, Error>)
        ensures
            fails_as(r, key_check(measurement@)),
            r matches Ok(b) ==> b@ == empty_builder(measurement@),
    {
        PointBuilder::new(measurement)
    }

    pub fn precision(&self) -> (r: Option<Precision>)
        ensures
            r == self@.timestamp.spec_precision(),
    {
        self.timestamp.precision()
    }

    pub fn timestamp(&self) -> (r: Timestamp)
        ensures
            r == self@.timestamp,
    {
        self.timestamp
    }

    pub fn measurement(&self) -> (r: &Measurement)
        ensures
            r@ == self@.measurement,
    {
        &self.measurement
    }

    pub fn tags(&self) -> (r: &Vec<Tag>)
        ensures
            r@.map_values(|t: Tag| t@) == self@.tags,
    {
        &self.tag_set
    }

    /// The fields; there is at least one.
    pub fn fields(&self) -> (r: &Vec<Field>)
        ensures
            r@.map_values(|f: Field| f@) == self@.fields,
            self@.fields.len() >= 1,
    {
        proof {
            use_type_invariant(self);
        }
        &self.field_set
    }

    /// The line of this point, with the timestamp in nanoseconds.
    pub fn to_text(&self) -> (r: Result<String, Error>)
        ensures
            renders(r, point_text(self@, Precision::Nanos)),
            r matches Ok(s) ==> is_single_line(s@),
    {
        self.to_text_with_precision(Precision::Nanos)
    }

    /// The line of this point, with the timestamp converted to `precision`;
    /// a coarser unit drops the finer part.
    pub fn to_text_with_precision(&self, precision: Precision) -> (r: Result<String, Error>)
        ensures
            renders(r, point_text(self@, precision)),
            r matches Ok(s) ==> is_single_line(s@),
    {
        let ts = match self.timestamp.timestamp_precision_lossy(precision) {
            Ok(t) => t,
            Err(e) => {
                reveal(point_text);
                return Err(e);
            },
        };
        let ghost pv = self@;
        let name = self.measurement.as_str();
        let mut line = crate::escape::measurement(name);
        proof {
            lemma_escape_newline_free(Reserved::CommaSpace, name@);
        }
        let ghost head = line@;
        let mut i: usize = 0;
        while i < self.tag_set.len()
            invariant
                pv == self@,
                i <= self.tag_set.len(),
                line@ == head + tags_text(pv.tags.take(i as int)),
                !has_newline(line@),
            decreases self.tag_set.len() - i,
        {
            let text = self.tag_set[i].to_text();
            let ghost before = line@;
            push_char(&mut line, ',');
            push_str(&mut line, text.as_str());
            proof {
                lemma_concat_newline_free(before, seq![',']);
                lemma_concat_newline_free(before + seq![','], text@);
                assert(line@ =~= before + seq![','] + text@);
                let t = pv.tags.take(i + 1);
                assert(t.drop_last() =~= pv.tags.take(i as int));
                assert(t.last() == self.tag_set@[i as int]@);
                assert(line@ =~= head + tags_text(t));
            }
            i = i + 1;
        }
        assert(pv.tags.take(i as int) =~= pv.tags);
        let ghost named = line@;
        push_char(&mut line, ' ');
        proof {
            lemma_concat_newline_free(named, seq![' ']);
            assert(line@ =~= named + seq![' ']);
            reveal_strlit(", ");
        }
        let ghost mid = line@;
        let mut j: usize = 0;
        while j < self.field_set.len()
            invariant
                pv == self@,
                j <= self.field_set.len(),
                line@ == mid + fields_text(pv.fields.take(j as int)),
                !has_newline(line@),
                line@.len() > 0,
                !has_newline(", "@),
            decreases self.field_set.len() - j,
        {
            let text = self.field_set[j].to_text();
            let ghost before = line@;
            if j > 0 {
                push_str(&mut line, ", ");
            }
            let ghost sep = line@;
            push_str(&mut line, text.as_str());
            proof {
                if j > 0 {
                    lemma_concat_newline_free(before, ", "@);
                }
                lemma_concat_newline_free(sep, text@);
                let f = pv.fields.take(j + 1);
                assert(f.drop_last() =~= pv.fields.take(j as int));
                assert(f.last() == self.field_set@[j as int]@);
                if j == 0 {
                    assert(f[0] == f.last());
                }
                assert(line@ =~= mid + fields_text(f));
            }
            j = j + 1;
        }
        assert(pv.fields.take(j as int) =~= pv.fields);
        if let Some(v) = ts.value() {
            let ghost before = line@;
            push_char(&mut line, ' ');
            push_signed(&mut line, v);
            proof {
                lemma_int_text_newline_free(v as int);
                lemma_concat_newline_free(seq![' '], int_text(v as int));
                lemma_concat_newline_free(before, seq![' '] + int_text(v as int));
                assert(line@ =~= before + (seq![' '] + int_text(v as int)));
            }
        }
        assert(line@ =~= line_text(pv, ts));
        reveal(point_text);
        Ok(line)
    }
}

/// What a builder holds: the point so far and the errors of rejected input.
pub struct BuilderView {
    pub point: PointView,
    pub errors: Seq<Error>,
}

/// A builder of `measurement` with nothing added.
pub open spec fn empty_builder(measurement: Seq<char>) -> BuilderView {
    BuilderView {
        point: PointView {
            measurement,
            tags: Seq::empty(),
            fields: Seq::empty(),
            timestamp: Timestamp::Now,
        },
        errors: Seq::empty(),
    }
}

pub open spec fn with_tags(b: BuilderView, ts: Seq<(Seq<char>, Seq<char>)>) -> BuilderView {
    BuilderView { point: PointView { tags: b.point.tags + ts, ..b.point }, ..b }
}

pub open spec fn with_fields(b: BuilderView, fs: Seq<(Seq<char>, FieldValueView)>) -> BuilderView {
    BuilderView { point: PointView { fields: b.point.fields + fs, ..b.point }, ..b }
}

pub open spec fn with_error(b: BuilderView, e: Error) -> BuilderView {
    BuilderView { errors: b.errors.push(e), ..b }
}

/// A raw tag added to `b`: kept where its key and value pass their checks,
/// else its error is queued.
pub open spec fn add_raw_tag(b: BuilderView, t: (Seq<char>, Seq<char>)) -> BuilderView {
    match tag_check(t.0, t.1) {
        Ok(_) => with_tags(b, seq![t]),
        Err(e) => with_error(b, e),
    }
}

pub open spec fn with_errors(b: BuilderView, es: Seq<Error>) -> BuilderView {
    BuilderView { errors: b.errors + es, ..b }
}

/// The error of a check, as a sequence of none or one.
pub open spec fn error_of(c: Result<(), Error>) -> Seq<Error> {
    match c {
        Ok(_) => Seq::empty(),
        Err(e) => seq![e],
    }
}

/// The errors of the raw tags that fail their checks, in order.
pub open spec fn tag_errors(ts: Seq<(Seq<char>, Seq<char>)>) -> Seq<Error>
    decreases ts.len(),
{
    if ts.len() == 0 {
        Seq::empty()
    } else {
        tag_errors(ts.drop_last()) + error_of(tag_check(ts.last().0, ts.last().1))
    }
}

/// Raw tags added to `b` as one bulk: all of them where each passes its
/// checks; else none, and the error of each one that fails is queued, in
/// order.
pub open spec fn add_raw_tags(b: BuilderView, ts: Seq<(Seq<char>, Seq<char>)>) -> BuilderView {
    let es = tag_errors(ts);
    if es.len() == 0 {
        with_tags(b, ts)
    } else {
        with_errors(b, es)
    }
}

/// A raw string field added to `b`: kept where its key and value pass
/// their checks, else its error is queued.
pub open spec fn add_raw_field(b: BuilderView, f: (Seq<char>, Seq<char>)) -> BuilderView {
    match string_field_check(f.0, f.1) {
        Ok(_) => with_fields(b, seq![(f.0, FieldValueView::String(f.1))]),
        Err(e) => with_error(b, e),
    }
}

/// The errors of the raw string fields that fail their checks, in order.
pub open spec fn string_field_errors(fs: Seq<(Seq<char>, Seq<char>)>) -> Seq<Error>
    decreases fs.len(),
{
    if fs.len() == 0 {
        Seq::empty()
    } else {
        string_field_errors(fs.drop_last()) + error_of(
            string_field_check(fs.last().0, fs.last().1),
        )
    }
}

/// Raw string fields as the fields they make.
pub open spec fn string_fields(fs: Seq<(Seq<char>, Seq<char>)>) -> Seq<(Seq<char>, FieldValueView)> {
    fs.map_values(|f: (Seq<char>, Seq<char>)| (f.0, FieldValueView::String(f.1)))
}

/// Raw string fields added to `b` as one bulk: all of them where each
/// passes its checks; else none, and the error of each one that fails is
/// queued, in order.
pub open spec fn add_raw_fields(b: BuilderView, fs: Seq<(Seq<char>, Seq<char>)>) -> BuilderView {
    let es = string_field_errors(fs);
    if es.len() == 0 {
        with_fields(b, string_fields(fs))
    } else {
        with_errors(b, es)
    }
}

/// A raw key with a typed value added to `b`: kept where the key passes its
/// checks, else its error is queued.
pub open spec fn add_keyed_field(b: BuilderView, f: (Seq<char>, FieldValueView)) -> BuilderView {
    match key_check(f.0) {
        Ok(_) => with_fields(b, seq![f]),
        Err(e) => with_error(b, e),
    }
}

/// The errors of the raw keys that fail their checks, in order.
pub open spec fn keyed_field_errors(fs: Seq<(Seq<char>, FieldValueView)>) -> Seq<Error>
    decreases fs.len(),
{
    if fs.len() == 0 {
        Seq::empty()
    } else {
        keyed_field_errors(fs.drop_last()) + error_of(key_check(fs.last().0))
    }
}

/// Raw keys with typed values added to `b` as one bulk: all of them where
/// each key passes its checks; else none, and the error of each key that
/// fails is queued, in order.
pub open spec fn add_keyed_fields(b: BuilderView, fs: Seq<(Seq<char>, FieldValueView)>) -> BuilderView {
    let es = keyed_field_errors(fs);
    if es.len() == 0 {
        with_fields(b, fs)
    } else {
        with_errors(b, es)
    }
}

pub open spec fn keyed_pairs(v: Seq<(&str, FieldValue)>) -> Seq<(Seq<char>, FieldValueView)> {
    v.map_values(|p: (&str, FieldValue)| (p.0@, p.1@))
}

pub open spec fn raw_pairs(v: Seq<(&str, &str)>) -> Seq<(Seq<char>, Seq<char>)> {
    v.map_values(|p: (&str, &str)| (p.0@, p.1@))
}

/// What finalizing `b` gives: no fields is an error of its own, then the
/// first queued error, if any, is returned and the rest dropped.
pub open spec fn build_outcome(b: BuilderView) -> Result<PointView, Error> {
    if b.point.fields.len() == 0 {
        Err(Error::NoFields)
    } else if b.errors.len() > 0 {
        Err(b.errors[0])
    } else {
        Ok(b.point)
    }
}

/// Assembles a point. Typed tags and fields are always accepted; raw ones
/// are checked, and what fails is queued as an error that `build` returns.
#[derive(Debug)]
pub struct PointBuilder {
    measurement: Measurement,
    tag_set: Vec<Tag>,
    field_set: Vec<Field>,
    timestamp: Timestamp,
    errors: Vec<Error>,
}

impl View for PointBuilder {
    type V = BuilderView;

    closed spec fn view(&self) -> BuilderView {
        BuilderView {
            point: PointView {
                measurement: self.measurement@,
                tags: self.tag_set@.map_values(|t: Tag| t@),
                fields: self.field_set@.map_values(|f: Field| f@),
                timestamp: self.timestamp,
            },
            errors: self.errors@,
        }
    }
}

impl Clone for PointBuilder {
    fn clone(&self) -> (r: PointBuilder)
        ensures
            r@ == self@,
    {
        let tag_set = self.tag_set.clone();
        let field_set = self.field_set.clone();
        let errors = self.errors.clone();
        proof {
            lemma_cloned_tags(self.tag_set@, tag_set@);
            lemma_cloned_fields(self.field_set@, field_set@);
            assert(errors@ =~= self.errors@);
        }
        PointBuilder {
            measurement: self.measurement.clone(),
            tag_set,
            field_set,
            timestamp: self.timestamp,
            errors,
        }
    }
}

impl PointBuilder {
    /// Checks the measurement name and starts an empty builder.
    pub fn new(measurement: &str) -> (r: Result<PointBuilder, Error>)
        ensures
            fails_as(r, key_check(measurement@)),
            r matches Ok(b) ==> b@ == empty_builder(measurement@),
    {
        let measurement = Measurement::new(measurement)?;
        let r = PointBuilder {
            measurement,
            tag_set: Vec::new(),
            field_set: Vec::new(),
            timestamp: Timestamp::Now,
            errors: Vec::new(),
        };
        assert(r@.point.tags =~= Seq::empty());
        assert(r@.point.fields =~= Seq::empty());
        Ok(r)
    }

    pub fn add_tag(self, tag: Tag) -> (r: PointBuilder)
        ensures
            r@ == with_tags(self@, seq![tag@]),
    {
        let mut b = self;
        let ghost old_tags = b.tag_set@;
        b.tag_set.push(tag);
        assert(b.tag_set@.map_values(|t: Tag| t@) =~= old_tags.map_values(|t: Tag| t@) + seq![tag@]);
        b
    }

    pub fn add_tags(self, tags: Vec<Tag>) -> (r: PointBuilder)
        ensures
            r@ == with_tags(self@, tags@.map_values(|t: Tag| t@)),
    {
        let mut b = self;
        let ghost start = b@;
        let mut tags = tags;
        let ghost all = tags@;
        b.tag_set.append(&mut tags);
        assert(b@.point.tags =~= start.point.tags + all.map_values(|t: Tag| t@));
        assert(b@ == with_tags(start, all.map_values(|t: Tag| t@)));
        b
    }

    /// Adds a tag from a raw key and value, or queues the error of the first
    /// check that fails.
    pub fn try_add_tag(self, tag: (&str, &str)) -> (r: PointBuilder)
        ensures
            r@ == add_raw_tag(self@, (tag.0@, tag.1@)),
    {
        match Tag::new(tag.0, tag.1) {
            Ok(t) => self.add_tag(t),
            Err(e) => self.push_error(e),
        }
    }

    /// Adds raw tags as one bulk: all of them where each passes its checks;
    /// else none, and the error of each one that fails is queued.
    pub fn try_add_tags(self, tags: Vec<(&str, &str)>) -> (r: PointBuilder)
        ensures
            r@ == add_raw_tags(self@, raw_pairs(tags@)),
    {
        let mut converted: Vec<Tag> = Vec::new();
        let mut errors: Vec<Error> = Vec::new();
        let mut i: usize = 0;
        while i < tags.len()
            invariant
                i <= tags.len(),
                errors@ == tag_errors(raw_pairs(tags@.take(i as int))),
                errors@.len() == 0 ==> converted@.map_values(|t: Tag| t@) == raw_pairs(
                    tags@.take(i as int),
                ),
            decreases tags.len() - i,
        {
            let pair = tags[i];
            let ghost before = converted@;
            match Tag::new(pair.0, pair.1) {
                Ok(t) => converted.push(t),
                Err(e) => errors.push(e),
            }
            proof {
                let t = raw_pairs(tags@.take(i + 1));
                assert(t.drop_last() =~= raw_pairs(tags@.take(i as int)));
                assert(t.last() == (pair.0@, pair.1@));
                if errors@.len() == 0 {
                    assert(converted@.map_values(|t: Tag| t@) =~= before.map_values(|t: Tag| t@).push(
                        (pair.0@, pair.1@),
                    ));
                }
            }
            i = i + 1;
        }
        assert(tags@.take(i as int) =~= tags@);
        if errors.len() == 0 {
            self.add_tags(converted)
        } else {
            self.push_errors(errors)
        }
    }

    pub fn add_field(self, field: Field) -> (r: PointBuilder)
        ensures
            r@ == with_fields(self@, seq![field@]),
    {
        let mut b = self;
        let ghost old_fields = b.field_set@;
        b.field_set.push(field);
        assert(b.field_set@.map_values(|f: Field| f@) =~= old_fields.map_values(|f: Field| f@)
            + seq![field@]);
        b
    }

    pub fn add_fields(self, fields: Vec<Field>) -> (r: PointBuilder)
        ensures
            r@ == with_fields(self@, fields@.map_values(|f: Field| f@)),
    {
        let mut b = self;
        let ghost start = b@;
        let mut fields = fields;
        let ghost all = fields@;
        b.field_set.append(&mut fields);
        assert(b@.point.fields =~= start.point.fields + all.map_values(|f: Field| f@));
        assert(b@ == with_fields(start, all.map_values(|f: Field| f@)));
        b
    }

    /// Adds a string field from a raw key and value, or queues the error of
    /// the first check that fails.
    pub fn try_add_field(self, field: (&str, &str)) -> (r: PointBuilder)
        ensures
            r@ == add_raw_field(self@, (field.0@, field.1@)),
    {
        match string_field(field.0, field.1) {
            Ok(f) => self.add_field(f),
            Err(e) => self.push_error(e),
        }
    }

    /// Adds raw string fields as one bulk: all of them where each passes its
    /// checks; else none, and the error of each one that fails is queued.
    pub fn try_add_fields(self, fields: Vec<(&str, &str)>) -> (r: PointBuilder)
        ensures
            r@ == add_raw_fields(self@, raw_pairs(fields@)),
    {
        let mut converted: Vec<Field> = Vec::new();
        let mut errors: Vec<Error> = Vec::new();
        let mut i: usize = 0;
        while i < fields.len()
            invariant
                i <= fields.len(),
                errors@ == string_field_errors(raw_pairs(fields@.take(i as int))),
                errors@.len() == 0 ==> converted@.map_values(|f: Field| f@) == string_fields(
                    raw_pairs(fields@.take(i as int)),
                ),
            decreases fields.len() - i,
        {
            let pair = fields[i];
            let ghost before = converted@;
            match string_field(pair.0, pair.1) {
                Ok(f) => converted.push(f),
                Err(e) => errors.push(e),
            }
            proof {
                let t = raw_pairs(fields@.take(i + 1));
                assert(t.drop_last() =~= raw_pairs(fields@.take(i as int)));
                assert(t.last() == (pair.0@, pair.1@));
                if errors@.len() == 0 {
                    assert(string_fields(t) =~= string_fields(t.drop_last()).push(
                        (pair.0@, FieldValueView::String(pair.1@)),
                    ));
                    assert(converted@.map_values(|f: Field| f@) =~= before.map_values(
                        |f: Field| f@,
                    ).push((pair.0@, FieldValueView::String(pair.1@))));
                }
            }
            i = i + 1;
        }
        assert(fields@.take(i as int) =~= fields@);
        if errors.len() == 0 {
            self.add_fields(converted)
        } else {
            self.push_errors(errors)
        }
    }

    /// Adds a field from a raw key and a typed value, or queues the error of
    /// the key's check.
    pub fn try_add_field_value(self, field: (&str, FieldValue)) -> (r: PointBuilder)
        ensures
            r@ == add_keyed_field(self@, (field.0@, field.1@)),
    {
        let (key, value) = field;
        match Field::new(key, value) {
            Ok(f) => self.add_field(f),
            Err(e) => self.push_error(e),
        }
    }

    /// Adds raw keys with typed values as one bulk: all of them where each
    /// key passes its checks; else none, and the error of each key that fails
    /// is queued.
    pub fn try_add_field_values(self, fields: Vec<(&str, FieldValue)>) -> (r: PointBuilder)
        ensures
            r@ == add_keyed_fields(self@, keyed_pairs(fields@)),
    {
        let mut converted: Vec<Field> = Vec::new();
        let mut errors: Vec<Error> = Vec::new();
        let mut i: usize = 0;
        while i < fields.len()
            invariant
                i <= fields.len(),
                errors@ == keyed_field_errors(keyed_pairs(fields@.take(i as int))),
                errors@.len() == 0 ==> converted@.map_values(|f: Field| f@) == keyed_pairs(
                    fields@.take(i as int),
                ),
            decreases fields.len() - i,
        {
            let key = fields[i].0;
            let value = fields[i].1.clone();
            let ghost before = converted@;
            match Field::new(key, value) {
                Ok(f) => converted.push(f),
                Err(e) => errors.push(e),
            }
            proof {
                let t = keyed_pairs(fields@.take(i + 1));
                assert(t.drop_last() =~= keyed_pairs(fields@.take(i as int)));
                assert(t.last() == (key@, fields@[i as int].1@));
                if errors@.len() == 0 {
                    assert(converted@.map_values(|f: Field| f@) =~= before.map_values(
                        |f: Field| f@,
                    ).push((key@, fields@[i as int].1@)));
                }
            }
            i = i + 1;
        }
        assert(fields@.take(i as int) =~= fields@);
        if errors.len() == 0 {
            self.add_fields(converted)
        } else {
            self.push_errors(errors)
        }
    }

    pub fn timestamp(self, timestamp: Timestamp) -> (r: PointBuilder)
        ensures
            r@ == (BuilderView { point: PointView { timestamp, ..self@.point }, ..self@ }),
    {
        let mut b = self;
        b.timestamp = timestamp;
        b
    }

    /// The errors queued so far, oldest first.
    pub fn errors(&self) -> (r: &Vec<Error>)
        ensures
            r@ == self@.errors,
    {
        &self.errors
    }

    fn push_error(self, e: Error) -> (r: PointBuilder)
        ensures
            r@ == with_error(self@, e),
    {
        let mut b = self;
        b.errors.push(e);
        b
    }

    fn push_errors(self, errors: Vec<Error>) -> (r: PointBuilder)
        ensures
            r@ == with_errors(self@, errors@),
    {
        let mut b = self;
        let mut errors = errors;
        let ghost added = errors@;
        b.errors.append(&mut errors);
        assert(b@ == with_errors(self@, added));
        b
    }

    /// Finalizes the point: fails without fields, then with the first queued
    /// error.
    pub fn build(self) -> (r: Result<Point, Error>)
        ensures
            match (r, build_outcome(self@)) {
                (Ok(p), Ok(v)) => p@ == v,
                (Err(e), Err(f)) => e == f,
                _ => false,
            },
    {
        if self.field_set.len() == 0 {
            return Err(Error::NoFields);
        }
        if self.errors.len() > 0 {
            return Err(self.errors[0]);
        }
        Ok(
            Point {
                measurement: self.measurement,
                tag_set: self.tag_set,
                field_set: self.field_set,
                timestamp: self.timestamp,
            },
        )
    }
}

} // verus!
