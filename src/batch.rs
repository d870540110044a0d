//! Batches: points in order, rendered one line each.
use vstd::prelude::*;

use crate::error::Error;
use crate::name_restriction::has_newline;
use crate::point::{point_text, renders, Point, PointView};
use crate::precision::{finer, Precision};
use crate::text::{push_char, push_str};

verus! {

/// The finest unit among the timestamps of `ps`; `Now` counts for nothing.
pub open spec fn highest(ps: Seq<PointView>) -> Option<Precision>
    decreases ps.len(),
{
    if ps.len() == 0 {
        None
    } else {
        finer(highest(ps.drop_last()), ps.last().timestamp.spec_precision())
    }
}

/// The lines of `ps` joined by line feeds, each timestamp counted in units
/// of `precision`; the error of the first point that cannot be rendered.
pub open spec fn batch_text(ps: Seq<PointView>, precision: Precision) -> Result<Seq<char>, Error>
    decreases ps.len(),
{
    if ps.len() == 0 {
        Ok(Seq::empty())
    } else if ps.len() == 1 {
        point_text(ps[0], precision)
    } else {
        match batch_text(ps.drop_last(), precision) {
            Err(e) => Err(e),
            Ok(a) => match point_text(ps.last(), precision) {
                Err(e) => Err(e),
                Ok(b) => Ok(a + seq!['\n'] + b),
            },
        }
    }
}

/// How many line feeds `s` holds.
pub open spec fn count_newlines(s: Seq<char>) -> nat
    decreases s.len(),
{
    if s.len() == 0 {
        0
    } else {
        count_newlines(s.drop_last()) + if s.last() == '\n' {
            1nat
        } else {
            0nat
        }
    }
}

/// How many lines `s` holds: none in empty text, else one more than its
/// line feeds.
pub open spec fn line_count(s: Seq<char>) -> nat {
    if s.len() == 0 {
        0
    } else {
        count_newlines(s) + 1
    }
}

proof fn lemma_count_newlines_concat(a: Seq<char>, b: Seq<char>)
    ensures
        count_newlines(a + b) == count_newlines(a) + count_newlines(b),
    decreases b.len(),
{
    if b.len() > 0 {
        assert((a + b).drop_last() =~= a + b.drop_last());
        lemma_count_newlines_concat(a, b.drop_last());
    } else {
        assert(a + b =~= a);
    }
}

proof fn lemma_count_newlines_free(s: Seq<char>)
    requires
        !has_newline(s),
    ensures
        count_newlines(s) == 0,
    decreases s.len(),
{
    if s.len() > 0 {
        let p = s.drop_last();
        assert forall|i: int| 0 <= i < p.len() implies #[trigger] p[i] != '\n' by {
            assert(p[i] == s[i]);
        }
        lemma_count_newlines_free(p);
        assert(s.last() == s[s.len() - 1]);
    }
}

pub open spec fn views(v: Seq<Point>) -> Seq<PointView> {
    v.map_values(|p: Point| p@)
}

/// Once the finest unit is reached, more points cannot change it.
proof fn lemma_highest_stays_nanos(ps: Seq<PointView>, k: int)
    requires
        0 <= k <= ps.len(),
        highest(ps.take(k)) == Some(Precision::Nanos),
    ensures
        highest(ps) == Some(Precision::Nanos),
    decreases ps.len() - k,
{
    if k < ps.len() {
        assert(ps.take(k + 1).drop_last() =~= ps.take(k));
        lemma_highest_stays_nanos(ps, k + 1);
    } else {
        assert(ps.take(k) =~= ps);
    }
}

fn highest_precision(v: &Vec<Point>) -> (r: Option<Precision>)
    ensures
        r == highest(views(v@)),
{
    let ghost ps = views(v@);
    let mut acc: Option<Precision> = None;
    let mut i: usize = 0;
    while i < v.len()
        invariant
            ps == views(v@),
            i <= v.len(),
            acc == highest(ps.take(i as int)),
        decreases v.len() - i,
    {
        let p = v[i].precision();
        let next = match (acc, p) {
            (None, _) => p,
            (_, None) => acc,
            (Some(a), Some(b)) => if a.rank() >= b.rank() {
                acc
            } else {
                p
            },
        };
        proof {
            assert(ps.take(i + 1).drop_last() =~= ps.take(i as int));
        }
        acc = next;
        i = i + 1;
        if let Some(Precision::Nanos) = acc {
            proof {
                lemma_highest_stays_nanos(ps, i as int);
            }
            return acc;
        }
    }
    assert(ps.take(i as int) =~= ps);
    acc
}

/// Points in the order they were added.
#[derive(Debug)]
pub struct Batch {
    inner: Vec<Point>,
}

impl Clone for Batch {
    fn clone(&self) -> (r: Batch)
        ensures
            r@ == self@,
    {
        let inner = self.inner.clone();
        proof {
            assert forall|i: int| 0 <= i < inner@.len() implies inner@[i]@ == self.inner@[i]@ by {
                assert(cloned::<Point>(self.inner@[i], inner@[i]));
            }
            assert(views(inner@) =~= views(self.inner@));
        }
        Batch { inner }
    }
}

impl View for Batch {
    type V = Seq<PointView>;

    closed spec fn view(&self) -> Seq<PointView> {
        views(self.inner@)
    }
}

impl Batch {
    pub fn with_capacity(capacity: usize) -> (r: Batch)
        ensures
            r@ == Seq::<PointView>::empty(),
    {
        let r = Batch { inner: Vec::with_capacity(capacity) };
        assert(r@ =~= Seq::<PointView>::empty());
        r
    }

    /// The lines of the points, joined by line feeds, with timestamps in
    /// nanoseconds: one line per point.
    pub fn to_line_protocol(&self) -> (r: Result<String, Error>)
        ensures
            renders(r, batch_text(self@, Precision::Nanos)),
            r matches Ok(s) ==> line_count(s@) == self@.len(),
    {
        self.to_line_protocol_lossy(None)
    }

    /// The lines of the points, joined by line feeds, with every timestamp
    /// converted to `precision` (nanoseconds where `None`). A unit coarser
    /// than a point's own silently drops the finer part of its timestamp.
    /// The text holds one line per point.
    pub fn to_line_protocol_lossy(&self, precision: Option<Precision>) -> (r: Result<
        String,
        Error,
    >)
        ensures
            renders(
                r,
                batch_text(
                    self@,
                    match precision {
                        Some(p) => p,
                        None => Precision::Nanos,
                    },
                ),
            ),
            r matches Ok(s) ==> line_count(s@) == self@.len(),
    {
        let unit = match precision {
            Some(p) => p,
            None => Precision::Nanos,
        };
        let ghost ps = self@;
        let mut out = String::new();
        let mut i: usize = 0;
        while i < self.inner.len()
            invariant
                ps == self@,
                ps == views(self.inner@),
                unit == match precision {
                    Some(p) => p,
                    None => Precision::Nanos,
                },
                i <= self.inner.len(),
                batch_text(ps.take(i as int), unit) == Ok::<Seq<char>, Error>(out@),
                line_count(out@) == i,
            decreases self.inner.len() - i,
        {
            let line = match self.inner[i].to_text_with_precision(unit) {
                Ok(l) => l,
                Err(e) => {
                    proof {
                        assert(ps[i as int] == self.inner@[i as int]@);
                        lemma_batch_text_fails(ps, unit, i as int, e);
                    }
                    return Err(e);
                },
            };
            let ghost before = out@;
            if i > 0 {
                push_char(&mut out, '\n');
            }
            push_str(&mut out, line.as_str());
            proof {
                assert(ps[i as int] == self.inner@[i as int]@);
                lemma_batch_text_step(ps, unit, i as int, before, line@);
                lemma_count_newlines_free(line@);
                if i == 0 {
                    assert(out@ =~= line@);
                } else {
                    assert(out@ =~= before + seq!['\n'] + line@);
                    lemma_count_newlines_concat(before, seq!['\n']);
                    lemma_count_newlines_concat(before + seq!['\n'], line@);
                    assert(count_newlines(seq!['\n']) == 1) by {
                        assert(seq!['\n'].drop_last() =~= Seq::<char>::empty());
                        assert(count_newlines(Seq::<char>::empty()) == 0);
                    }
                }
            }
            i = i + 1;
        }
        assert(ps.take(i as int) =~= ps);
        Ok(out)
    }

    /// Moves the points into a new batch and leaves this one empty.
    pub fn clone_and_clear(&mut self) -> (r: Batch)
        ensures
            r@ == old(self)@,
            r.spec_precision() == old(self).spec_precision(),
            final(self)@ == Seq::<PointView>::empty(),
            final(self).spec_precision() == None::<Precision>,
    {
        let mut new_v = Vec::with_capacity(self.len());
        std::mem::swap(&mut self.inner, &mut new_v);
        let r = Batch { inner: new_v };
        assert(self@ =~= Seq::<PointView>::empty());
        r
    }

    /// The finest unit among the points' timestamps.
    pub open spec fn spec_precision(&self) -> Option<Precision> {
        highest(self@)
    }

    /// The finest unit among the points' timestamps; `None` where every
    /// timestamp is `Now` or there is no point. Adding a point may change it.
    pub fn precision(&self) -> (r: Option<Precision>)
        ensures
            r == self.spec_precision(),
    {
        highest_precision(&self.inner)
    }

    pub fn push_point(&mut self, p: Point)
        ensures
            final(self)@ == old(self)@.push(p@),
    {
        self.inner.push(p);
        assert(self@ =~= old(self)@.push(p@));
    }

    pub fn push_points(&mut self, p_vec: Vec<Point>)
        ensures
            final(self)@ == old(self)@ + views(p_vec@),
    {
        let mut p_vec = p_vec;
        let ghost added = p_vec@;
        self.inner.append(&mut p_vec);
        assert(self@ =~= old(self)@ + views(added));
    }

    pub fn is_empty(&self) -> (r: bool)
        ensures
            r == (self@.len() == 0),
    {
        self.inner.len() == 0
    }

    pub fn len(&self) -> (r: usize)
        ensures
            r == self@.len(),
    {
        self.inner.len()
    }
}

proof fn lemma_batch_text_step(ps: Seq<PointView>, unit: Precision, i: int, a: Seq<char>, b: Seq<char>)
    requires
        0 <= i < ps.len(),
        batch_text(ps.take(i), unit) == Ok::<Seq<char>, Error>(a),
        point_text(ps[i], unit) == Ok::<Seq<char>, Error>(b),
    ensures
        batch_text(ps.take(i + 1), unit) == Ok::<Seq<char>, Error>(
            if i == 0 {
                b
            } else {
                a + seq!['\n'] + b
            },
        ),
{
    let t = ps.take(i + 1);
    assert(t.drop_last() =~= ps.take(i));
    assert(t.last() == ps[i]);
    if i == 0 {
        assert(t[0] == ps[i]);
    }
}

impl From<Point> for Batch {
    fn from(p: Point) -> (r: Batch)
        ensures
            r@ == seq![p@],
    {
        Batch::from(vec![p])
    }
}

impl vstd::std_specs::convert::FromSpecImpl<Point> for Batch {
    open spec fn obeys_from_spec() -> bool {
        false
    }

    open spec fn from_spec(p: Point) -> Batch {
        arbitrary()
    }
}

impl From<Vec<Point>> for Batch {
    fn from(v: Vec<Point>) -> (r: Batch)
        ensures
            r@ == views(v@),
    {
        Batch { inner: v }
    }
}

impl vstd::std_specs::convert::FromSpecImpl<Vec<Point>> for Batch {
    open spec fn obeys_from_spec() -> bool {
        true
    }

    closed spec fn from_spec(v: Vec<Point>) -> Batch {
        Batch { inner: v }
    }
}

/// Where a point cannot be rendered, neither can the batch from it on.
proof fn lemma_batch_text_fails(ps: Seq<PointView>, unit: Precision, i: int, e: Error)
    requires
        0 <= i < ps.len(),
        batch_text(ps.take(i), unit) is Ok,
        point_text(ps[i], unit) == Err::<Seq<char>, Error>(e),
    ensures
        batch_text(ps, unit) == Err::<Seq<char>, Error>(e),
    decreases ps.len() - i,
{
    let t = ps.take(i + 1);
    assert(t.drop_last() =~= ps.take(i));
    assert(t.last() == ps[i]);
    if i == 0 {
        assert(t[0] == ps[i]);
    }
    lemma_batch_text_error_extends(ps, unit, i + 1, e);
}

proof fn lemma_batch_text_error_extends(ps: Seq<PointView>, unit: Precision, k: int, e: Error)
    requires
        1 <= k <= ps.len(),
        batch_text(ps.take(k), unit) == Err::<Seq<char>, Error>(e),
    ensures
        batch_text(ps, unit) == Err::<Seq<char>, Error>(e),
    decreases ps.len() - k,
{
    if k < ps.len() {
        assert(ps.take(k + 1).drop_last() =~= ps.take(k));
        lemma_batch_text_error_extends(ps, unit, k + 1, e);
    } else {
        assert(ps.take(k) =~= ps);
    }
}

} // verus!
