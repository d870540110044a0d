use vstd::prelude::*;
use vstd::arithmetic::div_mod::{lemma_div_multiples_vanish, lemma_div_multiples_vanish_quotient};

use crate::error::Error;
use crate::precision::Precision;

verus! {

/// A point in time counted from the Unix epoch, or `Now` to let the
/// ingesting system assign the time.
#[derive(Debug, Clone, Copy, PartialEq, Eq, Structural, Hash)]
pub enum Timestamp {
    Now,
    Nanos(i64),
    Micro(i64),
    Milli(i64),
    Secs(i64),
}

/// Integer division that rounds toward zero, as Rust's `/` does.
pub open spec fn trunc_div(a: int, d: int) -> int {
    if a >= 0 {
        a / d
    } else {
        -((-a) / d)
    }
}

pub open spec fn in_i64(v: int) -> bool {
    i64::MIN <= v <= i64::MAX
}

impl Timestamp {
    /// The timestamp that counts `v` units of `p`.
    pub open spec fn of(p: Precision, v: i64) -> Timestamp {
        match p {
            Precision::Secs => Timestamp::Secs(v),
            Precision::Milli => Timestamp::Milli(v),
            Precision::Micro => Timestamp::Micro(v),
            Precision::Nanos => Timestamp::Nanos(v),
        }
    }

    pub open spec fn spec_precision(self) -> Option<Precision> {
        match self {
            Timestamp::Now => None,
            Timestamp::Nanos(_) => Some(Precision::Nanos),
            Timestamp::Micro(_) => Some(Precision::Micro),
            Timestamp::Milli(_) => Some(Precision::Milli),
            Timestamp::Secs(_) => Some(Precision::Secs),
        }
    }

    /// The stored count of units.
    pub open spec fn spec_value(self) -> Option<i64> {
        match self {
            Timestamp::Now => None,
            Timestamp::Nanos(v) => Some(v),
            Timestamp::Micro(v) => Some(v),
            Timestamp::Milli(v) => Some(v),
            Timestamp::Secs(v) => Some(v),
        }
    }

    /// The instant in nanoseconds, as an unbounded integer.
    pub open spec fn spec_nanos(self) -> Option<int> {
        match self.spec_precision() {
            None => None,
            Some(p) => Some(self.spec_value().unwrap() * p.nanos_per_unit()),
        }
    }

    /// The same instant counted in units of `p`, truncated toward zero;
    /// an error where the count leaves the range of `i64`.
    pub open spec fn spec_lossy(self, p: Precision) -> Result<Timestamp, Error> {
        match self.spec_nanos() {
            None => Ok(Timestamp::Now),
            Some(n) => {
                let w = trunc_div(n, p.nanos_per_unit());
                if in_i64(w) {
                    Ok(Timestamp::of(p, w as i64))
                } else {
                    Err(Error::TimestampOverflow)
                }
            },
        }
    }

    pub fn precision(self) -> (r: Option<Precision>)
        ensures
            r == self.spec_precision(),
    {
        match self {
            Timestamp::Now => None,
            Timestamp::Nanos(_) => Some(Precision::Nanos),
            Timestamp::Micro(_) => Some(Precision::Micro),
            Timestamp::Milli(_) => Some(Precision::Milli),
            Timestamp::Secs(_) => Some(Precision::Secs),
        }
    }

    /// The stored count of units; `None` for `Now`.
    pub fn value(self) -> (r: Option<i64>)
        ensures
            r == self.spec_value(),
    {
        match self {
            Timestamp::Now => None,
            Timestamp::Nanos(v) => Some(v),
            Timestamp::Micro(v) => Some(v),
            Timestamp::Milli(v) => Some(v),
            Timestamp::Secs(v) => Some(v),
        }
    }

    /// Converts to the unit `precision`; a coarser unit drops the finer part.
    pub fn timestamp_precision_lossy(self, precision: Precision) -> (r: Result<Timestamp, Error>)
        ensures
            r == self.spec_lossy(precision),
    {
        match precision {
            Precision::Secs => Ok(self.to_secs_lossy()),
            Precision::Milli => self.to_milli_lossy(),
            Precision::Micro => self.to_micro_lossy(),
            Precision::Nanos => self.to_nanos(),
        }
    }

    pub fn to_secs_lossy(self) -> (r: Timestamp)
        ensures
            self.spec_lossy(Precision::Secs) == Ok::<Timestamp, Error>(r),
    {
        match self {
            Timestamp::Now => self,
            Timestamp::Nanos(v) => Timestamp::Secs(v / 1_000_000_000),
            Timestamp::Micro(v) => {
                proof {
                    lemma_trunc_div_cancel(v as int, 1_000, 1_000_000);
                }
                Timestamp::Secs(v / 1_000_000)
            },
            Timestamp::Milli(v) => {
                proof {
                    lemma_trunc_div_cancel(v as int, 1_000_000, 1_000);
                }
                Timestamp::Secs(v / 1_000)
            },
            Timestamp::Secs(v) => {
                proof {
                    lemma_trunc_div_exact(v as int, 1, 1_000_000_000);
                }
                self
            },
        }
    }

    pub fn to_milli_lossy(self) -> (r: Result<Timestamp, Error>)
        ensures
            r == self.spec_lossy(Precision::Milli),
    {
        match self {
            Timestamp::Now => Ok(self),
            Timestamp::Nanos(v) => Ok(Timestamp::Milli(v / 1_000_000)),
            Timestamp::Micro(v) => {
                proof {
                    lemma_trunc_div_cancel(v as int, 1_000, 1_000);
                }
                Ok(Timestamp::Milli(v / 1_000))
            },
            Timestamp::Milli(v) => {
                proof {
                    lemma_trunc_div_exact(v as int, 1, 1_000_000);
                }
                Ok(self)
            },
            Timestamp::Secs(v) => {
                proof {
                    lemma_trunc_div_exact(v as int, 1_000, 1_000_000);
                }
                match v.checked_mul(1_000) {
                    Some(w) => Ok(Timestamp::Milli(w)),
                    None => Err(Error::TimestampOverflow),
                }
            },
        }
    }

    pub fn to_micro_lossy(self) -> (r: Result<Timestamp, Error>)
        ensures
            r == self.spec_lossy(Precision::Micro),
    {
        match self {
            Timestamp::Now => Ok(self),
            Timestamp::Nanos(v) => Ok(Timestamp::Micro(v / 1_000)),
            Timestamp::Micro(v) => {
                proof {
                    lemma_trunc_div_exact(v as int, 1, 1_000);
                }
                Ok(self)
            },
            Timestamp::Milli(v) => {
                proof {
                    lemma_trunc_div_exact(v as int, 1_000, 1_000);
                }
                match v.checked_mul(1_000) {
                    Some(w) => Ok(Timestamp::Micro(w)),
                    None => Err(Error::TimestampOverflow),
                }
            },
            Timestamp::Secs(v) => {
                proof {
                    lemma_trunc_div_exact(v as int, 1_000_000, 1_000);
                }
                match v.checked_mul(1_000_000) {
                    Some(w) => Ok(Timestamp::Micro(w)),
                    None => Err(Error::TimestampOverflow),
                }
            },
        }
    }

    /// Converts to nanoseconds; an error where the count overflows.
    pub fn to_nanos(self) -> (r: Result<Timestamp, Error>)
        ensures
            r == self.spec_lossy(Precision::Nanos),
    {
        match self {
            Timestamp::Now => Ok(self),
            Timestamp::Nanos(v) => {
                proof {
                    lemma_trunc_div_exact(v as int, 1, 1);
                }
                Ok(self)
            },
            Timestamp::Micro(v) => {
                proof {
                    lemma_trunc_div_exact(v as int, 1_000, 1);
                }
                match v.checked_mul(1_000) {
                    Some(w) => Ok(Timestamp::Nanos(w)),
                    None => Err(Error::TimestampOverflow),
                }
            },
            Timestamp::Milli(v) => {
                proof {
                    lemma_trunc_div_exact(v as int, 1_000_000, 1);
                }
                match v.checked_mul(1_000_000) {
                    Some(w) => Ok(Timestamp::Nanos(w)),
                    None => Err(Error::TimestampOverflow),
                }
            },
            Timestamp::Secs(v) => {
                proof {
                    lemma_trunc_div_exact(v as int, 1_000_000_000, 1);
                }
                match v.checked_mul(1_000_000_000) {
                    Some(w) => Ok(Timestamp::Nanos(w)),
                    None => Err(Error::TimestampOverflow),
                }
            },
        }
    }

    /// The instant in nanoseconds; `None` for `Now` or where the count overflows.
    pub fn timestamp_nanos(self) -> (r: Option<i64>)
        ensures
            r == match self.spec_nanos() {
                Some(n) => if in_i64(n) { Some(n as i64) } else { None },
                None => None,
            },
    {
        match self {
            Timestamp::Now => None,
            Timestamp::Nanos(v) => Some(v),
            Timestamp::Micro(v) => v.checked_mul(1_000),
            Timestamp::Milli(v) => v.checked_mul(1_000_000),
            Timestamp::Secs(v) => v.checked_mul(1_000_000_000),
        }
    }
}

/// Dividing a multiple of `d` by `d` loses nothing.
pub proof fn lemma_trunc_div_exact(v: int, k: int, d: int)
    requires
        d > 0,
    ensures
        trunc_div(v * (k * d), d) == v * k,
{
    assert(v * (k * d) == d * (v * k)) by (nonlinear_arith);
    if v * k >= 0 {
        lemma_div_multiples_vanish(v * k, d);
    } else {
        assert(-(d * (v * k)) == d * (-(v * k))) by (nonlinear_arith);
        lemma_div_multiples_vanish(-(v * k), d);
    }
}

/// A common factor of dividend and divisor cancels.
pub proof fn lemma_trunc_div_cancel(v: int, k: int, d: int)
    requires
        k > 0,
        d > 0,
    ensures
        trunc_div(v * k, d * k) == trunc_div(v, d),
{
    assert(v * k == k * v && d * k == k * d) by (nonlinear_arith);
    if v >= 0 {
        lemma_div_multiples_vanish_quotient(k, v, d);
        assert(k * v >= 0) by (nonlinear_arith)
            requires
                k > 0,
                v >= 0,
        ;
    } else {
        lemma_div_multiples_vanish_quotient(k, -v, d);
        assert(k * (-v) == -(k * v)) by (nonlinear_arith);
        assert(k * v < 0) by (nonlinear_arith)
            requires
                k > 0,
                v < 0,
        ;
    }
}

} // verus!
