use vstd::prelude::*;

verus! {

/// Returned when a text names no time unit.
#[derive(Debug, Clone, Copy, PartialEq, Eq, Structural)]
pub struct ParsePrecisionErr;

/// The unit of a timestamp.
#[derive(Debug, Clone, Copy, PartialEq, Eq, Structural, Hash, Ord)]
pub enum Precision {
    Secs,
    Milli,
    Micro,
    Nanos,
}

impl Precision {
    /// Position in the order of precision: a finer unit ranks higher.
    pub open spec fn spec_rank(self) -> nat {
        match self {
            Precision::Secs => 0,
            Precision::Milli => 1,
            Precision::Micro => 2,
            Precision::Nanos => 3,
        }
    }

    /// How many nanoseconds one unit holds.
    pub open spec fn nanos_per_unit(self) -> int {
        match self {
            Precision::Secs => 1_000_000_000,
            Precision::Milli => 1_000_000,
            Precision::Micro => 1_000,
            Precision::Nanos => 1,
        }
    }

    /// The unit's short name.
    pub open spec fn spec_name(self) -> Seq<char> {
        match self {
            Precision::Secs => "s"@,
            Precision::Milli => "ms"@,
            Precision::Micro => "us"@,
            Precision::Nanos => "ns"@,
        }
    }

    pub fn rank(self) -> (r: u8)
        ensures
            r == self.spec_rank(),
    {
        match self {
            Precision::Secs => 0,
            Precision::Milli => 1,
            Precision::Micro => 2,
            Precision::Nanos => 3,
        }
    }

    /// The unit's short name, as the write endpoint expects it.
    pub fn name(&self) -> (r: &'static str)
        ensures
            r@ == self.spec_name(),
    {
        match self {
            Precision::Secs => "s",
            Precision::Milli => "ms",
            Precision::Micro => "us",
            Precision::Nanos => "ns",
        }
    }

    #[allow(clippy::inherent_to_string)]
    pub fn to_string(&self) -> (r: String)
        ensures
            r@ == self.spec_name(),
    {
        self.name().to_string()
    }

    /// Reads a unit from its short name.
    pub fn parse(s: &str) -> (r: Result<Precision, ParsePrecisionErr>)
        ensures
            r == match precision_named(s@) {
                Some(p) => Ok(p),
                None => Err(ParsePrecisionErr),
            },
    {
        proof {
            reveal_strlit("s");
            reveal_strlit("ms");
            reveal_strlit("us");
            reveal_strlit("ns");
        }
        let n = s.unicode_len();
        if n == 1 {
            if s.get_char(0) == 's' {
                assert(s@ =~= "s"@);
                return Ok(Precision::Secs);
            }
        } else if n == 2 && s.get_char(1) == 's' {
            let c = s.get_char(0);
            if c == 'm' {
                assert(s@ =~= "ms"@);
                return Ok(Precision::Milli);
            } else if c == 'u' {
                assert(s@ =~= "us"@);
                return Ok(Precision::Micro);
            } else if c == 'n' {
                assert(s@ =~= "ns"@);
                return Ok(Precision::Nanos);
            }
        }
        assert(s@ != "s"@ && s@ != "ms"@ && s@ != "us"@ && s@ != "ns"@) by {
            if s@ == "s"@ || s@ == "ms"@ || s@ == "us"@ || s@ == "ns"@ {
                assert(s@[0] == "s"@[0] || s@[0] == "ms"@[0] || s@[0] == "us"@[0] || s@[0] == "ns"@[0]);
            }
        }
        Err(ParsePrecisionErr)
    }
}

/// The unit whose short name is `s`, if any.
pub open spec fn precision_named(s: Seq<char>) -> Option<Precision> {
    if s == "s"@ {
        Some(Precision::Secs)
    } else if s == "ms"@ {
        Some(Precision::Milli)
    } else if s == "us"@ {
        Some(Precision::Micro)
    } else if s == "ns"@ {
        Some(Precision::Nanos)
    } else {
        None
    }
}

/// The finer of two optional units; no unit is coarser than any unit.
pub open spec fn finer(a: Option<Precision>, b: Option<Precision>) -> Option<Precision> {
    match (a, b) {
        (None, _) => b,
        (_, None) => a,
        (Some(x), Some(y)) => if x.spec_rank() >= y.spec_rank() { a } else { b },
    }
}

pub open spec fn rank_order(a: Precision, b: Precision) -> Option<std::cmp::Ordering> {
    if a.spec_rank() < b.spec_rank() {
        Some(std::cmp::Ordering::Less)
    } else if a.spec_rank() == b.spec_rank() {
        Some(std::cmp::Ordering::Equal)
    } else {
        Some(std::cmp::Ordering::Greater)
    }
}

impl PartialOrd for Precision {
    fn partial_cmp(&self, other: &Precision) -> (r: Option<std::cmp::Ordering>) {
        let a = self.rank();
        let b = other.rank();
        if a < b {
            Some(std::cmp::Ordering::Less)
        } else if a == b {
            Some(std::cmp::Ordering::Equal)
        } else {
            Some(std::cmp::Ordering::Greater)
        }
    }
}

impl vstd::std_specs::cmp::PartialOrdSpecImpl for Precision {
    open spec fn obeys_partial_cmp_spec() -> bool {
        true
    }

    open spec fn partial_cmp_spec(&self, other: &Precision) -> Option<std::cmp::Ordering> {
        rank_order(*self, *other)
    }
}

impl Default for Precision {
    fn default() -> (r: Precision)
        ensures
            r == Precision::Nanos,
    {
        Precision::Nanos
    }
}

impl std::str::FromStr for Precision {
    type Err = ParsePrecisionErr;

    fn from_str(s: &str) -> Result<Precision, ParsePrecisionErr> {
        Precision::parse(s)
    }
}

} // verus!
