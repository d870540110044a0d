use vstd::prelude::*;

use crate::error::{fails_as, Error};
use crate::name_restriction::{key_check, prevent_key, valid_key};

verus! {

/// The name of the series that a point belongs to: no leading `_`, no line
/// feed.
#[derive(Debug, PartialEq, Eq, Hash, PartialOrd, Ord)]
pub struct Measurement(String);

impl View for Measurement {
    type V = Seq<char>;

    closed spec fn view(&self) -> Seq<char> {
        self.0@
    }
}

impl Clone for Measurement {
    fn clone(&self) -> (r: Measurement)
        ensures
            r@ == self@,
    {
        proof {
            use_type_invariant(self);
        }
        Measurement(self.0.clone())
    }
}

impl AsRef<str> for Measurement {
    fn as_ref(&self) -> (r: &str)
        ensures
            r@ == self@,
    {
        self.as_str()
    }
}

impl std::borrow::Borrow<str> for Measurement {
    fn borrow(&self) -> &str {
        self.as_str()
    }
}

impl Measurement {
    #[verifier::type_invariant]
    spec fn inv(self) -> bool {
        valid_key(self.0@)
    }

    pub fn new(measurement: &str) -> (r: Result<Measurement, Error>)
        ensures
            fails_as(r, key_check(measurement@)),
            r matches Ok(m) ==> m@ == measurement@,
    {
        prevent_key(measurement)?;
        Ok(Measurement(measurement.to_string()))
    }

    /// The name; it never starts with `_` nor holds a line feed.
    pub fn as_str(&self) -> (r: &str)
        ensures
            r@ == self@,
            valid_key(self@),
    {
        proof {
            use_type_invariant(self);
        }
        self.0.as_str()
    }
}

impl<'a> TryFrom<&'a str> for Measurement {
    type Error = Error;

    fn try_from(value: &'a str) -> (r: Result<Measurement, Error>)
        ensures
            fails_as(r, key_check(value@)),
            r matches Ok(m) ==> m@ == value@,
    {
        Measurement::new(value)
    }
}

impl<'a> vstd::std_specs::convert::TryFromSpecImpl<&'a str> for Measurement {
    open spec fn obeys_try_from_spec() -> bool {
        false
    }

    open spec fn try_from_spec(value: &'a str) -> Result<Measurement, Error> {
        arbitrary()
    }
}

} // verus!
