use vstd::prelude::*;

verus! {

/// Why a value could not be accepted or rendered.
#[derive(Debug, Clone, Copy, PartialEq, Eq, Structural)]
pub enum Error {
    /// A key or a value contains a line feed.
    NewLine,
    /// A key starts with `_`, which the protocol reserves for system use.
    ReservedPrefix,
    /// A float field value is not a number.
    NotANumber,
    /// Scaling a timestamp to a finer unit leaves the range of `i64`.
    TimestampOverflow,
    /// A point was finalized without any field.
    NoFields,
}

/// The message that each error carries.
pub open spec fn error_message(e: Error) -> Seq<char> {
    match e {
        Error::NewLine => "New line `\\n` is not allowed"@,
        Error::ReservedPrefix => "A measurement name, field key or tag key must not start with `_`"@,
        Error::NotANumber => "Float value is NaN"@,
        Error::TimestampOverflow => "Timestamp does not fit in 64 bits of nanoseconds"@,
        Error::NoFields => "At least one field value is required"@,
    }
}

impl Error {
    /// A human readable description of the error.
    pub fn message(&self) -> (r: &'static str)
        ensures
            r@ == error_message(*self),
    {
        match self {
            Error::NewLine => "New line `\\n` is not allowed",
            Error::ReservedPrefix => "A measurement name, field key or tag key must not start with `_`",
            Error::NotANumber => "Float value is NaN",
            Error::TimestampOverflow => "Timestamp does not fit in 64 bits of nanoseconds",
            Error::NoFields => "At least one field value is required",
        }
    }
}

} // verus!

verus! {

/// `r` fails exactly where the check `c` fails, with the same error.
pub open spec fn fails_as<T>(r: Result<T, Error>, c: Result<(), Error>) -> bool {
    match c {
        Ok(_) => r is Ok,
        Err(e) => r == Err::<T, Error>(e),
    }
}

} // verus!
