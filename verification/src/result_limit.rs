//! The validated result-size cap of a search: an optional 32-bit count,
//! clamped into a fixed range with a fixed default.

use vstd::prelude::*;
use crate::app_error::AppResult;

verus! {

/// The cap used when none is given, or when the given cap is below one.
pub const QUERY_DEFAULT_LIMIT: u32 = 10;

/// The largest cap a query may ask for; anything above is clamped to it.
pub const QUERY_MAX_LIMIT: u32 = 100;

/// The resolved result cap: the default when absent or below one, the
/// maximum when above it, and the given value otherwise.
pub open spec fn resolve_limit(l: Option<u32>) -> int {
    match l {
        Option::None => QUERY_DEFAULT_LIMIT as int,
        Option::Some(n) => if n > QUERY_MAX_LIMIT {
            QUERY_MAX_LIMIT as int
        } else if n < 1 {
            QUERY_DEFAULT_LIMIT as int
        } else {
            n as int
        },
    }
}

/// An optional raw result cap, as supplied by a caller.
#[derive(Clone)]
pub struct OptionalResultLimit {
    raw: Option<u32>,
}

impl View for OptionalResultLimit {
    type V = Option<u32>;

    closed spec fn view(&self) -> Option<u32> {
        self.raw
    }
}

impl OptionalResultLimit {
    /// An absent result cap.
    pub fn none() -> (r: Self)
        ensures
            r@ is None,
    {
        OptionalResultLimit { raw: None }
    }

    /// A present raw result cap.
    pub fn some(n: u32) -> (r: Self)
        ensures
            r@ == Some(n),
    {
        OptionalResultLimit { raw: Some(n) }
    }

    /// Wraps an optional raw result cap.
    pub fn new(raw: Option<u32>) -> (r: Self)
        ensures
            r@ == raw,
    {
        OptionalResultLimit { raw }
    }

    /// Clamps the raw cap into range and converts it to the platform index
    /// type. The clamped value always fits, so this never fails.
    pub fn validated(&self) -> (r: AppResult<usize>)
        ensures
            r matches Ok(n) && n == resolve_limit(self@),
            1 <= resolve_limit(self@) <= QUERY_MAX_LIMIT,
    {
        let n: u32 = match self.raw {
            Some(n) => if n > QUERY_MAX_LIMIT {
                QUERY_MAX_LIMIT
            } else if n < 1 {
                QUERY_DEFAULT_LIMIT
            } else {
                n
            },
            None => QUERY_DEFAULT_LIMIT,
        };
        Ok(n as usize)
    }
}

} // verus!
