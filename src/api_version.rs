use vstd::prelude::*;

verus! {

/// The protocol revision that a client announces when none is given.
pub const DEFAULT_API_VERSION: i64 = 6;

/// The revision of the remote API that a client claims to speak.
#[derive(Debug, Clone, Copy, PartialEq, Eq, Structural)]
pub enum ApiVersion {
    V(i64),
}

impl ApiVersion {
    /// The integer tag carried in every request.
    pub open spec fn value(self) -> i64 {
        match self {
            ApiVersion::V(v) => v,
        }
    }

    pub fn to_i64(&self) -> (r: i64)
        ensures
            r == self.value(),
    {
        match self {
            ApiVersion::V(v) => *v,
        }
    }
}

impl Default for ApiVersion {
    fn default() -> (r: ApiVersion)
        ensures
            r == ApiVersion::V(DEFAULT_API_VERSION),
    {
        ApiVersion::V(DEFAULT_API_VERSION)
    }
}

} // verus!
