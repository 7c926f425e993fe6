//! Facts about what reached the upstream provider.

use vstd::prelude::*;

verus! {

/// A value copied from an upstream error that the adapter classified as safe
/// to keep, such as an error code or a non-bearer request id.
#[derive(Debug, Clone, PartialEq, Eq, Hash)]
pub struct OpaqueUpstreamValue(String);

impl View for OpaqueUpstreamValue {
    type V = Seq<char>;

    closed spec fn view(&self) -> Seq<char> {
        self.0@
    }
}

impl OpaqueUpstreamValue {
    pub fn new(value: String) -> (r: OpaqueUpstreamValue)
        ensures
            r@ == value@,
    {
        OpaqueUpstreamValue(value)
    }

    pub fn as_str(&self) -> (r: &str)
        ensures
            r@ == self@,
    {
        self.0.as_str()
    }

    pub(crate) fn duplicate(&self) -> (r: OpaqueUpstreamValue)
        ensures
            r == *self,
    {
        OpaqueUpstreamValue(self.0.clone())
    }
}

} // verus!
