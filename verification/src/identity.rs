//! Routing identifiers that scheduling and request facts refer to.

use vstd::prelude::*;

verus! {

/// A provider platform, such as the family of upstream APIs an account belongs to.
#[derive(Debug, Clone, PartialEq, Eq, PartialOrd, Ord, Hash)]
pub struct ProviderKind(String);

impl View for ProviderKind {
    type V = Seq<char>;

    closed spec fn view(&self) -> Seq<char> {
        self.0@
    }
}

impl ProviderKind {
    pub fn new(value: String) -> (r: ProviderKind)
        ensures
            r@ == value@,
    {
        ProviderKind(value)
    }

    pub fn as_str(&self) -> (r: &str)
        ensures
            r@ == self@,
    {
        self.0.as_str()
    }

    pub fn same_as(&self, other: &ProviderKind) -> (r: bool)
        ensures
            r == (self@ == other@),
    {
        self.0 == other.0
    }

    pub fn duplicate(&self) -> (r: ProviderKind)
        ensures
            r@ == self@,
    {
        ProviderKind(self.0.clone())
    }
}

/// One configured deployment of a provider platform.
#[derive(Debug, Clone, PartialEq, Eq, PartialOrd, Ord, Hash)]
pub struct ProviderInstanceId(String);

impl View for ProviderInstanceId {
    type V = Seq<char>;

    closed spec fn view(&self) -> Seq<char> {
        self.0@
    }
}

impl ProviderInstanceId {
    pub fn new(value: String) -> (r: ProviderInstanceId)
        ensures
            r@ == value@,
    {
        ProviderInstanceId(value)
    }

    pub fn as_str(&self) -> (r: &str)
        ensures
            r@ == self@,
    {
        self.0.as_str()
    }

    pub fn same_as(&self, other: &ProviderInstanceId) -> (r: bool)
        ensures
            r == (self@ == other@),
    {
        self.0 == other.0
    }

    pub fn duplicate(&self) -> (r: ProviderInstanceId)
        ensures
            r@ == self@,
    {
        ProviderInstanceId(self.0.clone())
    }
}

/// A model name as the upstream provider spells it.
#[derive(Debug, Clone, PartialEq, Eq, PartialOrd, Ord, Hash)]
pub struct UpstreamModelId(String);

impl View for UpstreamModelId {
    type V = Seq<char>;

    closed spec fn view(&self) -> Seq<char> {
        self.0@
    }
}

impl UpstreamModelId {
    pub fn new(value: String) -> (r: UpstreamModelId)
        ensures
            r@ == value@,
    {
        UpstreamModelId(value)
    }

    pub fn as_str(&self) -> (r: &str)
        ensures
            r@ == self@,
    {
        self.0.as_str()
    }

    pub fn same_as(&self, other: &UpstreamModelId) -> (r: bool)
        ensures
            r == (self@ == other@),
    {
        self.0 == other.0
    }

    pub fn duplicate(&self) -> (r: UpstreamModelId)
        ensures
            r@ == self@,
    {
        UpstreamModelId(self.0.clone())
    }
}

/// A model name as clients request it.
#[derive(Debug, Clone, PartialEq, Eq, PartialOrd, Ord, Hash)]
pub struct PublicModelId(String);

impl View for PublicModelId {
    type V = Seq<char>;

    closed spec fn view(&self) -> Seq<char> {
        self.0@
    }
}

impl PublicModelId {
    pub fn new(value: String) -> (r: PublicModelId)
        ensures
            r@ == value@,
    {
        PublicModelId(value)
    }

    pub fn as_str(&self) -> (r: &str)
        ensures
            r@ == self@,
    {
        self.0.as_str()
    }

    pub fn same_as(&self, other: &PublicModelId) -> (r: bool)
        ensures
            r == (self@ == other@),
    {
        self.0 == other.0
    }

    pub fn duplicate(&self) -> (r: PublicModelId)
        ensures
            r@ == self@,
    {
        PublicModelId(self.0.clone())
    }
}

} // verus!
