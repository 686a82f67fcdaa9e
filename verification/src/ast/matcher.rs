//! Request matchers.

use vstd::prelude::*;
use crate::duplicate::Duplicate;

verus! {

/// A request method.
#[derive(Debug, Clone, Copy, PartialEq, Eq, Structural)]
pub enum HttpMethod {
    Get,
    Post,
    Put,
    Delete,
    Patch,
    Head,
    Options,
}

impl DeepView for HttpMethod {
    type V = HttpMethod;

    open spec fn deep_view(&self) -> HttpMethod {
        *self
    }
}

impl Duplicate for HttpMethod {
    fn duplicate(&self) -> Self {
        *self
    }
}

/// Path patterns, any of which may match.
#[derive(Debug, PartialEq, Eq)]
pub struct PathMatcher {
    pub patterns: Vec<String>,
}

/// The mathematical value of a [`PathMatcher`].
#[verifier::ext_equal]
pub struct PathMatcherV {
    pub patterns: Seq<Seq<char>>,
}

impl DeepView for PathMatcher {
    type V = PathMatcherV;

    open spec fn deep_view(&self) -> PathMatcherV {
        PathMatcherV {
            patterns: self.patterns.deep_view(),
        }
    }
}

impl Duplicate for PathMatcher {
    fn duplicate(&self) -> Self {
        PathMatcher {
            patterns: self.patterns.duplicate(),
        }
    }
}

/// What a field value must look like.
#[derive(Debug, PartialEq, Eq)]
pub enum HeaderCondition {
    Exists,
    Equals(String),
    Contains(String),
    StartsWith(String),
    EndsWith(String),
    Regex(String),
}

/// The mathematical value of a [`HeaderCondition`].
#[verifier::ext_equal]
pub enum HeaderConditionV {
    Exists,
    Equals(Seq<char>),
    Contains(Seq<char>),
    StartsWith(Seq<char>),
    EndsWith(Seq<char>),
    Regex(Seq<char>),
}

impl DeepView for HeaderCondition {
    type V = HeaderConditionV;

    open spec fn deep_view(&self) -> HeaderConditionV {
        match self {
            HeaderCondition::Exists => HeaderConditionV::Exists,
            HeaderCondition::Equals(a) => HeaderConditionV::Equals(a.deep_view()),
            HeaderCondition::Contains(a) => HeaderConditionV::Contains(a.deep_view()),
            HeaderCondition::StartsWith(a) => HeaderConditionV::StartsWith(a.deep_view()),
            HeaderCondition::EndsWith(a) => HeaderConditionV::EndsWith(a.deep_view()),
            HeaderCondition::Regex(a) => HeaderConditionV::Regex(a.deep_view()),
        }
    }
}

impl Duplicate for HeaderCondition {
    fn duplicate(&self) -> Self {
        match self {
            HeaderCondition::Exists => HeaderCondition::Exists,
            HeaderCondition::Equals(a) => HeaderCondition::Equals(a.duplicate()),
            HeaderCondition::Contains(a) => HeaderCondition::Contains(a.duplicate()),
            HeaderCondition::StartsWith(a) => HeaderCondition::StartsWith(a.duplicate()),
            HeaderCondition::EndsWith(a) => HeaderCondition::EndsWith(a.duplicate()),
            HeaderCondition::Regex(a) => HeaderCondition::Regex(a.duplicate()),
        }
    }
}

/// A condition on one header field.
#[derive(Debug, PartialEq, Eq)]
pub struct HeaderMatcher {
    pub name: String,
    pub condition: HeaderCondition,
}

/// The mathematical value of a [`HeaderMatcher`].
#[verifier::ext_equal]
pub struct HeaderMatcherV {
    pub name: Seq<char>,
    pub condition: HeaderConditionV,
}

impl DeepView for HeaderMatcher {
    type V = HeaderMatcherV;

    open spec fn deep_view(&self) -> HeaderMatcherV {
        HeaderMatcherV {
            name: self.name.deep_view(),
            condition: self.condition.deep_view(),
        }
    }
}

impl Duplicate for HeaderMatcher {
    fn duplicate(&self) -> Self {
        HeaderMatcher {
            name: self.name.duplicate(),
            condition: self.condition.duplicate(),
        }
    }
}

/// A condition on one query key.
#[derive(Debug, PartialEq, Eq)]
pub struct QueryMatcher {
    pub name: String,
    pub condition: HeaderCondition,
}

/// The mathematical value of a [`QueryMatcher`].
#[verifier::ext_equal]
pub struct QueryMatcherV {
    pub name: Seq<char>,
    pub condition: HeaderConditionV,
}

impl DeepView for QueryMatcher {
    type V = QueryMatcherV;

    open spec fn deep_view(&self) -> QueryMatcherV {
        QueryMatcherV {
            name: self.name.deep_view(),
            condition: self.condition.deep_view(),
        }
    }
}

impl Duplicate for QueryMatcher {
    fn duplicate(&self) -> Self {
        QueryMatcher {
            name: self.name.duplicate(),
            condition: self.condition.duplicate(),
        }
    }
}

} // verus!
