//! Why a configuration cannot be adapted.

use crate::text;
use crate::text::{cat, cat3, cat4, cat5, show};
use vstd::prelude::*;

verus! {

/// Why a configuration cannot be adapted.
#[derive(Debug, PartialEq, Eq)]
pub enum AdapterError {
    /// A name that nothing defines.
    UnknownDirective(String),
    /// A feature of the format that is deliberately refused, and why.
    UnsupportedFeature(String, String),
    /// A directive, how many arguments it takes, and how many it got.
    ArgumentCount(String, usize, usize),
    /// A directive and what is wrong with its argument.
    InvalidArgument(String, String),
    /// A directive that takes no block.
    BlockNotAllowed(String),
    /// A second global block.
    DuplicateGlobal,
    /// An import of a snippet that is not defined.
    UndefinedSnippet(String),
    /// Snippets that import each other without end.
    RecursiveSnippet(String),
}

/// The mathematical value of an [`AdapterError`].
pub enum ErrorV {
    UnknownDirective(Seq<char>),
    UnsupportedFeature(Seq<char>, Seq<char>),
    ArgumentCount(Seq<char>, usize, usize),
    InvalidArgument(Seq<char>, Seq<char>),
    BlockNotAllowed(Seq<char>),
    DuplicateGlobal,
    UndefinedSnippet(Seq<char>),
    RecursiveSnippet(Seq<char>),
}

impl DeepView for AdapterError {
    type V = ErrorV;

    open spec fn deep_view(&self) -> ErrorV {
        match self {
            AdapterError::UnknownDirective(a) => ErrorV::UnknownDirective(a@),
            AdapterError::UnsupportedFeature(a, b) => ErrorV::UnsupportedFeature(a@, b@),
            AdapterError::ArgumentCount(a, b, c) => ErrorV::ArgumentCount(a@, *b, *c),
            AdapterError::InvalidArgument(a, b) => ErrorV::InvalidArgument(a@, b@),
            AdapterError::BlockNotAllowed(a) => ErrorV::BlockNotAllowed(a@),
            AdapterError::DuplicateGlobal => ErrorV::DuplicateGlobal,
            AdapterError::UndefinedSnippet(a) => ErrorV::UndefinedSnippet(a@),
            AdapterError::RecursiveSnippet(a) => ErrorV::RecursiveSnippet(a@),
        }
    }
}

/// The mathematical value of what an adapter returns.
pub open spec fn outcome<T: DeepView>(r: Result<T, AdapterError>) -> Result<T::V, ErrorV> {
    match r {
        Ok(t) => Ok(t.deep_view()),
        Err(e) => Err(e.deep_view()),
    }
}

/// What `f` makes of the value of `r`; an error stays.
pub open spec fn with<A, B>(r: Result<A, ErrorV>, f: spec_fn(A) -> B) -> Result<B, ErrorV> {
    match r {
        Ok(a) => Ok(f(a)),
        Err(e) => Err(e),
    }
}

/// The text shown to an operator.
pub open spec fn described(e: ErrorV) -> Seq<char> {
    match e {
        ErrorV::UnknownDirective(name) => "Unknown directive '"@ + name + "'"@,
        ErrorV::UnsupportedFeature(name, why) => "Caddy-compatible directive '"@ + name
            + "' is not supported by Pingclair yet: "@ + why,
        ErrorV::ArgumentCount(name, expected, found) => "Directive '"@ + name + "' expects "@
            + text::shown(expected as nat) + (" arguments, got "@ + text::shown(found as nat)),
        ErrorV::InvalidArgument(name, why) => "Invalid argument for '"@ + name + "': "@ + why,
        ErrorV::BlockNotAllowed(name) => "Block not allowed for directive '"@ + name + "'"@,
        ErrorV::DuplicateGlobal => "Duplicate global block"@,
        ErrorV::UndefinedSnippet(name) => "Undefined snippet '"@ + name + "'"@,
        ErrorV::RecursiveSnippet(name) => "Recursive snippet import detected: '"@ + name + "'"@,
    }
}

impl AdapterError {
    /// The text shown to an operator.
    pub fn message(&self) -> (r: String)
        ensures
            r@ == described(self.deep_view()),
    {
        match self {
            AdapterError::UnknownDirective(name) => cat3("Unknown directive '", name.as_str(), "'"),
            AdapterError::UnsupportedFeature(name, why) => cat4(
                "Caddy-compatible directive '",
                name.as_str(),
                "' is not supported by Pingclair yet: ",
                why.as_str(),
            ),
            AdapterError::ArgumentCount(name, expected, found) => {
                let counted = show(*found as u64);
                let tail = cat(" arguments, got ", counted.as_str());
                let wanted = show(*expected as u64);
                cat5("Directive '", name.as_str(), "' expects ", wanted.as_str(), tail.as_str())
            },
            AdapterError::InvalidArgument(name, why) => cat4(
                "Invalid argument for '",
                name.as_str(),
                "': ",
                why.as_str(),
            ),
            AdapterError::BlockNotAllowed(name) => cat3(
                "Block not allowed for directive '",
                name.as_str(),
                "'",
            ),
            AdapterError::DuplicateGlobal => "Duplicate global block".to_owned(),
            AdapterError::UndefinedSnippet(name) => cat3("Undefined snippet '", name.as_str(), "'"),
            AdapterError::RecursiveSnippet(name) => cat3(
                "Recursive snippet import detected: '",
                name.as_str(),
                "'",
            ),
        }
    }
}

/// An argument of `name` is wrong, for the reason given.
pub fn invalid(name: &str, reason: &str) -> (r: AdapterError)
    ensures
        r.deep_view() == ErrorV::InvalidArgument(name@, reason@),
{
    AdapterError::InvalidArgument(name.to_owned(), reason.to_owned())
}

/// `name` takes `expected` arguments and got `found`.
pub fn miscount(name: &str, expected: usize, found: usize) -> (r: AdapterError)
    ensures
        r.deep_view() == ErrorV::ArgumentCount(name@, expected, found),
{
    AdapterError::ArgumentCount(name.to_owned(), expected, found)
}

/// Nothing defines `name`.
pub fn unknown(name: &str) -> (r: AdapterError)
    ensures
        r.deep_view() == ErrorV::UnknownDirective(name@),
{
    AdapterError::UnknownDirective(name.to_owned())
}

/// Nothing defines `name` within `scope`.
pub fn unknown_in(scope: &str, name: &str) -> (r: AdapterError)
    ensures
        r.deep_view() == ErrorV::UnknownDirective(scope@ + name@),
{
    AdapterError::UnknownDirective(cat(scope, name))
}

/// The feature `name` is refused, for the reason given.
pub fn unsupported(name: &str, reason: &str) -> (r: AdapterError)
    ensures
        r.deep_view() == ErrorV::UnsupportedFeature(name@, reason@),
{
    AdapterError::UnsupportedFeature(name.to_owned(), reason.to_owned())
}

} // verus!
