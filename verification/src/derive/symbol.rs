//! The names that the generator knows.

use vstd::prelude::*;
use vstd::string::StringExecFns;

verus! {

/// A name that an attribute or one of its arguments can have, such as
/// `Symbol(META)`.
#[derive(Debug, Clone, Copy)]
pub struct Symbol(pub &'static str);

/// The argument that passes attributes on to the metadata type.
pub const ATTR: &'static str = "attr";

/// The attribute that holds the arguments for the metadata type.
pub const META: &'static str = "meta";

/// The argument that names the metadata type.
pub const NAME: &'static str = "name";

/// The attribute of this library.
pub const RICH: &'static str = "rich";

impl Symbol {
    /// The name as text.
    pub fn as_str(&self) -> (text: &'static str)
        ensures
            text == self.0,
    {
        self.0
    }

    /// Whether `path` is this name.
    pub fn matches(&self, path: &str) -> (same: bool)
        ensures
            same == (path@ == self.0@),
    {
        path.to_owned() == self.0.to_owned()
    }
}

/// What an argument of a `meta` attribute is, going by its name.
#[derive(Debug, Clone, Copy, PartialEq, Eq)]
pub enum ArgumentKind {
    /// `attr(..)`: attributes to pass on to the metadata type.
    Attr,
    /// `name = ..`: the name of the metadata type.
    Name,
    /// An argument that the generator does not know.
    Unknown,
}

/// What the argument with the name `path` is.
pub open spec fn kind_of(path: Seq<char>) -> ArgumentKind {
    if path == ATTR@ {
        ArgumentKind::Attr
    } else if path == NAME@ {
        ArgumentKind::Name
    } else {
        ArgumentKind::Unknown
    }
}

/// What the argument with the name `path` is.
pub fn argument_kind(path: &str) -> (kind: ArgumentKind)
    ensures
        kind == kind_of(path@),
{
    if Symbol(ATTR).matches(path) {
        ArgumentKind::Attr
    } else if Symbol(NAME).matches(path) {
        ArgumentKind::Name
    } else {
        ArgumentKind::Unknown
    }
}

/// What to say of an argument with the name `path` that the generator does
/// not know.
pub fn unknown_argument_message(path: &str) -> (message: String)
    ensures
        message@ == "unknown rich container attribute `"@ + path@ + "`"@,
{
    "unknown rich container attribute `".to_owned().concat(path).concat("`")
}

} // verus!
