//! What the attributes of a type ask of its metadata type.

use crate::derive::layout::{all_known, MetaArgument, TypeLayout};
use vstd::prelude::*;

verus! {

/// What the `meta` attributes of a type ask of its metadata type.
#[derive(Debug, Clone, PartialEq, Eq)]
pub struct ContainerMetaAttributes {
    /// The name of the metadata type, if one is asked for.
    pub name: Option<String>,
    /// Attributes to put on the metadata type.
    pub attr: Vec<String>,
}

/// The attributes of a type that the generator reads.
#[derive(Debug, Clone, PartialEq, Eq)]
pub struct ContainerAttributes {
    /// What is asked of the metadata type.
    pub meta: ContainerMetaAttributes,
}

/// The name that the first `n` of `arguments` ask for: that of the last
/// `name = ..` among them.
pub open spec fn asked_name(arguments: Seq<MetaArgument>, n: int) -> Option<String>
    decreases n,
{
    if n <= 0 {
        None
    } else {
        match arguments[n - 1] {
            MetaArgument::Name(name) => Some(name),
            _ => asked_name(arguments, n - 1),
        }
    }
}

/// The attributes that the first `n` of `arguments` pass on: what each
/// `attr(..)` among them holds, in their order.
pub open spec fn passed_attrs(arguments: Seq<MetaArgument>, n: int) -> Seq<String>
    decreases n,
{
    if n <= 0 {
        Seq::empty()
    } else {
        match arguments[n - 1] {
            MetaArgument::Attr(tokens) => passed_attrs(arguments, n - 1).push(tokens),
            _ => passed_attrs(arguments, n - 1),
        }
    }
}

impl ContainerAttributes {
    /// Reads the arguments of the `meta` attributes of `item`: the last name
    /// that is asked for, and every attribute that is passed on. The
    /// generator has to know every argument.
    pub fn from_ast(item: &TypeLayout) -> (attributes: Self)
        requires
            all_known(item.meta@),
        ensures
            attributes.meta.name == asked_name(item.meta@, item.meta@.len() as int),
            attributes.meta.attr@ == passed_attrs(item.meta@, item.meta@.len() as int),
    {
        let mut attr: Vec<String> = Vec::new();
        let mut name: Option<String> = None;
        let mut i: usize = 0;
        while i < item.meta.len()
            invariant
                i <= item.meta@.len(),
                name == asked_name(item.meta@, i as int),
                attr@ == passed_attrs(item.meta@, i as int),
            decreases item.meta@.len() - i,
        {
            match &item.meta[i] {
                MetaArgument::Attr(tokens) => {
                    attr.push(tokens.clone());
                },
                MetaArgument::Name(value) => {
                    name = Some(value.clone());
                },
                MetaArgument::Unknown(_) => {},
            }
            i += 1;
        }
        ContainerAttributes { meta: ContainerMetaAttributes { name, attr } }
    }
}

} // verus!
