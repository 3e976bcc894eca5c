//! The layout of a type, as a parser reports it.

use vstd::prelude::*;

verus! {

/// One field, as the parser reports it.
#[derive(Debug, Clone, PartialEq, Eq)]
pub struct FieldLayout {
    /// The name of the field, if it has one.
    pub ident: Option<String>,
    /// The type of the field, as written.
    pub ty: String,
}

/// The fields of a struct or of a variant, as the parser reports them.
#[derive(Debug, Clone, PartialEq, Eq)]
pub enum FieldsLayout {
    /// Fields in braces, with names.
    Named(Vec<FieldLayout>),
    /// Fields in parentheses, without names.
    Unnamed(Vec<FieldLayout>),
    /// No fields at all.
    Unit,
}

/// One variant of an enum, as the parser reports it.
#[derive(Debug, Clone, PartialEq, Eq)]
pub struct VariantLayout {
    /// The name of the variant.
    pub ident: String,
    /// The fields of the variant.
    pub fields: FieldsLayout,
}

/// What a type is made of, as the parser reports it.
#[derive(Debug, Clone, PartialEq, Eq)]
pub enum DataLayout {
    /// An enum, with its variants.
    Enum(Vec<VariantLayout>),
    /// A struct, with its fields.
    Struct(FieldsLayout),
    /// A union.
    Union,
}

/// One argument of a `meta` attribute, as the parser reports it.
#[derive(Debug, Clone, PartialEq, Eq)]
pub enum MetaArgument {
    /// `attr(..)`, with what stands in the parentheses.
    Attr(String),
    /// `name = ..`, with the name given.
    Name(String),
    /// An argument that the generator does not know, with its name.
    Unknown(String),
}

/// The layout of a type, as the parser reports it.
#[derive(Debug, Clone, PartialEq, Eq)]
pub struct TypeLayout {
    /// The name of the type.
    pub ident: String,
    /// The arguments of the `meta` attributes of the type, in their order.
    pub meta: Vec<MetaArgument>,
    /// What the type is made of.
    pub data: DataLayout,
}

/// Whether the generator knows every one of `arguments`.
pub open spec fn all_known(arguments: Seq<MetaArgument>) -> bool {
    forall|i: int| 0 <= i < arguments.len() ==> !(#[trigger] arguments[i] is Unknown)
}

impl TypeLayout {
    /// The position of the first argument of a `meta` attribute that the
    /// generator does not know, if there is one.
    pub fn unknown_argument(&self) -> (found: Option<usize>)
        ensures
            found is None <==> all_known(self.meta@),
            found matches Some(i) ==> {
                &&& i < self.meta@.len()
                &&& self.meta@[i as int] is Unknown
                &&& forall|j: int| 0 <= j < i ==> !(#[trigger] self.meta@[j] is Unknown)
            },
    {
        let mut i: usize = 0;
        while i < self.meta.len()
            invariant
                i <= self.meta@.len(),
                forall|j: int| 0 <= j < i ==> !(#[trigger] self.meta@[j] is Unknown),
            decreases self.meta@.len() - i,
        {
            match &self.meta[i] {
                MetaArgument::Unknown(_) => {
                    return Some(i);
                },
                _ => {},
            }
            i += 1;
        }
        None
    }
}

} // verus!
