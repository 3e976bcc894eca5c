//! What a generator of metadata types decides, given the layout of a type.
//!
//! A parser reads the declaration of a type and reports its layout: the name,
//! the arguments of its `meta` attributes, and its fields. From the layout
//! this module builds a [`Container`], and settles what the metadata type of
//! the container is called and what it looks like. Writing the declaration
//! out is left to the caller.

pub mod ast;
pub mod attr;
pub mod context;
pub mod layout;
pub mod symbol;

pub use ast::{Container, Data, Field, Member, Style, Variant};
pub use attr::{ContainerAttributes, ContainerMetaAttributes};
pub use context::Context;
pub use layout::{
    DataLayout, FieldLayout, FieldsLayout, MetaArgument, TypeLayout, VariantLayout,
};
pub use symbol::{
    argument_kind, unknown_argument_message, ArgumentKind, Symbol, ATTR, META, NAME, RICH,
};

use crate::derive::attr::{asked_name, passed_attrs};
use crate::derive::context::{error_messages, new_error};
use crate::derive::layout::all_known;
use proc_macro2::Span;
use vstd::prelude::*;
use vstd::string::StringExecFns;

verus! {

/// What the declaration of a metadata type holds.
#[derive(Debug, Clone, PartialEq, Eq)]
pub enum MetaBody {
    /// A struct without fields, under the attributes that were passed on.
    Unit {
        /// The attributes to put on the struct.
        attrs: Vec<String>,
    },
    /// A struct with one unnamed field.
    Newtype,
    /// A struct with one named field.
    Struct,
}

/// The declaration of a metadata type, and the type that it belongs to.
#[derive(Debug, Clone, PartialEq, Eq)]
pub struct MetaDeclaration {
    /// The type that gets the metadata type.
    pub ident: String,
    /// The name of the metadata type.
    pub meta_ident: String,
    /// What the declaration holds.
    pub body: MetaBody,
}

/// The name of the metadata type of a type called `ident`: the name that was
/// asked for, or else the name of the type with `Meta` behind it.
pub open spec fn meta_name(ident: Seq<char>, asked: Option<String>) -> Seq<char> {
    match asked {
        Some(name) => name@,
        None => ident + "Meta"@,
    }
}

/// Whether `body` is the body of the metadata type of a type made of `data`,
/// with the passed-on attributes `attrs`: a struct with one named field for
/// an enum, a struct without fields for a struct without fields, and a
/// struct with one unnamed field for any other struct.
pub open spec fn body_of(data: DataLayout, attrs: Seq<String>, body: MetaBody) -> bool {
    match data {
        DataLayout::Enum(_) => body == MetaBody::Struct,
        DataLayout::Struct(FieldsLayout::Unit) => body matches MetaBody::Unit { attrs: passed }
            && passed@ == attrs,
        DataLayout::Struct(_) => body == MetaBody::Newtype,
        DataLayout::Union => false,
    }
}

/// Settles the metadata type of the type that `input` describes, which
/// stands at `span`.
///
/// A union has no metadata type: the error says so. The generator has to
/// know every argument of the `meta` attributes.
pub fn expand_derive_rich_deserialize(input: &TypeLayout, span: Span) -> (expanded: Result<
    MetaDeclaration,
    syn::Error,
>)
    requires
        all_known(input.meta@),
    ensures
        expanded is Err <==> input.data is Union,
        expanded matches Err(error) ==> error_messages(error)
            == seq!["automatic `MetaType` derive does not support `union` types"@],
        expanded matches Ok(declaration) ==> {
            &&& declaration.ident == input.ident
            &&& declaration.meta_ident@ == meta_name(
                input.ident@,
                asked_name(input.meta@, input.meta@.len() as int),
            )
            &&& body_of(
                input.data,
                passed_attrs(input.meta@, input.meta@.len() as int),
                declaration.body,
            )
        },
{
    let mut cx = Context::new();
    let container = match Container::from_ast(&mut cx, input, span) {
        Some(container) => container,
        None => {
            proof {
                assert(cx.messages() =~= seq![
                    "automatic `MetaType` derive does not support `union` types"@,
                ]);
            }
            return match cx.check() {
                Err(error) => Err(error),
                Ok(()) => Err(new_error(span, "failed to build `Container` ast")),
            };
        },
    };
    let meta_ident = match &container.attributes.meta.name {
        Some(name) => name.clone(),
        None => container.ident.clone().concat("Meta"),
    };
    let body = match &container.data {
        Data::Enum(_) => MetaBody::Struct,
        Data::Struct(Style::Unit, _) => MetaBody::Unit {
            attrs: container.attributes.meta.attr.clone(),
        },
        Data::Struct(_, _) => MetaBody::Newtype,
    };
    match cx.check() {
        Ok(()) => Ok(MetaDeclaration { ident: container.ident, meta_ident, body }),
        Err(error) => Err(error),
    }
}

/// Settles for which type the plain metadata type is declared: for the type
/// that `input` describes, which stands at `span`, unless it is a union.
pub fn expand_derive_meta_type(input: &TypeLayout, span: Span) -> (expanded: Result<
    String,
    syn::Error,
>)
    requires
        all_known(input.meta@),
    ensures
        expanded is Err <==> input.data is Union,
        expanded matches Err(error) ==> error_messages(error)
            == seq!["failed to build `Container` ast"@],
        expanded matches Ok(ident) ==> ident == input.ident,
{
    let mut cx = Context::new();
    let built = Container::from_ast(&mut cx, input, span);
    let _ = cx.check();
    match built {
        Some(container) => Ok(container.ident),
        None => Err(new_error(span, "failed to build `Container` ast")),
    }
}

} // verus!
