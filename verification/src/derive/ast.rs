//! A type for which a metadata type is generated, built from its layout.

use crate::derive::attr::{asked_name, passed_attrs, ContainerAttributes};
use crate::derive::context::Context;
use crate::derive::layout::{
    all_known, DataLayout, FieldLayout, FieldsLayout, TypeLayout, VariantLayout,
};
use proc_macro2::Span;
use vstd::prelude::*;

verus! {

/// How the fields of a struct or of a variant are written.
#[derive(Debug, Clone, Copy, PartialEq, Eq)]
pub enum Style {
    /// Named fields.
    Struct,
    /// Many unnamed fields.
    Tuple,
    /// One unnamed field.
    Newtype,
    /// No fields.
    Unit,
}

/// How a field is reached: by its name, or by its position.
#[derive(Debug, Clone, PartialEq, Eq)]
pub enum Member {
    /// A field with a name.
    Named(String),
    /// A field without a name, at this position.
    Unnamed(usize),
}

/// A field of a struct or of a variant.
#[derive(Debug, Clone, PartialEq, Eq)]
pub struct Field {
    /// How the field is reached.
    pub member: Member,
    /// The type of the field, as written.
    pub ty: String,
}

/// A variant of an enum.
#[derive(Debug, Clone, PartialEq, Eq)]
pub struct Variant {
    /// The name of the variant.
    pub ident: String,
    /// How the fields of the variant are written.
    pub style: Style,
    /// The fields of the variant.
    pub fields: Vec<Field>,
}

/// The contents of a struct or enum.
#[derive(Debug, Clone, PartialEq, Eq)]
pub enum Data {
    /// An enum, with its variants.
    Enum(Vec<Variant>),
    /// A struct, with its fields.
    Struct(Style, Vec<Field>),
}

/// A type for which a metadata type is generated.
#[derive(Debug, Clone, PartialEq, Eq)]
pub struct Container {
    /// The name of the type.
    pub ident: String,
    /// The attributes of the type.
    pub attributes: ContainerAttributes,
    /// The contents of the type.
    pub data: Data,
}

/// The member that stands for the field `field` at position `position`.
pub open spec fn member_of(field: FieldLayout, position: int) -> Member {
    match field.ident {
        Some(ident) => Member::Named(ident),
        None => Member::Unnamed(position as usize),
    }
}

/// The fields that `fields` describe, in the same order.
pub fn fields_from_ast(fields: &Vec<FieldLayout>) -> (built: Vec<Field>)
    ensures
        built@.len() == fields@.len(),
        forall|i: int|
            0 <= i < fields@.len() ==> #[trigger] built@[i] == (Field {
                member: member_of(fields@[i], i),
                ty: fields@[i].ty,
            }),
{
    let mut built: Vec<Field> = Vec::new();
    let mut i: usize = 0;
    while i < fields.len()
        invariant
            i <= fields@.len(),
            built@.len() == i,
            forall|j: int|
                0 <= j < i ==> #[trigger] built@[j] == (Field {
                    member: member_of(fields@[j], j),
                    ty: fields@[j].ty,
                }),
        decreases fields@.len() - i,
    {
        let member = match &fields[i].ident {
            Some(ident) => Member::Named(ident.clone()),
            None => Member::Unnamed(i),
        };
        built.push(Field { member, ty: fields[i].ty.clone() });
        i += 1;
    }
    built
}

/// How `fields` are written.
pub open spec fn style_of(fields: FieldsLayout) -> Style {
    match fields {
        FieldsLayout::Named(_) => Style::Struct,
        FieldsLayout::Unnamed(_) => Style::Tuple,
        FieldsLayout::Unit => Style::Unit,
    }
}

/// The fields that `fields` hold, as the parser reports them.
pub open spec fn layouts_of(fields: FieldsLayout) -> Seq<FieldLayout> {
    match fields {
        FieldsLayout::Named(fields) => fields@,
        FieldsLayout::Unnamed(fields) => fields@,
        FieldsLayout::Unit => Seq::empty(),
    }
}

/// Whether `style` and `built` are what `fields` describe.
pub open spec fn built_from(fields: FieldsLayout, style: Style, built: Seq<Field>) -> bool {
    &&& style == style_of(fields)
    &&& built.len() == layouts_of(fields).len()
    &&& forall|i: int|
        0 <= i < built.len() ==> #[trigger] built[i] == (Field {
            member: member_of(layouts_of(fields)[i], i),
            ty: layouts_of(fields)[i].ty,
        })
}

/// The style and the fields that `fields` describe. Fields in parentheses
/// make a tuple, however many there are.
pub fn struct_from_ast(fields: &FieldsLayout) -> (built: (Style, Vec<Field>))
    ensures
        built_from(*fields, built.0, built.1@),
{
    match fields {
        FieldsLayout::Named(fields) => (Style::Struct, fields_from_ast(fields)),
        FieldsLayout::Unnamed(fields) => (Style::Tuple, fields_from_ast(fields)),
        FieldsLayout::Unit => (Style::Unit, Vec::new()),
    }
}

/// The variants that `variants` describe, in the same order.
pub fn enum_from_ast(variants: &Vec<VariantLayout>) -> (built: Vec<Variant>)
    ensures
        built@.len() == variants@.len(),
        forall|i: int|
            0 <= i < variants@.len() ==> {
                &&& (#[trigger] built@[i]).ident == variants@[i].ident
                &&& built_from(variants@[i].fields, built@[i].style, built@[i].fields@)
            },
{
    let mut built: Vec<Variant> = Vec::new();
    let mut i: usize = 0;
    while i < variants.len()
        invariant
            i <= variants@.len(),
            built@.len() == i,
            forall|j: int|
                0 <= j < i ==> {
                    &&& (#[trigger] built@[j]).ident == variants@[j].ident
                    &&& built_from(variants@[j].fields, built@[j].style, built@[j].fields@)
                },
        decreases variants@.len() - i,
    {
        let (style, fields) = struct_from_ast(&variants[i].fields);
        built.push(Variant { ident: variants[i].ident.clone(), style, fields });
        i += 1;
    }
    built
}

/// Whether `data` is what `layout` describes.
pub open spec fn data_from(layout: DataLayout, data: Data) -> bool {
    match layout {
        DataLayout::Enum(variants) => {
            &&& data matches Data::Enum(built)
            &&& built@.len() == variants@.len()
            &&& forall|i: int|
                0 <= i < variants@.len() ==> {
                    &&& (#[trigger] built@[i]).ident == variants@[i].ident
                    &&& built_from(variants@[i].fields, built@[i].style, built@[i].fields@)
                }
        },
        DataLayout::Struct(fields) => {
            &&& data matches Data::Struct(style, built)
            &&& built_from(fields, style, built@)
        },
        DataLayout::Union => false,
    }
}

impl Container {
    /// Builds the container that `item` describes. A union has none: an
    /// error at `span` goes to `cx`, and nothing is built.
    pub fn from_ast(cx: &mut Context, item: &TypeLayout, span: Span) -> (built: Option<Container>)
        requires
            all_known(item.meta@),
        ensures
            built is None <==> item.data is Union,
            built matches Some(container) ==> {
                &&& container.ident == item.ident
                &&& container.attributes.meta.name == asked_name(
                    item.meta@,
                    item.meta@.len() as int,
                )
                &&& container.attributes.meta.attr@ == passed_attrs(
                    item.meta@,
                    item.meta@.len() as int,
                )
                &&& data_from(item.data, container.data)
                &&& final(cx).errors() == old(cx).errors()
            },
            built is None ==> {
                &&& final(cx).errors().len() == old(cx).errors().len() + 1
                &&& final(cx).errors().drop_last() == old(cx).errors()
                &&& final(cx).messages() == old(cx).messages().push(
                    "automatic `MetaType` derive does not support `union` types"@,
                )
            },
    {
        let attributes = ContainerAttributes::from_ast(item);
        let data = match &item.data {
            DataLayout::Enum(variants) => Data::Enum(enum_from_ast(variants)),
            DataLayout::Struct(fields) => {
                let (style, fields) = struct_from_ast(fields);
                Data::Struct(style, fields)
            },
            DataLayout::Union => {
                cx.error_spanned_by(
                    span,
                    "automatic `MetaType` derive does not support `union` types",
                );
                return None;
            },
        };
        Some(Container { ident: item.ident.clone(), attributes, data })
    }
}

/// All fields of `variants`, variant by variant.
pub open spec fn fields_of_variants(variants: Seq<Variant>) -> Seq<Field>
    decreases variants.len(),
{
    if variants.len() == 0 {
        Seq::empty()
    } else {
        fields_of_variants(variants.drop_last()) + variants.last().fields@
    }
}

impl Data {
    /// What [`Data::all_fields`] returns: the fields of a struct, or the
    /// fields of all variants of an enum, variant by variant.
    pub open spec fn fields(&self) -> Seq<Field> {
        match self {
            Data::Enum(variants) => fields_of_variants(variants@),
            Data::Struct(_, fields) => fields@,
        }
    }

    /// Every field of the struct or enum.
    pub fn all_fields(&self) -> (all: Vec<&Field>)
        ensures
            all@.len() == self.fields().len(),
            forall|i: int| 0 <= i < all@.len() ==> *(#[trigger] all@[i]) == self.fields()[i],
    {
        let mut all: Vec<&Field> = Vec::new();
        match self {
            Data::Enum(variants) => {
                let mut v: usize = 0;
                assert(variants@.take(0) =~= Seq::<Variant>::empty());
                while v < variants.len()
                    invariant
                        v <= variants@.len(),
                        all@.len() == fields_of_variants(variants@.take(v as int)).len(),
                        forall|i: int|
                            0 <= i < all@.len() ==> *(#[trigger] all@[i]) == fields_of_variants(
                                variants@.take(v as int),
                            )[i],
                    decreases variants@.len() - v,
                {
                    let fields = &variants[v].fields;
                    let ghost done = fields_of_variants(variants@.take(v as int));
                    proof {
                        assert(variants@.take(v + 1).drop_last() =~= variants@.take(v as int));
                    }
                    let mut f: usize = 0;
                    while f < fields.len()
                        invariant
                            f <= fields@.len(),
                            all@.len() == done.len() + f,
                            forall|i: int|
                                0 <= i < all@.len() ==> *(#[trigger] all@[i]) == (done
                                    + fields@)[i],
                        decreases fields@.len() - f,
                    {
                        all.push(&fields[f]);
                        f += 1;
                    }
                    v += 1;
                }
                proof {
                    assert(variants@.take(v as int) =~= variants@);
                }
            },
            Data::Struct(_, fields) => {
                let mut f: usize = 0;
                while f < fields.len()
                    invariant
                        f <= fields@.len(),
                        all@.len() == f,
                        forall|i: int| 0 <= i < f ==> *(#[trigger] all@[i]) == fields@[i],
                    decreases fields@.len() - f,
                {
                    all.push(&fields[f]);
                    f += 1;
                }
            },
        }
        all
    }

    /// Whether a field is read through a getter. None is.
    pub fn has_getter(&self) -> (getter: bool)
        ensures
            getter == false,
    {
        false
    }
}

} // verus!
