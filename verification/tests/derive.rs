//! The generator's decisions, with `syn` as the parser.

use proc_macro2::{Group, Span, TokenStream};
use rich::derive::{
    argument_kind, expand_derive_meta_type, expand_derive_rich_deserialize,
    unknown_argument_message, ArgumentKind, Container, Context, Data, DataLayout, Field,
    FieldLayout, FieldsLayout, Member, MetaArgument, MetaBody, MetaDeclaration, Style, Symbol,
    TypeLayout, VariantLayout, ATTR, META, NAME, RICH,
};
use std::str::FromStr;
use syn::spanned::Spanned;

fn text(tokens: TokenStream) -> String {
    tokens.to_string()
}

fn fields_layout(fields: &syn::Fields) -> FieldsLayout {
    let layout = |field: &syn::Field| FieldLayout {
        ident: field.ident.as_ref().map(|ident| ident.to_string()),
        ty: text(quote::ToTokens::to_token_stream(&field.ty)),
    };
    match fields {
        syn::Fields::Named(fields) => FieldsLayout::Named(fields.named.iter().map(layout).collect()),
        syn::Fields::Unnamed(fields) => {
            FieldsLayout::Unnamed(fields.unnamed.iter().map(layout).collect())
        }
        syn::Fields::Unit => FieldsLayout::Unit,
    }
}

fn layout_of(item: &syn::DeriveInput) -> TypeLayout {
    let mut meta = Vec::new();
    for attr in &item.attrs {
        if !Symbol(META).matches(&text(quote::ToTokens::to_token_stream(attr.path()))) {
            continue;
        }
        if let syn::Meta::List(list) = &attr.meta {
            if list.tokens.is_empty() {
                continue;
            }
        }
        attr.parse_nested_meta(|nested| {
            let path = text(quote::ToTokens::to_token_stream(&nested.path)).replace(' ', "");
            match argument_kind(&path) {
                ArgumentKind::Attr => {
                    let group: Group = nested.input.parse()?;
                    meta.push(MetaArgument::Attr(text(group.stream())));
                }
                ArgumentKind::Name => {
                    let value = nested.value()?.parse::<syn::Ident>()?;
                    meta.push(MetaArgument::Name(value.to_string()));
                }
                ArgumentKind::Unknown => meta.push(MetaArgument::Unknown(path)),
            }
            Ok(())
        })
        .expect("invalid nested meta");
    }
    let data = match &item.data {
        syn::Data::Enum(data) => DataLayout::Enum(
            data.variants
                .iter()
                .map(|variant| VariantLayout {
                    ident: variant.ident.to_string(),
                    fields: fields_layout(&variant.fields),
                })
                .collect(),
        ),
        syn::Data::Struct(data) => DataLayout::Struct(fields_layout(&data.fields)),
        syn::Data::Union(_) => DataLayout::Union,
    };
    TypeLayout { ident: item.ident.to_string(), meta, data }
}

fn parse(input: &str) -> (TypeLayout, Span) {
    let item: syn::DeriveInput = syn::parse_str(input).expect("parsing succeeds");
    (layout_of(&item), item.span())
}

fn render(declaration: &MetaDeclaration) -> String {
    let meta_ident = &declaration.meta_ident;
    let meta_type = match &declaration.body {
        MetaBody::Unit { attrs } => {
            let attrs: String = attrs.iter().map(|attr| format!("#[{attr}]")).collect();
            format!("{attrs} pub struct {meta_ident};")
        }
        MetaBody::Newtype => format!("#[derive(Default)] pub struct {meta_ident}(u32);"),
        MetaBody::Struct => format!("#[derive(Default)] pub struct {meta_ident} {{ foo: u32, }}"),
    };
    let source = format!(
        "#[doc(hidden)]
        #[allow(non_upper_case_globals, unused_attributes, unused_qualifications, clippy::absolute_paths)]
        const _: () = {{
            #[allow(unused_extern_crates, clippy::useless_attribute)]
            extern crate rich as _rich;
            {meta_type}
            #[automatically_derived]
            impl _rich::MetaType for {ident} {{
                type Meta = {meta_ident};
            }}
        }};",
        ident = declaration.ident,
    );
    text(TokenStream::from_str(&source).expect("the declaration is Rust"))
}

fn messages(error: syn::Error) -> Vec<String> {
    error.into_iter().map(|error| error.to_string()).collect()
}

#[test]
fn unit_struct() {
    let (input, span) = parse(
        "#[meta(name = MetaUnit, attr(derive(Default, Debug)))]
        struct MyUnit;",
    );

    let actual = expand_derive_rich_deserialize(&input, span).expect("derive succeeds");

    let expected = TokenStream::from_str(
        "#[doc(hidden)]
        #[allow(non_upper_case_globals, unused_attributes, unused_qualifications, clippy::absolute_paths)]
        const _: () = {
            #[allow(unused_extern_crates, clippy::useless_attribute)]
            extern crate rich as _rich;

            #[derive(Default, Debug)]
            pub struct MetaUnit;

            #[automatically_derived]
            impl _rich::MetaType for MyUnit {
                type Meta = MetaUnit;
            }
        };",
    )
    .unwrap();

    assert_eq!(render(&actual), expected.to_string());
    assert_eq!(
        actual,
        MetaDeclaration {
            ident: String::from("MyUnit"),
            meta_ident: String::from("MetaUnit"),
            body: MetaBody::Unit { attrs: vec![String::from("derive (Default , Debug)")] },
        }
    );
}

#[test]
fn metadata_type_is_named_after_the_type() {
    let (input, span) = parse("struct Point { x: u32, y: u32 }");
    let declaration = expand_derive_rich_deserialize(&input, span).unwrap();
    assert_eq!(
        declaration,
        MetaDeclaration {
            ident: String::from("Point"),
            meta_ident: String::from("PointMeta"),
            body: MetaBody::Newtype,
        }
    );
}

#[test]
fn the_last_name_asked_for_counts() {
    let (input, span) = parse("#[meta(name = First)] #[meta(name = Second)] struct Pair(u8, u8);");
    let declaration = expand_derive_rich_deserialize(&input, span).unwrap();
    assert_eq!(declaration.meta_ident, "Second");
    assert_eq!(declaration.body, MetaBody::Newtype);
}

#[test]
fn an_enum_gets_a_struct() {
    let (input, span) = parse("enum Shape { Dot, Line(u8), Box { w: u8, h: u8 } }");
    let declaration = expand_derive_rich_deserialize(&input, span).unwrap();
    assert_eq!(declaration.meta_ident, "ShapeMeta");
    assert_eq!(declaration.body, MetaBody::Struct);
}

#[test]
fn a_union_has_no_metadata_type() {
    let (input, span) = parse("union Bits { a: u32, b: f32 }");
    let error = expand_derive_rich_deserialize(&input, span).unwrap_err();
    assert_eq!(
        messages(error),
        vec![String::from("automatic `MetaType` derive does not support `union` types")]
    );

    let error = expand_derive_meta_type(&input, span).unwrap_err();
    assert_eq!(messages(error), vec![String::from("failed to build `Container` ast")]);
}

#[test]
fn plain_metadata_type_goes_to_the_type() {
    let (input, span) = parse("struct Opaque;");
    assert_eq!(expand_derive_meta_type(&input, span).unwrap(), "Opaque");
}

#[test]
fn container_mirrors_the_layout() {
    let (input, span) = parse(
        "#[meta(attr(derive(Debug)), attr(allow(unused)))]
        enum Shape { Dot, Line(u8, u16), Box { w: u8 } }",
    );
    let mut cx = Context::new();
    let container = Container::from_ast(&mut cx, &input, span).unwrap();
    assert!(cx.check().is_ok());

    assert_eq!(container.ident, "Shape");
    assert_eq!(container.attributes.meta.name, None);
    assert_eq!(
        container.attributes.meta.attr,
        vec![String::from("derive (Debug)"), String::from("allow (unused)")]
    );
    let Data::Enum(variants) = &container.data else {
        panic!("an enum");
    };
    assert_eq!(variants.len(), 3);
    assert_eq!(variants[0].ident, "Dot");
    assert_eq!(variants[0].style, Style::Unit);
    assert!(variants[0].fields.is_empty());
    assert_eq!(variants[1].style, Style::Tuple);
    assert_eq!(
        variants[1].fields,
        vec![
            Field { member: Member::Unnamed(0), ty: String::from("u8") },
            Field { member: Member::Unnamed(1), ty: String::from("u16") },
        ]
    );
    assert_eq!(variants[2].style, Style::Struct);
    assert_eq!(
        variants[2].fields,
        vec![Field { member: Member::Named(String::from("w")), ty: String::from("u8") }]
    );

    let all: Vec<&Field> = container.data.all_fields();
    assert_eq!(all.len(), 3);
    assert_eq!(all[0].member, Member::Unnamed(0));
    assert_eq!(all[2].member, Member::Named(String::from("w")));
    assert!(!container.data.has_getter());
}

#[test]
fn a_single_unnamed_field_makes_a_tuple() {
    let (input, span) = parse("struct Wrapper(u8);");
    let mut cx = Context::new();
    let container = Container::from_ast(&mut cx, &input, span).unwrap();
    assert!(cx.check().is_ok());
    assert!(matches!(container.data, Data::Struct(Style::Tuple, _)));
}

#[test]
fn unknown_arguments_are_found() {
    let (input, _) = parse("#[other(x)] #[meta(name = A, rename)] struct S;");
    assert_eq!(input.meta.len(), 2);
    assert_eq!(input.unknown_argument(), Some(1));
    assert_eq!(input.meta[1], MetaArgument::Unknown(String::from("rename")));

    let (input, _) = parse("#[meta(name = A)] #[meta()] struct S;");
    assert_eq!(input.unknown_argument(), None);
}

#[test]
fn context_combines_its_errors_in_order() {
    let mut cx = Context::new();
    cx.error_spanned_by(Span::call_site(), "first");
    let mut second = syn::Error::new(Span::call_site(), "second");
    second.combine(syn::Error::new(Span::call_site(), "third"));
    cx.syn_error(second);
    cx.error_spanned_by(Span::call_site(), "fourth");

    let combined = cx.check().unwrap_err();
    assert_eq!(combined.to_string(), "first");
    assert_eq!(messages(combined), vec!["first", "second", "third", "fourth"]);
}

#[test]
fn context_without_errors_is_fine() {
    assert!(Context::new().check().is_ok());
}

#[test]
fn arguments_go_by_their_names() {
    assert_eq!(argument_kind("attr"), ArgumentKind::Attr);
    assert_eq!(argument_kind("name"), ArgumentKind::Name);
    assert_eq!(argument_kind("meta"), ArgumentKind::Unknown);
    assert_eq!(argument_kind(""), ArgumentKind::Unknown);
    assert_eq!(argument_kind("rename"), ArgumentKind::Unknown);
    assert_eq!(
        unknown_argument_message("rename"),
        "unknown rich container attribute `rename`"
    );
}

#[test]
fn symbols() {
    assert_eq!(Symbol(ATTR).as_str(), "attr");
    assert_eq!(Symbol(META).as_str(), "meta");
    assert_eq!(Symbol(NAME).as_str(), "name");
    assert_eq!(Symbol(RICH).as_str(), "rich");
    assert!(Symbol(META).matches("meta"));
    assert!(!Symbol(META).matches("metal"));
    assert!(!Symbol(META).matches("name"));
}
