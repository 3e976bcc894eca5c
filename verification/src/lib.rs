//! Provenance metadata for decoded data trees.
//!
//! Every node of a decoded value receives an identifier from a [`RichScope`].
//! The identifiers live in a metadata tree of the same shape as the value,
//! never inside the value itself.
//!
//! - [`scope`] issues the identifiers of one decoding session, in increasing
//!   order.
//! - [`meta`] holds the pairs that carry identifiers: a value with its
//!   metadata, and an identifier with the metadata below it.
//! - [`projection`] says, between types, what shape the metadata of a type
//!   has.
//! - [`value`] models documents whose shape the input decides, and the
//!   metadata that mirrors them; [`attach`] decodes such a document and
//!   numbers its nodes bottom-up, and [`view`] walks a document and its
//!   metadata in step.
//! - [`record`] decodes values whose fields are known ahead of time, and
//!   [`split`] takes the identifiers out of such a value; [`arena`] decodes a
//!   record and notes where its fields stood.
//! - [`derive`] settles what the metadata type of a declared type looks like.
//!
//! The library reads no input itself. A decoder reports what it met as
//! [`attach::Event`]s, and a parser reports the layout of a type as a
//! [`derive::TypeLayout`].

pub mod arena;
pub mod attach;
pub mod derive;
pub mod meta;
pub mod object_map;
pub mod projection;
pub mod record;
pub mod scope;
pub mod seed;
pub mod split;
pub mod value;
pub mod view;

pub use arena::add;
pub use meta::{EmptyMeta, MetaId, Rich, RichPrimitive, TreeMeta, WrappedMeta};
pub use scope::RichScope;
