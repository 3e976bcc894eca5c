//! Documents whose shape is known only once they are decoded, and the
//! metadata that mirrors them.

use crate::meta::{MetaId, WrappedMeta};
use crate::object_map::{is_first, ObjectMap};
use crate::projection::{StructuralProjection, WrappedMetaProjector};
use vstd::prelude::*;

verus! {

/// A document: one of six shapes, chosen by the input.
#[derive(Debug, PartialEq, Eq)]
pub enum Value {
    /// Nothing.
    Null,
    /// A truth value.
    Bool(bool),
    /// A whole number.
    Number(i64),
    /// A text.
    String(String),
    /// Documents in a row.
    Array(Vec<Value>),
    /// Documents under keys.
    Object(ObjectMap<Value>),
}

/// The metadata of one node of a document: the node's own identifier, and
/// below it the metadata of what the node holds.
pub type NodeMeta = WrappedMeta<Option<ValueMeta>>;

/// The metadata of what a document node holds. Its variant is that of the
/// document it describes.
#[derive(Debug, PartialEq, Eq)]
pub enum ValueMeta {
    /// Metadata of [`Value::Null`].
    Null(WrappedMeta<()>),
    /// Metadata of the truth value in a [`Value::Bool`].
    Bool(WrappedMeta<()>),
    /// Identifier of the number in a [`Value::Number`].
    Number(MetaId),
    /// Metadata of the text in a [`Value::String`].
    String(WrappedMeta<()>),
    /// Metadata of each element of a [`Value::Array`], in the same order.
    Array(Vec<NodeMeta>),
    /// Metadata of each member of a [`Value::Object`], under the same key.
    Object(ObjectMap<NodeMeta>),
}

/// The metadata that decoding puts beside what a document holds is a
/// [`ValueMeta`], or nothing where none is known; with the identifier of the
/// document on top it is a [`NodeMeta`].
impl StructuralProjection<WrappedMetaProjector> for Value {
    type Projection = Option<ValueMeta>;
}

/// Shape isomorphism: `meta` branches exactly as `value` does. The two have
/// the same variant; arrays have the same length, objects the same keys; and
/// the same holds of each element and its metadata, all the way down.
pub open spec fn same_shape(value: Value, meta: NodeMeta) -> bool
    decreases value,
{
    match (value, meta.nested) {
        (Value::Null, Some(ValueMeta::Null(_))) => true,
        (Value::Bool(_), Some(ValueMeta::Bool(_))) => true,
        (Value::Number(_), Some(ValueMeta::Number(_))) => true,
        (Value::String(_), Some(ValueMeta::String(_))) => true,
        (Value::Array(values), Some(ValueMeta::Array(metas))) => {
            &&& values@.len() == metas@.len()
            &&& forall|i: int|
                0 <= i < values@.len() ==> same_shape(#[trigger] values@[i], metas@[i])
        },
        (Value::Object(values), Some(ValueMeta::Object(metas))) => {
            &&& values@.dom() == metas@.dom()
            &&& forall|i: int|
                is_first(values.entries@, values.entries@[i].0@, i) ==> same_shape(
                    (#[trigger] values.entries@[i]).1,
                    metas@[values.entries@[i].0@],
                )
        },
        _ => false,
    }
}

/// Whether every identifier in `meta`, that of the node and those below it,
/// is less than `bound`.
pub open spec fn ids_below(meta: NodeMeta, bound: int) -> bool
    decreases meta,
{
    &&& meta.id.0 < bound
    &&& match meta.nested {
        None => true,
        Some(ValueMeta::Null(leaf)) => leaf.id.0 < bound,
        Some(ValueMeta::Bool(leaf)) => leaf.id.0 < bound,
        Some(ValueMeta::Number(id)) => id.0 < bound,
        Some(ValueMeta::String(leaf)) => leaf.id.0 < bound,
        Some(ValueMeta::Array(metas)) => forall|i: int|
            0 <= i < metas@.len() ==> ids_below(#[trigger] metas@[i], bound),
        Some(ValueMeta::Object(metas)) => forall|i: int|
            0 <= i < metas.entries@.len() ==> ids_below(
                (#[trigger] metas.entries@[i]).1,
                bound,
            ),
    }
}

/// Post-order: at every node of `meta`, the node's own identifier is greater
/// than every identifier below the node.
pub open spec fn post_ordered(meta: NodeMeta) -> bool
    decreases meta,
{
    match meta.nested {
        None => true,
        Some(ValueMeta::Null(leaf)) => leaf.id.0 < meta.id.0,
        Some(ValueMeta::Bool(leaf)) => leaf.id.0 < meta.id.0,
        Some(ValueMeta::Number(id)) => id.0 < meta.id.0,
        Some(ValueMeta::String(leaf)) => leaf.id.0 < meta.id.0,
        Some(ValueMeta::Array(metas)) => forall|i: int|
            0 <= i < metas@.len() ==> {
                &&& ids_below(#[trigger] metas@[i], meta.id.0 as int)
                &&& post_ordered(metas@[i])
            },
        Some(ValueMeta::Object(metas)) => forall|i: int|
            0 <= i < metas.entries@.len() ==> {
                &&& ids_below((#[trigger] metas.entries@[i]).1, meta.id.0 as int)
                &&& post_ordered(metas.entries@[i].1)
            },
    }
}

} // verus!
