//! Cursors that walk a document and its metadata in step.
//!
//! A view borrows a node of a document and the metadata of that node. It owns
//! nothing and changes nothing. Where the metadata has no counterpart for a
//! node, the view of that node has no metadata, and reports the identifier
//! and the nested metadata of [`empty_node_meta`]. Such a view is no failure:
//! a caller to whom it is one tests the field that holds the metadata, which
//! is `None` then. Over a document with the metadata that it was decoded
//! with, no view is without metadata.

use crate::meta::{MetaId, Rich, WrappedMeta};
use crate::object_map::{first_index, lemma_has_first, ObjectMap};
use crate::value::{same_shape, NodeMeta, Value, ValueMeta};
use vstd::prelude::*;

verus! {

/// The metadata that stands in where a metadata tree has none for a node.
pub open spec fn empty_node_meta() -> NodeMeta {
    WrappedMeta { id: MetaId(0), nested: None }
}

/// The metadata that stands in where a metadata tree has none for a scalar.
pub open spec fn empty_leaf_meta() -> WrappedMeta<()> {
    WrappedMeta { id: MetaId(0), nested: () }
}

/// A view of one node of a document.
#[derive(Debug, Clone, Copy)]
pub struct ValueView<'rich> {
    /// The node.
    pub value: &'rich Value,
    /// The metadata of the node, where the metadata tree has it.
    pub meta: Option<&'rich NodeMeta>,
}

/// A view of a truth value.
#[derive(Debug, Clone, Copy)]
pub struct BoolView<'rich> {
    /// The truth value.
    pub value: &'rich bool,
    /// The metadata of the truth value, where the metadata tree has it.
    pub meta: Option<&'rich WrappedMeta<()>>,
}

/// A view of the elements of an array.
#[derive(Debug, Clone, Copy)]
pub struct ArrayView<'rich> {
    /// The elements.
    pub values: &'rich Vec<Value>,
    /// The metadata of the elements, where the metadata tree has it.
    pub metas: Option<&'rich Vec<NodeMeta>>,
}

/// A view of the members of an object.
#[derive(Debug, Clone, Copy)]
pub struct ObjectView<'rich> {
    /// The members.
    pub values: &'rich ObjectMap<Value>,
    /// The metadata of the members, where the metadata tree has it.
    pub metas: Option<&'rich ObjectMap<NodeMeta>>,
}

/// What a view of a node turns out to be a view of.
#[derive(Debug, Clone, Copy)]
pub enum ValueVisit<'rich> {
    /// The node is a truth value.
    Bool(BoolView<'rich>),
    /// The node is an array.
    Array(ArrayView<'rich>),
    /// The node is an object.
    Object(ObjectView<'rich>),
}

impl<'rich> BoolView<'rich> {
    /// The metadata that this view reports.
    pub open spec fn leaf_meta(&self) -> WrappedMeta<()> {
        match self.meta {
            Some(meta) => *meta,
            None => empty_leaf_meta(),
        }
    }

    /// A view of a truth value with its metadata.
    pub fn new(rich: Rich<&'rich bool, &'rich WrappedMeta<()>>) -> (view: Self)
        ensures
            view == (BoolView { value: rich.value, meta: Some(rich.meta) }),
    {
        BoolView { value: rich.value, meta: Some(rich.meta) }
    }

    /// The truth value.
    pub fn value(&self) -> (value: bool)
        ensures
            value == *self.value,
    {
        *self.value
    }

    /// The identifier of the truth value.
    pub fn meta(&self) -> (id: MetaId)
        ensures
            id == self.leaf_meta().id,
    {
        match self.meta {
            Some(meta) => meta.id,
            None => MetaId::from_usize(0),
        }
    }
}

impl<'rich> ValueView<'rich> {
    /// The metadata that this view reports.
    pub open spec fn node_meta(&self) -> NodeMeta {
        match self.meta {
            Some(meta) => *meta,
            None => empty_node_meta(),
        }
    }

    /// Whether [`ValueView::visit`] has a view for the node: it has one for a
    /// truth value, an array and an object.
    pub open spec fn visitable(&self) -> bool {
        *self.value is Bool || *self.value is Array || *self.value is Object
    }

    /// What [`ValueView::visit`] returns: the view that goes with the node's
    /// variant, over the nested metadata if that has the same variant, and
    /// without metadata if it has not.
    pub open spec fn visited(&self) -> ValueVisit<'rich>
        recommends
            self.visitable(),
    {
        match *self.value {
            Value::Array(values) => ValueVisit::Array(
                ArrayView {
                    values: &values,
                    metas: match self.node_meta().nested {
                        Some(ValueMeta::Array(metas)) => Some(&metas),
                        _ => None,
                    },
                },
            ),
            Value::Object(values) => ValueVisit::Object(
                ObjectView {
                    values: &values,
                    metas: match self.node_meta().nested {
                        Some(ValueMeta::Object(metas)) => Some(&metas),
                        _ => None,
                    },
                },
            ),
            Value::Bool(value) => ValueVisit::Bool(
                BoolView {
                    value: &value,
                    meta: match self.node_meta().nested {
                        Some(ValueMeta::Bool(meta)) => Some(&meta),
                        _ => None,
                    },
                },
            ),
            _ => arbitrary(),
        }
    }

    /// Whether the metadata is there and has the shape of the node.
    pub open spec fn consistent(&self) -> bool {
        self.meta matches Some(meta) && same_shape(*self.value, *meta)
    }

    /// A view of a node with its metadata.
    pub fn new(rich: Rich<&'rich Value, &'rich NodeMeta>) -> (view: Self)
        ensures
            view == (ValueView { value: rich.value, meta: Some(rich.meta) }),
    {
        ValueView { value: rich.value, meta: Some(rich.meta) }
    }

    /// The node.
    pub fn value(&self) -> (value: &'rich Value)
        ensures
            value == self.value,
    {
        self.value
    }

    /// The node's own identifier.
    pub fn meta(&self) -> (id: MetaId)
        ensures
            id == self.node_meta().id,
    {
        match self.meta {
            Some(meta) => meta.id,
            None => MetaId::from_usize(0),
        }
    }

    /// The view that goes with the node's variant.
    pub fn visit(&self) -> (visit: ValueVisit<'rich>)
        requires
            self.visitable(),
        ensures
            visit == self.visited(),
    {
        match self.value {
            Value::Bool(value) => {
                let meta = match self.meta {
                    Some(WrappedMeta { nested: Some(ValueMeta::Bool(meta)), .. }) => Some(meta),
                    _ => None,
                };
                ValueVisit::Bool(BoolView { value, meta })
            },
            Value::Array(values) => {
                let metas = match self.meta {
                    Some(WrappedMeta { nested: Some(ValueMeta::Array(metas)), .. }) => Some(metas),
                    _ => None,
                };
                ValueVisit::Array(ArrayView { values, metas })
            },
            Value::Object(values) => {
                let metas = match self.meta {
                    Some(WrappedMeta { nested: Some(ValueMeta::Object(metas)), .. }) => Some(metas),
                    _ => None,
                };
                ValueVisit::Object(ObjectView { values, metas })
            },
            _ => vstd::pervasive::unreached(),
        }
    }

    /// The view that goes with the node's variant, or `None` where
    /// [`ValueView::visit`] has no view for it.
    pub fn try_visit(&self) -> (visit: Option<ValueVisit<'rich>>)
        ensures
            visit == if self.visitable() {
                Some(self.visited())
            } else {
                None
            },
    {
        match self.value {
            Value::Bool(_) | Value::Array(_) | Value::Object(_) => Some(self.visit()),
            _ => None,
        }
    }
}

impl<'rich> ArrayView<'rich> {
    /// The metadata of the element at `index`, where the metadata tree has it.
    pub open spec fn meta_at(&self, index: int) -> Option<&'rich NodeMeta> {
        match self.metas {
            Some(metas) => if 0 <= index < metas@.len() {
                Some(&metas@[index])
            } else {
                None
            },
            None => None,
        }
    }

    /// The view of the element at `index`, if the array has one there.
    pub open spec fn child(&self, index: int) -> Option<ValueView<'rich>> {
        if 0 <= index < self.values@.len() {
            Some(ValueView { value: &self.values@[index], meta: self.meta_at(index) })
        } else {
            None
        }
    }

    /// Whether the metadata is there and has the shape of the elements.
    pub open spec fn consistent(&self) -> bool {
        &&& self.metas matches Some(metas)
        &&& metas@.len() == self.values@.len()
        &&& forall|i: int|
            0 <= i < self.values@.len() ==> same_shape(#[trigger] self.values@[i], metas@[i])
    }

    /// A view of the elements of an array with their metadata.
    pub fn new(rich: Rich<&'rich Vec<Value>, &'rich Vec<NodeMeta>>) -> (view: Self)
        ensures
            view == (ArrayView { values: rich.value, metas: Some(rich.meta) }),
    {
        ArrayView { values: rich.value, metas: Some(rich.meta) }
    }

    /// The view of the element at `index`, or `None` if the array ends before
    /// it.
    pub fn get(&self, index: usize) -> (found: Option<ValueView<'rich>>)
        ensures
            found == self.child(index as int),
    {
        if index >= self.values.len() {
            return None;
        }
        let value = &self.values[index];
        let meta = match self.metas {
            Some(metas) => if index < metas.len() {
                Some(&metas[index])
            } else {
                None
            },
            None => None,
        };
        Some(ValueView { value, meta })
    }
}

impl<'rich> ObjectView<'rich> {
    /// The metadata of the member under `key`, where the metadata tree has it.
    pub open spec fn meta_at(&self, key: Seq<char>) -> Option<&'rich NodeMeta> {
        match self.metas {
            Some(metas) => if metas@.contains_key(key) {
                Some(&metas@[key])
            } else {
                None
            },
            None => None,
        }
    }

    /// The view of the member under `key`, if the object has one there.
    pub open spec fn child(&self, key: Seq<char>) -> Option<ValueView<'rich>> {
        if self.values@.contains_key(key) {
            Some(ValueView { value: &self.values@[key], meta: self.meta_at(key) })
        } else {
            None
        }
    }

    /// Whether the metadata is there and has the shape of the members.
    pub open spec fn consistent(&self) -> bool {
        &&& self.metas matches Some(metas)
        &&& metas@.dom() == self.values@.dom()
        &&& forall|key: Seq<char>|
            self.values@.contains_key(key) ==> same_shape(#[trigger] self.values@[key], metas@[key])
    }

    /// A view of the members of an object with their metadata.
    pub fn new(rich: Rich<&'rich ObjectMap<Value>, &'rich ObjectMap<NodeMeta>>) -> (view: Self)
        ensures
            view == (ObjectView { values: rich.value, metas: Some(rich.meta) }),
    {
        ObjectView { values: rich.value, metas: Some(rich.meta) }
    }

    /// The members.
    pub fn value(&self) -> (values: &'rich ObjectMap<Value>)
        ensures
            values == self.values,
    {
        self.values
    }

    /// The view of the member under `key`, or `None` if the object has no
    /// such member.
    pub fn get(&self, key: &str) -> (found: Option<ValueView<'rich>>)
        ensures
            found == self.child(key@),
    {
        let value = match self.values.get(key) {
            Some(value) => value,
            None => {
                return None;
            },
        };
        let meta = match self.metas {
            Some(metas) => metas.get(key),
            None => None,
        };
        Some(ValueView { value, meta })
    }
}

/// View and tree agree, one level down: over a node and metadata of the same
/// shape, the view that [`ValueView::visit`] returns has the metadata of
/// what the node holds, and that metadata has the shape of what it
/// describes.
pub proof fn lemma_visit_consistent(view: ValueView<'_>)
    requires
        view.consistent(),
        view.visitable(),
    ensures
        match view.visited() {
            ValueVisit::Bool(bool_view) => bool_view.meta is Some,
            ValueVisit::Array(array_view) => array_view.consistent(),
            ValueVisit::Object(object_view) => object_view.consistent(),
        },
{
    match *view.value {
        Value::Object(values) => {
            let metas = view.node_meta().nested->Some_0->Object_0;
            assert forall|key: Seq<char>| values@.contains_key(key) implies same_shape(
                #[trigger] values@[key],
                metas@[key],
            ) by {
                lemma_has_first(values.entries@, key);
                let i = first_index(values.entries@, key);
                assert(same_shape(values.entries@[i].1, metas@[values.entries@[i].0@]));
            }
        },
        _ => {},
    }
}

/// View and tree agree on the elements of an array: over elements and
/// metadata of the same shape, [`ArrayView::get`] finds a view exactly at the
/// positions that the array has, and that view has the metadata which the
/// metadata tree holds at that position.
pub proof fn lemma_array_child_consistent(view: ArrayView<'_>, index: int)
    requires
        view.consistent(),
    ensures
        view.child(index) is Some <==> 0 <= index < view.values@.len(),
        view.child(index) matches Some(child) ==> {
            &&& child.consistent()
            &&& *child.value == view.values@[index]
            &&& child.meta == Some(&view.metas->Some_0@[index])
        },
{
}

/// View and tree agree on the members of an object: over members and
/// metadata of the same shape, [`ObjectView::get`] finds a view exactly under
/// the keys that the object has, and that view has the metadata which the
/// metadata tree holds under that key.
pub proof fn lemma_object_child_consistent(view: ObjectView<'_>, key: Seq<char>)
    requires
        view.consistent(),
    ensures
        view.child(key) is Some <==> view.values@.contains_key(key),
        view.child(key) matches Some(child) ==> {
            &&& child.consistent()
            &&& *child.value == view.values@[key]
            &&& child.meta == Some(&view.metas->Some_0@[key])
        },
{
    if view.values@.contains_key(key) {
        assert(view.metas->Some_0@.dom().contains(key));
    }
}

} // verus!
