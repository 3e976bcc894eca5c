//! Identifiers, and the pairs that carry them.

use vstd::prelude::*;

verus! {

/// Placeholder metadata for a value that has none.
#[derive(Debug, Default, Clone, Copy, PartialEq, Eq, PartialOrd, Ord, Hash)]
pub struct EmptyMeta;

/// An identifier of one node, unique within the scope that issued it.
///
/// Identifiers carry no meaning beyond identity and order.
#[derive(Debug, Clone, Copy, PartialEq, Eq, PartialOrd, Ord, Hash)]
pub struct MetaId(pub usize);

impl MetaId {
    /// The number behind this identifier.
    pub fn into_usize(self) -> (value: usize)
        ensures
            value == self.0,
    {
        self.0
    }

    /// The identifier with the given number.
    pub fn from_usize(value: usize) -> (id: Self)
        ensures
            id == MetaId(value),
    {
        MetaId(value)
    }
}

/// A value of type `T` paired with metadata of type `M`.
#[derive(Debug, Clone, Copy, PartialEq, Eq, PartialOrd, Ord, Hash)]
pub struct Rich<T, M> {
    /// The primary data.
    pub value: T,
    /// What is known about `value`.
    pub meta: M,
}

impl<T, M> Rich<T, M> {
    /// Pairs a value with its metadata.
    pub fn new(value: T, meta: M) -> (rich: Self)
        ensures
            rich == (Rich { value, meta }),
    {
        Rich { value, meta }
    }

    /// The same pair, by reference.
    pub fn as_ref(&self) -> (rich: Rich<&T, &M>)
        ensures
            *rich.value == self.value,
            *rich.meta == self.meta,
    {
        Rich { value: &self.value, meta: &self.meta }
    }

    /// Applies `f` to the value and keeps the metadata.
    pub fn map_value<U, F>(self, f: F) -> (rich: Rich<U, M>) where F: FnOnce(T) -> U
        requires
            f.requires((self.value,)),
        ensures
            f.ensures((self.value,), rich.value),
            rich.meta == self.meta,
    {
        Rich { value: f(self.value), meta: self.meta }
    }

    /// Applies `f` to the metadata and keeps the value.
    pub fn map_meta<N, F>(self, f: F) -> (rich: Rich<T, N>) where F: FnOnce(M) -> N
        requires
            f.requires((self.meta,)),
        ensures
            rich.value == self.value,
            f.ensures((self.meta,), rich.meta),
    {
        Rich { value: self.value, meta: f(self.meta) }
    }
}

/// The metadata of one node: its own identifier, and the metadata of what
/// lies below it.
#[derive(Debug, Clone, Copy, PartialEq, Eq, PartialOrd, Ord, Hash)]
pub struct WrappedMeta<N> {
    /// The identifier of the node itself.
    pub id: MetaId,
    /// The metadata of the node's components.
    pub nested: N,
}

impl<N> WrappedMeta<N> {
    /// Puts an identifier on top of nested metadata.
    pub fn new(nested: N, id: MetaId) -> (meta: Self)
        ensures
            meta == (WrappedMeta { id, nested }),
    {
        WrappedMeta { id, nested }
    }
}

/// As [`WrappedMeta`], for metadata that was taken out of a value which
/// carried it inline: the metadata of the whole, and that of its components.
#[derive(Debug, Clone, Copy, PartialEq, Eq, PartialOrd, Ord, Hash)]
pub struct TreeMeta<MainMeta, NestedMeta> {
    /// Metadata of this level.
    pub meta: MainMeta,
    /// Metadata of the components below.
    pub nested: NestedMeta,
}

impl<MainMeta, NestedMeta> TreeMeta<MainMeta, NestedMeta> {
    /// Links the metadata of a value to that of its components.
    pub fn new(meta: MainMeta, nested: NestedMeta) -> (tree: Self)
        ensures
            tree == (TreeMeta { meta, nested }),
    {
        TreeMeta { meta, nested }
    }
}

/// A leaf inside a value that carries its metadata inline. A leaf has no
/// components, so it has no metadata of its own to give.
#[derive(Debug, Clone, Copy, PartialEq, Eq, PartialOrd, Ord, Hash)]
pub struct RichPrimitive<T>(pub T);

impl<T> RichPrimitive<T> {
    /// The leaf itself.
    pub fn as_ref(&self) -> (leaf: &T)
        ensures
            *leaf == self.0,
    {
        &self.0
    }
}

} // verus!
