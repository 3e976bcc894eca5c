//! Taking the identifiers out of a value that carries them inline.

use crate::meta::{Rich, RichPrimitive, TreeMeta};
use crate::projection::TreeMetaProjection;
use vstd::prelude::*;

verus! {

/// A value that carries metadata of type `M` inline, and can be split into
/// the value without it and the metadata alone.
///
/// The metadata that comes out has the shape of the value: it is the
/// projection of `Value` through
/// [`TreeMetaProjector<M>`](crate::projection::TreeMetaProjector). A type
/// without inline metadata may implement this trait too, and give the unit
/// type as its metadata.
pub trait SplitMeta<M>: Sized {
    /// The type of the value without metadata.
    type Value: TreeMetaProjection<M>;

    /// Whether this implementation keeps to what this trait states of
    /// [`SplitMeta::split_meta`]. An implementation that was verified says
    /// that it does; one that was not is not held to it.
    open spec fn obeys_split_spec() -> bool {
        false
    }

    /// This value without the metadata that it carries.
    open spec fn pure_value(self) -> Self::Value {
        arbitrary()
    }

    /// The metadata that this value carries for its components.
    open spec fn nested_meta(self) -> <Self::Value as TreeMetaProjection<M>>::TreeMeta {
        arbitrary()
    }

    /// The value that carries `nested` inside `value`.
    open spec fn merged(
        value: Self::Value,
        nested: <Self::Value as TreeMetaProjection<M>>::TreeMeta,
    ) -> Self {
        arbitrary()
    }

    /// Splits this value into the value without metadata and the metadata of
    /// its components. No identifier is issued, and nothing is lost: the two
    /// halves, put together again, are the value that was split.
    fn split_meta(self) -> (rich: Rich<
        Self::Value,
        <Self::Value as TreeMetaProjection<M>>::TreeMeta,
    >)
        ensures
            Self::obeys_split_spec() ==> rich.value == self.pure_value(),
            Self::obeys_split_spec() ==> rich.meta == self.nested_meta(),
            Self::obeys_split_spec() ==> Self::merged(rich.value, rich.meta) == self,
    ;
}

impl<T, M> SplitMeta<M> for RichPrimitive<T> where T: TreeMetaProjection<M, TreeMeta = ()> {
    type Value = T;

    open spec fn obeys_split_spec() -> bool {
        true
    }

    open spec fn pure_value(self) -> T {
        self.0
    }

    open spec fn nested_meta(self) -> () {
        ()
    }

    open spec fn merged(value: T, nested: ()) -> Self {
        RichPrimitive(value)
    }

    fn split_meta(self) -> (rich: Rich<T, ()>) {
        Rich::new(self.0, ())
    }
}

impl<M> SplitMeta<M> for bool {
    type Value = Self;

    open spec fn obeys_split_spec() -> bool {
        true
    }

    open spec fn pure_value(self) -> bool {
        self
    }

    open spec fn nested_meta(self) -> () {
        ()
    }

    open spec fn merged(value: bool, nested: ()) -> Self {
        value
    }

    fn split_meta(self) -> (rich: Rich<bool, ()>) {
        Rich::new(self, ())
    }
}

impl<M> SplitMeta<M> for u32 {
    type Value = Self;

    open spec fn obeys_split_spec() -> bool {
        true
    }

    open spec fn pure_value(self) -> u32 {
        self
    }

    open spec fn nested_meta(self) -> () {
        ()
    }

    open spec fn merged(value: u32, nested: ()) -> Self {
        value
    }

    fn split_meta(self) -> (rich: Rich<u32, ()>) {
        Rich::new(self, ())
    }
}

impl<M> SplitMeta<M> for String {
    type Value = Self;

    open spec fn obeys_split_spec() -> bool {
        true
    }

    open spec fn pure_value(self) -> String {
        self
    }

    open spec fn nested_meta(self) -> () {
        ()
    }

    open spec fn merged(value: String, nested: ()) -> Self {
        value
    }

    fn split_meta(self) -> (rich: Rich<String, ()>) {
        Rich::new(self, ())
    }
}

impl<T, M> Rich<T, M> where T: SplitMeta<M> {
    /// What [`Rich::deep_split_meta`] returns: the value without metadata,
    /// and a tree that holds the metadata of the value above that of its
    /// components.
    pub open spec fn deep_split(self) -> Rich<
        T::Value,
        TreeMeta<M, <T::Value as TreeMetaProjection<M>>::TreeMeta>,
    > {
        Rich {
            value: self.value.pure_value(),
            meta: TreeMeta { meta: self.meta, nested: self.value.nested_meta() },
        }
    }

    /// Splits a value that carries metadata inline, and that is itself paired
    /// with metadata, into the value without any and one tree of metadata.
    ///
    /// Splitting only moves metadata: from what comes out, the value that was
    /// split can be put together again, with the same metadata on it.
    pub fn deep_split_meta(self) -> (rich: Rich<
        T::Value,
        TreeMeta<M, <T::Value as TreeMetaProjection<M>>::TreeMeta>,
    >)
        ensures
            T::obeys_split_spec() ==> rich == self.deep_split(),
            T::obeys_split_spec() ==> self == (Rich {
                value: T::merged(rich.value, rich.meta.nested),
                meta: rich.meta.meta,
            }),
    {
        let value_and_nested = self.value.split_meta();
        Rich::new(value_and_nested.value, TreeMeta::new(self.meta, value_and_nested.meta))
    }
}

/// Splitting only moves metadata: where the value that `rich` holds can be
/// put together again from its two halves, `rich` can be put together again
/// from what [`Rich::deep_split_meta`] returns, with the same metadata on it.
pub proof fn lemma_deep_split_keeps_all<T: SplitMeta<M>, M>(rich: Rich<T, M>)
    requires
        T::merged(rich.value.pure_value(), rich.value.nested_meta()) == rich.value,
    ensures
        rich == (Rich {
            value: T::merged(rich.deep_split().value, rich.deep_split().meta.nested),
            meta: rich.deep_split().meta.meta,
        }),
{
}

} // verus!
