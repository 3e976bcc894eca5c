//! A handle that decodes one value of a chosen type within a scope.

use crate::attach::{attached, id_count, Event};
use crate::meta::{MetaId, Rich, WrappedMeta};
use crate::record::config::{beside_config, config_taken_by, decoded_config};
use crate::record::nested::{beside_nested, decoded_nested, nested_taken};
use crate::record::{
    Config, DecodeError, Nested, RichConfig, RichNested, WrappedConfig, WrappedNested,
};
use crate::scope::RichScope;
use crate::value::{post_ordered, same_shape, NodeMeta, Value};
use core::marker::PhantomData;
use vstd::prelude::*;

verus! {

/// Decodes one `T` and takes its identifiers from the scope that it borrows.
///
/// A decoder that meets a nested value hands a seed to whoever decodes that
/// value, so that all values of one session share one numbering.
pub struct RichScopeSerdeSeed<'scope, T> {
    /// The scope of the session.
    pub scope: &'scope mut RichScope,
    /// The type to decode.
    pub phantom: PhantomData<T>,
}

impl<'scope, T> RichScopeSerdeSeed<'scope, T> {
    /// A seed that decodes a `T` within `scope`.
    pub fn new(scope: &'scope mut RichScope) -> (seed: Self)
        ensures
            *seed.scope == *old(scope),
            *final(seed.scope) == *final(scope),
    {
        RichScopeSerdeSeed { scope, phantom: PhantomData }
    }
}

impl<'scope> RichScopeSerdeSeed<'scope, Value> {
    /// Decodes a document; see [`Value::rich_deserialize`].
    pub fn deserialize(self, event: &Event) -> (rich: Rich<Value, NodeMeta>)
        ensures
            final(self.scope).wf(),
            attached(*event, old(self.scope).issued().len() as int, rich.value, rich.meta),
            same_shape(rich.value, rich.meta),
            old(self.scope).issued().len() + id_count(*event) <= usize::MAX + 1 ==> post_ordered(
                rich.meta,
            ),
            final(self.scope).issued().len() == old(self.scope).issued().len() + id_count(*event),
            final(self.scope).issued().take(old(self.scope).issued().len() as int) == old(
                self.scope,
            ).issued(),
    {
        Value::rich_deserialize(self.scope, event)
    }
}

impl<'scope> RichScopeSerdeSeed<'scope, RichNested> {
    /// Decodes a record with one field; see [`RichNested::rich_deserialize`].
    pub fn deserialize(self, event: &Event) -> (decoded: Result<
        Rich<RichNested, MetaId>,
        DecodeError,
    >)
        ensures
            final(self.scope).wf(),
            decoded == decoded_nested(*event, old(self.scope).issued().len() as int),
            final(self.scope).issued().len() == old(self.scope).issued().len() + nested_taken(
                *event,
                old(self.scope).issued().len() as int,
            ),
            final(self.scope).issued().take(old(self.scope).issued().len() as int) == old(
                self.scope,
            ).issued(),
    {
        RichNested::rich_deserialize(self.scope, event)
    }
}

impl<'scope> RichScopeSerdeSeed<'scope, RichConfig> {
    /// Decodes a record with three fields; see
    /// [`RichConfig::rich_deserialize`].
    pub fn deserialize(self, event: &Event) -> (decoded: Result<
        Rich<RichConfig, MetaId>,
        DecodeError,
    >)
        ensures
            final(self.scope).wf(),
            decoded == decoded_config(*event, old(self.scope).issued().len() as int),
            final(self.scope).issued().len() == old(self.scope).issued().len() + config_taken_by(
                *event,
                old(self.scope).issued().len() as int,
            ),
            final(self.scope).issued().take(old(self.scope).issued().len() as int) == old(
                self.scope,
            ).issued(),
    {
        RichConfig::rich_deserialize(self.scope, event)
    }
}

impl<'scope> RichScopeSerdeSeed<'scope, Nested> {
    /// Decodes a record with one field, and puts its metadata beside it; see
    /// [`Nested::rich_deserialize`].
    pub fn deserialize(self, event: &Event) -> (decoded: Result<
        Rich<Nested, WrappedMeta<WrappedNested>>,
        DecodeError,
    >)
        ensures
            final(self.scope).wf(),
            decoded == match decoded_nested(*event, old(self.scope).issued().len() as int) {
                Ok(rich) => Ok(beside_nested(rich)),
                Err(error) => Err(error),
            },
            final(self.scope).issued().len() == old(self.scope).issued().len() + nested_taken(
                *event,
                old(self.scope).issued().len() as int,
            ),
            final(self.scope).issued().take(old(self.scope).issued().len() as int) == old(
                self.scope,
            ).issued(),
    {
        Nested::rich_deserialize(self.scope, event)
    }
}

impl<'scope> RichScopeSerdeSeed<'scope, Config> {
    /// Decodes a record with three fields, and puts its metadata beside it;
    /// see [`Config::rich_deserialize`].
    pub fn deserialize(self, event: &Event) -> (decoded: Result<
        Rich<Config, WrappedMeta<WrappedConfig>>,
        DecodeError,
    >)
        ensures
            final(self.scope).wf(),
            decoded == match decoded_config(*event, old(self.scope).issued().len() as int) {
                Ok(rich) => Ok(beside_config(rich)),
                Err(error) => Err(error),
            },
            final(self.scope).issued().len() == old(self.scope).issued().len() + config_taken_by(
                *event,
                old(self.scope).issued().len() as int,
            ),
            final(self.scope).issued().take(old(self.scope).issued().len() as int) == old(
                self.scope,
            ).issued(),
    {
        Config::rich_deserialize(self.scope, event)
    }
}

} // verus!
