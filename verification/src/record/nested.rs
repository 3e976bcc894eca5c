//! A record with one field.

use crate::attach::Event;
use crate::meta::{MetaId, Rich, TreeMeta, WrappedMeta};
use crate::object_map::{first_index, has_key};
use crate::projection::{
    Project, Projector, StructuralProjection, TreeMetaProjection, TreeMetaProjector,
    WrappedMetaProjector,
};
use crate::record::{
    key_count, lemma_first_index_last, lemma_first_index_stays, lemma_key_count_has_key,
    lemma_other_key_stays, DecodeError,
};
use crate::scope::{id_at, RichScope};
use crate::split::SplitMeta;
use vstd::prelude::*;

verus! {

/// A record with one field.
#[derive(Debug, Clone, Copy, PartialEq, Eq)]
pub struct Nested {
    /// Whether it is a crab.
    pub crab: bool,
}

/// A [`Nested`] that carries the identifier of its field inline.
#[derive(Debug, Clone, Copy, PartialEq, Eq)]
pub struct RichNested {
    /// The field, with its identifier.
    pub crab: Rich<bool, MetaId>,
}

/// The shape of a [`Nested`]: its field, with a type to choose.
#[derive(Debug, Clone, Copy, PartialEq, Eq)]
pub struct NestedStructure<TyCrab> {
    /// What stands for the field `crab`.
    pub crab: TyCrab,
}

impl<TyProjector> StructuralProjection<TyProjector> for Nested where
    TyProjector: Projector<bool>,
 {
    type Projection = NestedStructure<<TyProjector as Projector<bool>>::Output>;
}

impl<M> TreeMetaProjection<M> for Nested {
    type TreeMeta = <Self as StructuralProjection<TreeMetaProjector<M>>>::Projection;
}

/// The metadata of the fields of a [`Nested`]: its projection through
/// [`TreeMetaProjector<MetaId>`].
pub type MetaNested = Project<Nested, TreeMetaProjector<MetaId>>;

impl SplitMeta<MetaId> for RichNested {
    type Value = Nested;

    open spec fn obeys_split_spec() -> bool {
        true
    }

    open spec fn pure_value(self) -> Nested {
        Nested { crab: self.crab.value }
    }

    open spec fn nested_meta(self) -> MetaNested {
        NestedStructure { crab: TreeMeta { meta: self.crab.meta, nested: () } }
    }

    open spec fn merged(value: Nested, nested: MetaNested) -> Self {
        RichNested { crab: Rich { value: value.crab, meta: nested.crab.meta } }
    }

    fn split_meta(self) -> (rich: Rich<Nested, MetaNested>) {
        let crab = self.crab.deep_split_meta();
        Rich::new(Nested { crab: crab.value }, NestedStructure { crab: crab.meta })
    }
}

/// Splitting a [`RichNested`] only moves its identifier: the record without
/// identifiers and the metadata, put together again, are the record that was
/// split.
pub proof fn lemma_nested_split_keeps_all(rich: RichNested)
    ensures
        RichNested::merged(rich.pure_value(), rich.nested_meta()) == rich,
{
}

/// What the members read so far have made of a [`RichNested`]: the field, if
/// a member has filled it, and how many identifiers were taken.
pub struct NestedFields {
    /// The field `crab`.
    pub crab: Option<Rich<bool, MetaId>>,
    /// The number of identifiers taken so far.
    pub taken: nat,
}

/// What one more member makes of the fields of a [`RichNested`], when the
/// scope had issued `position` identifiers before the first member.
pub open spec fn nested_member(
    fields: NestedFields,
    position: int,
    key: Seq<char>,
    event: Event,
) -> Result<NestedFields, DecodeError> {
    if key == "crab"@ {
        if fields.crab is Some {
            Err(DecodeError::DuplicateField("crab"))
        } else {
            match event {
                Event::Bool(crab) => Ok(
                    NestedFields {
                        crab: Some(Rich { value: crab, meta: id_at(position + fields.taken) }),
                        taken: fields.taken + 1,
                    },
                ),
                _ => Err(DecodeError::InvalidType { expected: "a boolean" }),
            }
        }
    } else {
        Ok(fields)
    }
}

/// What `members`, read one after the other, make of the fields of a
/// [`RichNested`]. The first member that fails decides the error.
pub open spec fn nested_members(members: Seq<(String, Event)>, position: int) -> Result<
    NestedFields,
    DecodeError,
>
    decreases members.len(),
{
    if members.len() == 0 {
        Ok(NestedFields { crab: None, taken: 0 })
    } else {
        match nested_members(members.drop_last(), position) {
            Ok(fields) => nested_member(fields, position, members.last().0@, members.last().1),
            Err(error) => Err(error),
        }
    }
}

/// What the decoding of `event` as a [`RichNested`] gives, when the scope has
/// issued `position` identifiers before.
pub open spec fn decoded_nested(event: Event, position: int) -> Result<
    Rich<RichNested, MetaId>,
    DecodeError,
> {
    match event {
        Event::Mapping(members) => match nested_members(members@, position) {
            Ok(fields) => match fields.crab {
                Some(crab) => Ok(
                    Rich { value: RichNested { crab }, meta: id_at(position + fields.taken) },
                ),
                None => Err(DecodeError::MissingField("crab")),
            },
            Err(error) => Err(error),
        },
        _ => Err(DecodeError::InvalidType { expected: "struct Nested" }),
    }
}

/// How many identifiers `members` take, read one after the other, whether
/// they fail or not: one for each field that is filled before the first
/// member that fails.
pub open spec fn nested_members_taken(members: Seq<(String, Event)>, position: int) -> nat
    decreases members.len(),
{
    if members.len() == 0 {
        0
    } else {
        match nested_members(members.drop_last(), position) {
            Ok(fields) => match nested_member(
                fields,
                position,
                members.last().0@,
                members.last().1,
            ) {
                Ok(next) => next.taken,
                Err(_) => fields.taken,
            },
            Err(_) => nested_members_taken(members.drop_last(), position),
        }
    }
}

/// How many identifiers the decoding of `event` as a [`RichNested`] takes,
/// whether it fails or not: those of the members, and one for the record if
/// the decoding succeeds.
pub open spec fn nested_taken(event: Event, position: int) -> nat {
    match event {
        Event::Mapping(members) => {
            let record: nat = if decoded_nested(event, position) is Ok {
                1
            } else {
                0
            };
            nested_members_taken(members@, position) + record
        },
        _ => 0,
    }
}

impl RichNested {
    /// Decodes a [`Nested`] and gives an identifier to its field and to the
    /// record.
    ///
    /// On success the scope has issued one identifier for the field and one
    /// for the record. On failure it has issued that of the field, if the
    /// field was decoded before the failure.
    pub fn rich_deserialize(scope: &mut RichScope, event: &Event) -> (decoded: Result<
        Rich<RichNested, MetaId>,
        DecodeError,
    >)
        ensures
            old(scope).wf(),
            final(scope).wf(),
            decoded == decoded_nested(*event, old(scope).issued().len() as int),
            decoded is Ok ==> final(scope).issued().len() == old(scope).issued().len() + 2,
            final(scope).issued().len() == old(scope).issued().len() + nested_taken(
                *event,
                old(scope).issued().len() as int,
            ),
            final(scope).issued().take(old(scope).issued().len() as int) == old(scope).issued(),
    {
        proof {
            use_type_invariant(&*scope);
        }
        let ghost start = scope.issued().len() as int;
        let ghost before = scope.issued();
        assert(before.take(start) =~= before);
        let members = match event {
            Event::Mapping(members) => members,
            _ => {
                return Err(DecodeError::InvalidType { expected: "struct Nested" });
            },
        };
        let crab_key = "crab".to_owned();
        let mut crab: Option<Rich<bool, MetaId>> = None;
        let mut i: usize = 0;
        assert(members@.take(0) =~= Seq::<(String, Event)>::empty());
        while i < members.len()
            invariant
                *event == Event::Mapping(*members),
                i <= members@.len(),
                crab_key@ == "crab"@,
                old(scope).wf(),
                scope.wf(),
                before == old(scope).issued(),
                before.len() == start,
                scope.issued().take(start) == before,
                nested_members(members@.take(i as int), start) matches Ok(fields) && fields.crab
                    == crab && scope.issued().len() == start + fields.taken && fields.taken <= 1
                    && (crab is Some <==> fields.taken == 1),
            decreases members@.len() - i,
        {
            let ghost issued = scope.issued();
            proof {
                assert(members@.take(i + 1).drop_last() =~= members@.take(i as int));
            }
            if members[i].0 == crab_key {
                if crab.is_some() {
                    proof {
                        lemma_nested_members_fail(members@, i + 1, start);
                    }
                    return Err(DecodeError::DuplicateField("crab"));
                }
                match &members[i].1 {
                    Event::Bool(value) => {
                        crab = Some(scope.attach(*value));
                    },
                    _ => {
                        proof {
                            lemma_nested_members_fail(members@, i + 1, start);
                        }
                        return Err(DecodeError::InvalidType { expected: "a boolean" });
                    },
                }
            }
            proof {
                assert(scope.issued().take(start) =~= issued.take(start));
            }
            i += 1;
        }
        proof {
            assert(members@.take(i as int) =~= members@);
        }
        let crab = match crab {
            Some(crab) => crab,
            None => {
                return Err(DecodeError::MissingField("crab"));
            },
        };
        let ghost issued = scope.issued();
        let rich = scope.attach(RichNested { crab });
        proof {
            assert(scope.issued().take(start) =~= issued.take(start));
        }
        Ok(rich)
    }
}

/// The metadata that decoding puts beside the fields of a [`Nested`]: its
/// projection through [`WrappedMetaProjector`].
pub type WrappedNested = Project<Nested, WrappedMetaProjector>;

/// The record of `rich` with its metadata beside it: the identifier of the
/// record on top, that of the field below.
pub open spec fn beside_nested(rich: Rich<RichNested, MetaId>) -> Rich<
    Nested,
    WrappedMeta<WrappedNested>,
> {
    Rich {
        value: Nested { crab: rich.value.crab.value },
        meta: WrappedMeta {
            id: rich.meta,
            nested: NestedStructure {
                crab: WrappedMeta { id: rich.value.crab.meta, nested: () },
            },
        },
    }
}

impl Nested {
    /// Decodes a [`Nested`] and puts its metadata beside it: the record gets
    /// what [`RichNested::rich_deserialize`] decodes, and its metadata holds
    /// the same identifiers, that of the record on top.
    pub fn rich_deserialize(scope: &mut RichScope, event: &Event) -> (decoded: Result<
        Rich<Nested, WrappedMeta<WrappedNested>>,
        DecodeError,
    >)
        ensures
            old(scope).wf(),
            final(scope).wf(),
            decoded == match decoded_nested(*event, old(scope).issued().len() as int) {
                Ok(rich) => Ok(beside_nested(rich)),
                Err(error) => Err(error),
            },
            final(scope).issued().len() == old(scope).issued().len() + nested_taken(
                *event,
                old(scope).issued().len() as int,
            ),
            final(scope).issued().take(old(scope).issued().len() as int) == old(scope).issued(),
    {
        match RichNested::rich_deserialize(scope, event) {
            Ok(rich) => {
                let crab = WrappedMeta::new((), rich.value.crab.meta);
                Ok(
                    Rich::new(
                        Nested { crab: rich.value.crab.value },
                        WrappedMeta::new(NestedStructure { crab }, rich.meta),
                    ),
                )
            },
            Err(error) => Err(error),
        }
    }
}

/// Once the first `n` members have failed, the members after them do not
/// matter: all members fail with the same error.
pub proof fn lemma_nested_members_fail(members: Seq<(String, Event)>, n: int, position: int)
    requires
        0 <= n <= members.len(),
        nested_members(members.take(n), position) is Err,
    ensures
        nested_members(members, position) == nested_members(members.take(n), position),
        nested_members_taken(members, position) == nested_members_taken(
            members.take(n),
            position,
        ),
    decreases members.len() - n,
{
    if n < members.len() {
        assert(members.take(n + 1).drop_last() =~= members.take(n));
        lemma_nested_members_fail(members, n + 1, position);
    } else {
        assert(members.take(n) =~= members);
    }
}

/// What the members make of the field `crab`, said at once: nothing if none
/// has the key; else the first member with the key decides, and a second one
/// is one too many.
pub proof fn lemma_nested_members(members: Seq<(String, Event)>, position: int)
    ensures
        key_count(members, "crab"@) == 0 ==> nested_members(members, position) == Ok::<
            NestedFields,
            DecodeError,
        >(NestedFields { crab: None, taken: 0 }),
        key_count(members, "crab"@) > 0 ==> {
            let first = members[first_index(members, "crab"@)].1;
            nested_members(members, position) == match first {
                Event::Bool(crab) => if key_count(members, "crab"@) == 1 {
                    Ok(
                        NestedFields {
                            crab: Some(Rich { value: crab, meta: id_at(position) }),
                            taken: 1,
                        },
                    )
                } else {
                    Err(DecodeError::DuplicateField("crab"))
                },
                _ => Err::<NestedFields, DecodeError>(
                    DecodeError::InvalidType { expected: "a boolean" },
                ),
            }
        },
    decreases members.len(),
{
    let key = "crab"@;
    lemma_key_count_has_key(members, key);
    if members.len() > 0 {
        let shorter = members.drop_last();
        lemma_nested_members(shorter, position);
        lemma_key_count_has_key(shorter, key);
        if members.last().0@ != key {
            lemma_other_key_stays(members, key);
        } else if has_key(shorter, key) {
            lemma_first_index_stays(members, key);
        } else {
            lemma_first_index_last(members, key);
        }
    }
}

/// When a [`RichNested`] is decoded, and when not.
///
/// The decoding succeeds if and only if the event is a mapping, just one of
/// its members has the key `crab`, and that member holds a truth value. The
/// field then holds that truth value and the first identifier, the record
/// the second. Each error comes in just one case: a field is missing if no
/// member has the key; it is a duplicate if the first member with the key
/// holds a truth value and another member has the key too; and the type is
/// invalid if the event is no mapping, or the first member with the key
/// holds no truth value.
pub proof fn lemma_decoded_nested(event: Event, position: int)
    ensures
        match decoded_nested(event, position) {
            Ok(rich) => {
                &&& event matches Event::Mapping(members)
                &&& key_count(members@, "crab"@) == 1
                &&& members@[first_index(members@, "crab"@)].1 == Event::Bool(
                    rich.value.crab.value,
                )
                &&& rich.value.crab.meta == id_at(position)
                &&& rich.meta == id_at(position + 1)
            },
            Err(DecodeError::MissingField(name)) => {
                &&& name == "crab"
                &&& event matches Event::Mapping(members)
                &&& key_count(members@, "crab"@) == 0
            },
            Err(DecodeError::DuplicateField(name)) => {
                &&& name == "crab"
                &&& event matches Event::Mapping(members)
                &&& key_count(members@, "crab"@) >= 2
                &&& members@[first_index(members@, "crab"@)].1 is Bool
            },
            Err(DecodeError::InvalidType { expected }) => {
                ||| event !is Mapping && expected == "struct Nested"
                ||| {
                    &&& expected == "a boolean"
                    &&& event matches Event::Mapping(members)
                    &&& key_count(members@, "crab"@) >= 1
                    &&& members@[first_index(members@, "crab"@)].1 !is Bool
                }
            },
        },
{
    match event {
        Event::Mapping(members) => {
            lemma_nested_members(members@, position);
        },
        _ => {},
    }
}

/// Whether a [`RichNested`] can be decoded does not depend on where the
/// scope stands.
pub proof fn lemma_decoded_nested_anywhere(event: Event, position: int, other: int)
    ensures
        decoded_nested(event, position) is Ok <==> decoded_nested(event, other) is Ok,
{
    lemma_decoded_nested(event, position);
    lemma_decoded_nested(event, other);
}

} // verus!
