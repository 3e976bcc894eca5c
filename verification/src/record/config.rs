//! A record with three fields, one of them a record.

use crate::attach::Event;
use crate::meta::{MetaId, Rich, TreeMeta, WrappedMeta};
use crate::object_map::{first_index, has_key};
use crate::projection::{
    Project, Projector, StructuralProjection, TreeMetaProjection, TreeMetaProjector,
    WrappedMetaProjector,
};
use crate::record::nested::{
    beside_nested, decoded_nested, lemma_decoded_nested, lemma_decoded_nested_anywhere,
    nested_taken, Nested, NestedStructure, RichNested,
};
use crate::record::{
    first_event, key_count, lemma_first_index_last, lemma_first_index_stays,
    lemma_key_count_has_key, lemma_other_key_stays, DecodeError,
};
use crate::scope::{id_at, RichScope};
use crate::split::SplitMeta;
use vstd::prelude::*;

verus! {

/// A record with three fields, one of them a record.
#[derive(Debug, Clone, PartialEq, Eq)]
pub struct Config {
    /// A text.
    pub str: String,
    /// A number.
    pub num: u32,
    /// A record.
    pub nested: Nested,
}

/// A [`Config`] that carries the identifiers of its fields inline.
#[derive(Debug, Clone, PartialEq, Eq)]
pub struct RichConfig {
    /// The text, with its identifier.
    pub str: Rich<String, MetaId>,
    /// The number, with its identifier.
    pub num: Rich<u32, MetaId>,
    /// The record, with its identifier.
    pub nested: Rich<RichNested, MetaId>,
}

/// The shape of a [`Config`]: its fields, each with a type to choose.
#[derive(Debug, Clone, Copy, PartialEq, Eq)]
pub struct ConfigStructure<TyStr, TyNum, TyNested> {
    /// What stands for the field `str`.
    pub str: TyStr,
    /// What stands for the field `num`.
    pub num: TyNum,
    /// What stands for the field `nested`.
    pub nested: TyNested,
}

impl<TyProjector> StructuralProjection<TyProjector> for Config where
    TyProjector: Projector<String> + Projector<u32> + Projector<Nested>,
 {
    type Projection = ConfigStructure<
        <TyProjector as Projector<String>>::Output,
        <TyProjector as Projector<u32>>::Output,
        <TyProjector as Projector<Nested>>::Output,
    >;
}

impl<M> TreeMetaProjection<M> for Config {
    type TreeMeta = <Self as StructuralProjection<TreeMetaProjector<M>>>::Projection;
}

/// The metadata of the fields of a [`Config`]: its projection through
/// [`TreeMetaProjector<MetaId>`]. Each field has its own metadata, and the
/// record has that of its field below its own.
pub type MetaConfig = Project<Config, TreeMetaProjector<MetaId>>;

impl SplitMeta<MetaId> for RichConfig {
    type Value = Config;

    open spec fn obeys_split_spec() -> bool {
        true
    }

    open spec fn pure_value(self) -> Config {
        Config {
            str: self.str.value,
            num: self.num.value,
            nested: self.nested.value.pure_value(),
        }
    }

    open spec fn nested_meta(self) -> MetaConfig {
        ConfigStructure {
            str: TreeMeta { meta: self.str.meta, nested: () },
            num: TreeMeta { meta: self.num.meta, nested: () },
            nested: TreeMeta { meta: self.nested.meta, nested: self.nested.value.nested_meta() },
        }
    }

    open spec fn merged(value: Config, nested: MetaConfig) -> Self {
        RichConfig {
            str: Rich { value: value.str, meta: nested.str.meta },
            num: Rich { value: value.num, meta: nested.num.meta },
            nested: Rich {
                value: RichNested::merged(value.nested, nested.nested.nested),
                meta: nested.nested.meta,
            },
        }
    }

    fn split_meta(self) -> (rich: Rich<Config, MetaConfig>) {
        let str = self.str.deep_split_meta();
        let num = self.num.deep_split_meta();
        let nested = self.nested.deep_split_meta();
        Rich::new(
            Config { str: str.value, num: num.value, nested: nested.value },
            ConfigStructure { str: str.meta, num: num.meta, nested: nested.meta },
        )
    }
}

/// Splitting a [`RichConfig`] only moves its identifiers: the record without
/// identifiers and the metadata, put together again, are the record that was
/// split.
pub proof fn lemma_config_split_keeps_all(rich: RichConfig)
    ensures
        RichConfig::merged(rich.pure_value(), rich.nested_meta()) == rich,
{
}

/// The number as a `u32`, if it is one.
pub fn u32_of(number: i64) -> (small: Option<u32>)
    ensures
        small == if 0 <= number <= u32::MAX {
            Some(number as u32)
        } else {
            None
        },
{
    if 0 <= number && number <= 0xffff_ffff {
        Some(number as u32)
    } else {
        None
    }
}

/// What the members read so far have made of a [`RichConfig`]: each field, if
/// a member has filled it, and how many identifiers were taken.
pub struct ConfigFields {
    /// The field `str`.
    pub str: Option<Rich<String, MetaId>>,
    /// The field `num`.
    pub num: Option<Rich<u32, MetaId>>,
    /// The field `nested`.
    pub nested: Option<Rich<RichNested, MetaId>>,
    /// The number of identifiers taken so far.
    pub taken: nat,
}

/// What one more member makes of the fields of a [`RichConfig`], when the
/// scope had issued `position` identifiers before the first member.
pub open spec fn config_member(
    fields: ConfigFields,
    position: int,
    key: Seq<char>,
    event: Event,
) -> Result<ConfigFields, DecodeError> {
    let id = id_at(position + fields.taken);
    if key == "str"@ {
        if fields.str is Some {
            Err(DecodeError::DuplicateField("str"))
        } else {
            match event {
                Event::Str(text) => Ok(
                    ConfigFields {
                        str: Some(Rich { value: text, meta: id }),
                        taken: fields.taken + 1,
                        ..fields
                    },
                ),
                _ => Err(DecodeError::InvalidType { expected: "a string" }),
            }
        }
    } else if key == "num"@ {
        if fields.num is Some {
            Err(DecodeError::DuplicateField("num"))
        } else {
            match event {
                Event::Number(number) if 0 <= number <= u32::MAX => Ok(
                    ConfigFields {
                        num: Some(Rich { value: number as u32, meta: id }),
                        taken: fields.taken + 1,
                        ..fields
                    },
                ),
                _ => Err(DecodeError::InvalidType { expected: "u32" }),
            }
        }
    } else if key == "nested"@ {
        if fields.nested is Some {
            Err(DecodeError::DuplicateField("nested"))
        } else {
            match decoded_nested(event, position + fields.taken) {
                Ok(nested) => Ok(
                    ConfigFields { nested: Some(nested), taken: fields.taken + 2, ..fields },
                ),
                Err(error) => Err(error),
            }
        }
    } else {
        Ok(fields)
    }
}

/// What `members`, read one after the other, make of the fields of a
/// [`RichConfig`]. The first member that fails decides the error.
pub open spec fn config_members(members: Seq<(String, Event)>, position: int) -> Result<
    ConfigFields,
    DecodeError,
>
    decreases members.len(),
{
    if members.len() == 0 {
        Ok(ConfigFields { str: None, num: None, nested: None, taken: 0 })
    } else {
        match config_members(members.drop_last(), position) {
            Ok(fields) => config_member(fields, position, members.last().0@, members.last().1),
            Err(error) => Err(error),
        }
    }
}

/// What the decoding of `event` as a [`RichConfig`] gives, when the scope has
/// issued `position` identifiers before. Of several fields that did not
/// come, the first in the order `str`, `num`, `nested` is reported.
pub open spec fn decoded_config(event: Event, position: int) -> Result<
    Rich<RichConfig, MetaId>,
    DecodeError,
> {
    match event {
        Event::Mapping(members) => match config_members(members@, position) {
            Ok(fields) => if fields.str is None {
                Err(DecodeError::MissingField("str"))
            } else if fields.num is None {
                Err(DecodeError::MissingField("num"))
            } else if fields.nested is None {
                Err(DecodeError::MissingField("nested"))
            } else {
                Ok(
                    Rich {
                        value: RichConfig {
                            str: fields.str->Some_0,
                            num: fields.num->Some_0,
                            nested: fields.nested->Some_0,
                        },
                        meta: id_at(position + fields.taken),
                    },
                )
            },
            Err(error) => Err(error),
        },
        _ => Err(DecodeError::InvalidType { expected: "struct Config" }),
    }
}

/// How many identifiers the fields in `fields` have taken: one for a text or
/// a number, two for a record with one field.
pub open spec fn config_taken(fields: ConfigFields) -> nat {
    let str: nat = if fields.str is Some { 1 } else { 0 };
    let num: nat = if fields.num is Some { 1 } else { 0 };
    let nested: nat = if fields.nested is Some { 2 } else { 0 };
    str + num + nested
}

/// How many identifiers the decoding of one more member takes when it
/// fails: those that the decoding of its record took before it failed, if the
/// member was to fill the field `nested`, and none otherwise.
pub open spec fn config_member_taken(
    fields: ConfigFields,
    position: int,
    key: Seq<char>,
    event: Event,
) -> nat {
    if key == "nested"@ && fields.nested is None {
        nested_taken(event, position + fields.taken)
    } else {
        0
    }
}

/// How many identifiers `members` take, read one after the other, whether
/// they fail or not: those of each field that is filled before the first
/// member that fails, and those that this member took before it failed.
pub open spec fn config_members_taken(members: Seq<(String, Event)>, position: int) -> nat
    decreases members.len(),
{
    if members.len() == 0 {
        0
    } else {
        match config_members(members.drop_last(), position) {
            Ok(fields) => match config_member(
                fields,
                position,
                members.last().0@,
                members.last().1,
            ) {
                Ok(next) => next.taken,
                Err(_) => fields.taken + config_member_taken(
                    fields,
                    position,
                    members.last().0@,
                    members.last().1,
                ),
            },
            Err(_) => config_members_taken(members.drop_last(), position),
        }
    }
}

/// How many identifiers the decoding of `event` as a [`RichConfig`] takes,
/// whether it fails or not: those of the members, and one for the record if
/// the decoding succeeds.
pub open spec fn config_taken_by(event: Event, position: int) -> nat {
    match event {
        Event::Mapping(members) => {
            let record: nat = if decoded_config(event, position) is Ok {
                1
            } else {
                0
            };
            config_members_taken(members@, position) + record
        },
        _ => 0,
    }
}

impl RichConfig {
    /// Decodes a [`Config`] and gives an identifier to each of its fields, to
    /// the field of its record, and to the whole.
    ///
    /// On success the scope has issued five identifiers. On failure it has
    /// issued those of the fields that were decoded before the failure.
    pub fn rich_deserialize(scope: &mut RichScope, event: &Event) -> (decoded: Result<
        Rich<RichConfig, MetaId>,
        DecodeError,
    >)
        ensures
            old(scope).wf(),
            final(scope).wf(),
            decoded == decoded_config(*event, old(scope).issued().len() as int),
            decoded is Ok ==> final(scope).issued().len() == old(scope).issued().len() + 5,
            final(scope).issued().len() == old(scope).issued().len() + config_taken_by(
                *event,
                old(scope).issued().len() as int,
            ),
            final(scope).issued().take(old(scope).issued().len() as int) == old(scope).issued(),
    {
        proof {
            use_type_invariant(&*scope);
        }
        let ghost start = scope.issued().len() as int;
        let ghost before = scope.issued();
        assert(before.take(start) =~= before);
        let members = match event {
            Event::Mapping(members) => members,
            _ => {
                return Err(DecodeError::InvalidType { expected: "struct Config" });
            },
        };
        let str_key = "str".to_owned();
        let num_key = "num".to_owned();
        let nested_key = "nested".to_owned();
        let mut str: Option<Rich<String, MetaId>> = None;
        let mut num: Option<Rich<u32, MetaId>> = None;
        let mut nested: Option<Rich<RichNested, MetaId>> = None;
        let mut i: usize = 0;
        assert(members@.take(0) =~= Seq::<(String, Event)>::empty());
        while i < members.len()
            invariant
                *event == Event::Mapping(*members),
                i <= members@.len(),
                str_key@ == "str"@,
                num_key@ == "num"@,
                nested_key@ == "nested"@,
                old(scope).wf(),
                scope.wf(),
                before == old(scope).issued(),
                before.len() == start,
                scope.issued().take(start) == before,
                config_members(members@.take(i as int), start) matches Ok(fields) && fields.str
                    == str && fields.num == num && fields.nested == nested
                    && scope.issued().len() == start + fields.taken && fields.taken
                    == config_taken(fields),
            decreases members@.len() - i,
        {
            let ghost issued = scope.issued();
            proof {
                assert(members@.take(i + 1).drop_last() =~= members@.take(i as int));
                lemma_config_keys_differ();
            }
            if members[i].0 == str_key {
                if str.is_some() {
                    proof {
                        lemma_config_members_fail(members@, i + 1, start);
                    }
                    return Err(DecodeError::DuplicateField("str"));
                }
                match &members[i].1 {
                    Event::Str(text) => {
                        str = Some(scope.attach(text.clone()));
                    },
                    _ => {
                        proof {
                            lemma_config_members_fail(members@, i + 1, start);
                        }
                        return Err(DecodeError::InvalidType { expected: "a string" });
                    },
                }
            } else if members[i].0 == num_key {
                if num.is_some() {
                    proof {
                        lemma_config_members_fail(members@, i + 1, start);
                    }
                    return Err(DecodeError::DuplicateField("num"));
                }
                let number = match &members[i].1 {
                    Event::Number(number) => u32_of(*number),
                    _ => None,
                };
                match number {
                    Some(number) => {
                        num = Some(scope.attach(number));
                    },
                    None => {
                        proof {
                            lemma_config_members_fail(members@, i + 1, start);
                        }
                        return Err(DecodeError::InvalidType { expected: "u32" });
                    },
                }
            } else if members[i].0 == nested_key {
                if nested.is_some() {
                    proof {
                        lemma_config_members_fail(members@, i + 1, start);
                    }
                    return Err(DecodeError::DuplicateField("nested"));
                }
                match RichNested::rich_deserialize(scope, &members[i].1) {
                    Ok(value) => {
                        nested = Some(value);
                    },
                    Err(error) => {
                        proof {
                            lemma_config_members_fail(members@, i + 1, start);
                            assert(scope.issued().take(start) =~= issued.take(start));
                        }
                        return Err(error);
                    },
                }
            }
            proof {
                assert(scope.issued().take(start) =~= issued.take(start));
            }
            i += 1;
        }
        proof {
            assert(members@.take(i as int) =~= members@);
        }
        let str = match str {
            Some(value) => value,
            None => {
                return Err(DecodeError::MissingField("str"));
            },
        };
        let num = match num {
            Some(value) => value,
            None => {
                return Err(DecodeError::MissingField("num"));
            },
        };
        let nested = match nested {
            Some(value) => value,
            None => {
                return Err(DecodeError::MissingField("nested"));
            },
        };
        let ghost issued = scope.issued();
        let rich = scope.attach(RichConfig { str, num, nested });
        proof {
            assert(scope.issued().take(start) =~= issued.take(start));
        }
        Ok(rich)
    }
}

/// The metadata that decoding puts beside the fields of a [`Config`]: its
/// projection through [`WrappedMetaProjector`].
pub type WrappedConfig = Project<Config, WrappedMetaProjector>;

/// The record of `rich` with its metadata beside it: the identifier of the
/// record on top, those of the fields below, and that of the field of its
/// record below that of the record.
pub open spec fn beside_config(rich: Rich<RichConfig, MetaId>) -> Rich<
    Config,
    WrappedMeta<WrappedConfig>,
> {
    let nested = beside_nested(rich.value.nested);
    Rich {
        value: Config {
            str: rich.value.str.value,
            num: rich.value.num.value,
            nested: nested.value,
        },
        meta: WrappedMeta {
            id: rich.meta,
            nested: ConfigStructure {
                str: WrappedMeta { id: rich.value.str.meta, nested: () },
                num: WrappedMeta { id: rich.value.num.meta, nested: () },
                nested: nested.meta,
            },
        },
    }
}

impl Config {
    /// Decodes a [`Config`] and puts its metadata beside it: the record gets
    /// what [`RichConfig::rich_deserialize`] decodes, and its metadata holds
    /// the same identifiers, that of the record on top.
    pub fn rich_deserialize(scope: &mut RichScope, event: &Event) -> (decoded: Result<
        Rich<Config, WrappedMeta<WrappedConfig>>,
        DecodeError,
    >)
        ensures
            old(scope).wf(),
            final(scope).wf(),
            decoded == match decoded_config(*event, old(scope).issued().len() as int) {
                Ok(rich) => Ok(beside_config(rich)),
                Err(error) => Err(error),
            },
            final(scope).issued().len() == old(scope).issued().len() + config_taken_by(
                *event,
                old(scope).issued().len() as int,
            ),
            final(scope).issued().take(old(scope).issued().len() as int) == old(scope).issued(),
    {
        match RichConfig::rich_deserialize(scope, event) {
            Ok(rich) => {
                let RichConfig { str, num, nested } = rich.value;
                let crab = WrappedMeta::new((), nested.value.crab.meta);
                let fields = ConfigStructure {
                    str: WrappedMeta::new((), str.meta),
                    num: WrappedMeta::new((), num.meta),
                    nested: WrappedMeta::new(NestedStructure { crab }, nested.meta),
                };
                Ok(
                    Rich::new(
                        Config {
                            str: str.value,
                            num: num.value,
                            nested: Nested { crab: nested.value.crab.value },
                        },
                        WrappedMeta::new(fields, rich.meta),
                    ),
                )
            },
            Err(error) => Err(error),
        }
    }
}

/// Once the first `n` members have failed, the members after them do not
/// matter: all members fail with the same error.
pub proof fn lemma_config_members_fail(members: Seq<(String, Event)>, n: int, position: int)
    requires
        0 <= n <= members.len(),
        config_members(members.take(n), position) is Err,
    ensures
        config_members(members, position) == config_members(members.take(n), position),
        config_members_taken(members, position) == config_members_taken(
            members.take(n),
            position,
        ),
    decreases members.len() - n,
{
    if n < members.len() {
        assert(members.take(n + 1).drop_last() =~= members.take(n));
        lemma_config_members_fail(members, n + 1, position);
    } else {
        assert(members.take(n) =~= members);
    }
}

/// Whether `event` can fill the field of a [`RichConfig`] that `key` names.
pub open spec fn config_field_fits(key: Seq<char>, event: Event) -> bool {
    if key == "str"@ {
        event is Str
    } else if key == "num"@ {
        event matches Event::Number(number) && 0 <= number <= u32::MAX
    } else {
        decoded_nested(event, 0) is Ok
    }
}

/// How many identifiers the field of a [`RichConfig`] that `key` names takes.
pub open spec fn config_field_ids(key: Seq<char>) -> nat {
    if key == "nested"@ {
        2
    } else {
        1
    }
}

/// How many identifiers the field `other` has taken when the field `key`
/// gets its own: all of its identifiers if its first member stands before
/// that of `key`, and none if not.
pub open spec fn taken_before(
    members: Seq<(String, Event)>,
    key: Seq<char>,
    other: Seq<char>,
) -> nat {
    if has_key(members, other) && first_index(members, other) < first_index(members, key) {
        config_field_ids(other)
    } else {
        0
    }
}

/// Whether `members` hold the field that `key` names at most once, and in a
/// member that can fill it.
pub open spec fn config_field_clean(members: Seq<(String, Event)>, key: Seq<char>) -> bool {
    &&& key_count(members, key) <= 1
    &&& key_count(members, key) == 1 ==> config_field_fits(key, first_event(members, key))
}

/// Whether `event` can be decoded as a [`RichConfig`]: it is a mapping that
/// holds each of the three fields just once, in a member that can fill it.
pub open spec fn config_fits(event: Event) -> bool {
    &&& event matches Event::Mapping(members)
    &&& key_count(members@, "str"@) == 1
    &&& key_count(members@, "num"@) == 1
    &&& key_count(members@, "nested"@) == 1
    &&& config_field_fits("str"@, first_event(members@, "str"@))
    &&& config_field_fits("num"@, first_event(members@, "num"@))
    &&& config_field_fits("nested"@, first_event(members@, "nested"@))
}

/// The three field names of a [`Config`] differ.
pub proof fn lemma_config_keys_differ()
    ensures
        "str"@ != "num"@,
        "str"@ != "nested"@,
        "num"@ != "nested"@,
{
    reveal_strlit("str");
    reveal_strlit("num");
    reveal_strlit("nested");
    assert("str"@.len() == 3);
    assert("nested"@.len() == 6);
    assert("str"@[0] == 's');
    assert("num"@[0] == 'n');
}

/// What `fields` say of `members`: a field is filled if and only if just one
/// member names it; it then holds what the first such member holds, and the
/// identifier that follows those of the fields which came before it.
pub open spec fn config_fields_described(
    members: Seq<(String, Event)>,
    position: int,
    fields: ConfigFields,
) -> bool {
    &&& fields.taken == config_taken(fields)
    &&& fields.str is Some <==> key_count(members, "str"@) == 1
    &&& fields.num is Some <==> key_count(members, "num"@) == 1
    &&& fields.nested is Some <==> key_count(members, "nested"@) == 1
    &&& fields.str matches Some(rich) ==> {
        &&& first_event(members, "str"@) == Event::Str(rich.value)
        &&& rich.meta == id_at(
            position + taken_before(members, "str"@, "num"@) + taken_before(
                members,
                "str"@,
                "nested"@,
            ),
        )
    }
    &&& fields.num matches Some(rich) ==> {
        &&& first_event(members, "num"@) == Event::Number(rich.value as i64)
        &&& rich.meta == id_at(
            position + taken_before(members, "num"@, "str"@) + taken_before(
                members,
                "num"@,
                "nested"@,
            ),
        )
    }
    &&& fields.nested matches Some(rich) ==> decoded_nested(
        first_event(members, "nested"@),
        position + taken_before(members, "nested"@, "str"@) + taken_before(
            members,
            "nested"@,
            "num"@,
        ),
    ) == Ok::<Rich<RichNested, MetaId>, DecodeError>(rich)
}

/// Whether `members` hold each field of a [`Config`] at most once, and in a
/// member that can fill it.
pub open spec fn config_clean(members: Seq<(String, Event)>) -> bool {
    &&& config_field_clean(members, "str"@)
    &&& config_field_clean(members, "num"@)
    &&& config_field_clean(members, "nested"@)
}

/// What the members make of the fields of a [`RichConfig`], said at once:
/// they fail if and only if a field comes twice or in a member that cannot
/// fill it; if they do not fail, the fields are as
/// [`config_fields_described`] says.
pub proof fn lemma_config_members(members: Seq<(String, Event)>, position: int)
    ensures
        config_members(members, position) is Ok <==> config_clean(members),
        config_members(members, position) matches Ok(fields) ==> config_fields_described(
            members,
            position,
            fields,
        ),
    decreases members.len(),
{
    lemma_config_keys_differ();
    let str_key = "str"@;
    let num_key = "num"@;
    let nested_key = "nested"@;
    lemma_key_count_has_key(members, str_key);
    lemma_key_count_has_key(members, num_key);
    lemma_key_count_has_key(members, nested_key);
    if members.len() > 0 {
        let shorter = members.drop_last();
        let key = members.last().0@;
        let event = members.last().1;
        lemma_config_members(shorter, position);
        lemma_key_count_has_key(shorter, str_key);
        lemma_key_count_has_key(shorter, num_key);
        lemma_key_count_has_key(shorter, nested_key);
        if key != str_key {
            lemma_other_key_stays(members, str_key);
        } else if has_key(shorter, str_key) {
            lemma_first_index_stays(members, str_key);
        } else {
            lemma_first_index_last(members, str_key);
        }
        if key != num_key {
            lemma_other_key_stays(members, num_key);
        } else if has_key(shorter, num_key) {
            lemma_first_index_stays(members, num_key);
        } else {
            lemma_first_index_last(members, num_key);
        }
        if key != nested_key {
            lemma_other_key_stays(members, nested_key);
        } else if has_key(shorter, nested_key) {
            lemma_first_index_stays(members, nested_key);
        } else {
            lemma_first_index_last(members, nested_key);
        }
        match config_members(shorter, position) {
            Ok(fields) => {
                if key == nested_key && fields.nested is None {
                    lemma_decoded_nested_anywhere(event, position + fields.taken, 0);
                    lemma_decoded_nested(event, position + fields.taken);
                }
                match config_member(fields, position, key, event) {
                    Ok(next) => {
                        if next.str is Some {
                            if fields.str is Some {
                                assert(taken_before(members, str_key, num_key) == taken_before(
                                    shorter,
                                    str_key,
                                    num_key,
                                ));
                                assert(taken_before(members, str_key, nested_key) == taken_before(
                                    shorter,
                                    str_key,
                                    nested_key,
                                ));
                            } else {
                                assert(taken_before(members, str_key, num_key) == if fields.num
                                    is Some {
                                    1nat
                                } else {
                                    0nat
                                });
                                assert(taken_before(members, str_key, nested_key) == if fields.nested
                                    is Some {
                                    2nat
                                } else {
                                    0nat
                                });
                            }
                        }
                        if next.num is Some {
                            if fields.num is Some {
                                assert(taken_before(members, num_key, str_key) == taken_before(
                                    shorter,
                                    num_key,
                                    str_key,
                                ));
                                assert(taken_before(members, num_key, nested_key) == taken_before(
                                    shorter,
                                    num_key,
                                    nested_key,
                                ));
                            } else {
                                assert(taken_before(members, num_key, str_key) == if fields.str
                                    is Some {
                                    1nat
                                } else {
                                    0nat
                                });
                                assert(taken_before(members, num_key, nested_key) == if fields.nested
                                    is Some {
                                    2nat
                                } else {
                                    0nat
                                });
                            }
                        }
                        if next.nested is Some {
                            if fields.nested is Some {
                                assert(taken_before(members, nested_key, str_key) == taken_before(
                                    shorter,
                                    nested_key,
                                    str_key,
                                ));
                                assert(taken_before(members, nested_key, num_key) == taken_before(
                                    shorter,
                                    nested_key,
                                    num_key,
                                ));
                            } else {
                                assert(taken_before(members, nested_key, str_key) == if fields.str
                                    is Some {
                                    1nat
                                } else {
                                    0nat
                                });
                                assert(taken_before(members, nested_key, num_key) == if fields.num
                                    is Some {
                                    1nat
                                } else {
                                    0nat
                                });
                            }
                        }
                        assert(config_fields_described(members, position, next));
                    },
                    Err(_) => {},
                }
            },
            Err(_) => {},
        }
    }
}

/// When a [`RichConfig`] is decoded, and what it then holds.
///
/// The decoding succeeds if and only if the event is a mapping that holds
/// each of the three fields just once, in a member that can fill it. Each
/// field then holds what its member holds, and the identifier that follows
/// those of the fields which came before it in the input; the record gets
/// the identifier after all of them. Where no field comes twice or in a
/// member that cannot fill it, the decoding fails only for a field that did
/// not come, and reports the first such field in the order `str`, `num`,
/// `nested`.
pub proof fn lemma_decoded_config(event: Event, position: int)
    ensures
        decoded_config(event, position) is Ok <==> config_fits(event),
        decoded_config(event, position) matches Ok(rich) ==> {
            &&& event matches Event::Mapping(members)
            &&& config_fields_described(
                members@,
                position,
                ConfigFields {
                    str: Some(rich.value.str),
                    num: Some(rich.value.num),
                    nested: Some(rich.value.nested),
                    taken: 4,
                },
            )
            &&& rich.meta == id_at(position + 4)
        },
        event matches Event::Mapping(members) ==> (config_clean(members@) && !config_fits(event)
            ==> decoded_config(event, position) == Err::<Rich<RichConfig, MetaId>, DecodeError>(
            DecodeError::MissingField(
                if key_count(members@, "str"@) == 0 {
                    "str"
                } else if key_count(members@, "num"@) == 0 {
                    "num"
                } else {
                    "nested"
                },
            ),
        )),
{
    match event {
        Event::Mapping(members) => {
            lemma_config_members(members@, position);
        },
        _ => {},
    }
}

} // verus!
