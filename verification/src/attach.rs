//! Attaching identifiers to a document while it is decoded.

use crate::meta::{Rich, WrappedMeta};
use crate::object_map::{
    has_key, is_first, keys_of, lemma_first_index, lemma_has_key_push, ObjectMap,
};
use crate::scope::{id_at, RichScope};
use crate::value::{ids_below, post_ordered, same_shape, NodeMeta, Value, ValueMeta};
use vstd::prelude::*;

verus! {

/// What a decoder reports of one node: a scalar with its value, a sequence
/// with what it reported of each element, or a mapping with what it reported
/// of each member. Elements and members stand in the order in which the
/// decoder met them.
#[derive(Debug, PartialEq, Eq)]
pub enum Event {
    /// A truth value.
    Bool(bool),
    /// A whole number.
    Number(i64),
    /// A text.
    Str(String),
    /// A sequence, with its elements.
    Sequence(Vec<Event>),
    /// A mapping, with its keys and what is under them.
    Mapping(Vec<(String, Event)>),
}

/// How many identifiers the decoding of `event` takes: two for a scalar, and
/// one for a sequence or mapping on top of those of what it holds.
pub open spec fn id_count(event: Event) -> nat
    decreases event,
{
    match event {
        Event::Bool(_) => 2,
        Event::Number(_) => 2,
        Event::Str(_) => 2,
        Event::Sequence(items) => seq_id_count(items@) + 1,
        Event::Mapping(members) => map_id_count(members@) + 1,
    }
}

/// How many identifiers the decoding of all of `items` takes.
pub open spec fn seq_id_count(items: Seq<Event>) -> nat
    decreases items,
{
    if items.len() == 0 {
        0
    } else {
        seq_id_count(items.drop_last()) + id_count(items.last())
    }
}

/// How many identifiers the decoding of all of `members` takes.
pub open spec fn map_id_count(members: Seq<(String, Event)>) -> nat
    decreases members,
{
    if members.len() == 0 {
        0
    } else {
        map_id_count(members.drop_last()) + id_count(members.last().1)
    }
}

/// Whether no member of `members` after position `i` has the key of the
/// member at `i`: that member decides what is stored under its key.
pub open spec fn is_last(members: Seq<(String, Event)>, i: int) -> bool {
    &&& 0 <= i < members.len()
    &&& forall|j: int| i < j < members.len() ==> (#[trigger] members[j]).0@ != members[i].0@
}

/// The keys of `members`, each once, in the order in which they first come.
pub open spec fn first_keys(members: Seq<(String, Event)>) -> Seq<Seq<char>>
    decreases members.len(),
{
    if members.len() == 0 {
        Seq::empty()
    } else if has_key(members.drop_last(), members.last().0@) {
        first_keys(members.drop_last())
    } else {
        first_keys(members.drop_last()).push(members.last().0@)
    }
}

/// The metadata of a scalar that was decoded at position `position` of the
/// scope's numbering: the scalar takes that position, the node the next.
pub open spec fn scalar_meta(position: int, nested: ValueMeta) -> NodeMeta {
    WrappedMeta { id: id_at(position + 1), nested: Some(nested) }
}

/// Whether `value` with `meta` is what the decoding of `event` gives, when the
/// scope has issued `position` identifiers before.
///
/// The value is the document that `event` describes. An object keeps its
/// keys in the order in which they first come, and of two members with one
/// key the later stays. Identifiers go bottom-up and left to right: each
/// element or member is decoded where the one before it ended, and a node
/// gets its own identifier after everything below it has got one.
pub open spec fn attached(event: Event, position: int, value: Value, meta: NodeMeta) -> bool
    decreases event,
{
    let leaf = WrappedMeta { id: id_at(position), nested: () };
    match event {
        Event::Bool(b) => {
            &&& value == Value::Bool(b)
            &&& meta == scalar_meta(position, ValueMeta::Bool(leaf))
        },
        Event::Number(n) => {
            &&& value == Value::Number(n)
            &&& meta == scalar_meta(position, ValueMeta::Number(id_at(position)))
        },
        Event::Str(s) => {
            &&& value matches Value::String(text)
            &&& text@ == s@
            &&& meta == scalar_meta(position, ValueMeta::String(leaf))
        },
        Event::Sequence(items) => {
            &&& value matches Value::Array(values)
            &&& meta.nested matches Some(ValueMeta::Array(metas))
            &&& meta.id == id_at(position + seq_id_count(items@))
            &&& values@.len() == items@.len()
            &&& metas@.len() == items@.len()
            &&& forall|i: int|
                0 <= i < items@.len() ==> attached(
                    items@[i],
                    position + seq_id_count(items@.take(i)),
                    #[trigger] values@[i],
                    metas@[i],
                )
        },
        Event::Mapping(members) => {
            &&& value matches Value::Object(values)
            &&& meta.nested matches Some(ValueMeta::Object(metas))
            &&& meta.id == id_at(position + map_id_count(members@))
            &&& values.wf()
            &&& metas.wf()
            &&& keys_of(values.entries@) == first_keys(members@)
            &&& keys_of(metas.entries@) == first_keys(members@)
            &&& forall|key: Seq<char>| values@.contains_key(key) <==> has_key(members@, key)
            &&& forall|key: Seq<char>| metas@.contains_key(key) <==> has_key(members@, key)
            &&& forall|i: int| #[trigger]
                is_last(members@, i) ==> attached(
                    members@[i].1,
                    position + map_id_count(members@.take(i)),
                    values@[members@[i].0@],
                    metas@[members@[i].0@],
                )
        },
    }
}

/// Decoding one more element takes the identifiers of that element on top of
/// those of the elements before it.
pub proof fn lemma_seq_id_count_step(items: Seq<Event>, i: int)
    requires
        0 <= i < items.len(),
    ensures
        seq_id_count(items.take(i + 1)) == seq_id_count(items.take(i)) + id_count(items[i]),
{
    assert(items.take(i + 1).drop_last() =~= items.take(i));
}

/// Decoding one more member takes the identifiers of that member on top of
/// those of the members before it.
pub proof fn lemma_map_id_count_step(members: Seq<(String, Event)>, i: int)
    requires
        0 <= i < members.len(),
    ensures
        map_id_count(members.take(i + 1)) == map_id_count(members.take(i)) + id_count(
            members[i].1,
        ),
{
    assert(members.take(i + 1).drop_last() =~= members.take(i));
}

/// Whether `values` and `metas` are what the decoding of the first `n` of
/// `members` has stored, when it began at position `position`.
pub open spec fn members_attached(
    members: Seq<(String, Event)>,
    n: int,
    position: int,
    values: Map<Seq<char>, Value>,
    metas: Map<Seq<char>, NodeMeta>,
) -> bool {
    &&& forall|key: Seq<char>| values.contains_key(key) <==> has_key(members.take(n), key)
    &&& forall|key: Seq<char>| metas.contains_key(key) <==> has_key(members.take(n), key)
    &&& forall|j: int| #[trigger]
        is_last(members.take(n), j) ==> attached(
            members[j].1,
            position + map_id_count(members.take(j)),
            values[members[j].0@],
            metas[members[j].0@],
        )
}

/// Storing what the decoding of member `n` gave, under that member's key,
/// extends [`members_attached`] from the first `n` members to the first
/// `n + 1`.
pub proof fn lemma_members_attached_step(
    members: Seq<(String, Event)>,
    n: int,
    position: int,
    values: Map<Seq<char>, Value>,
    metas: Map<Seq<char>, NodeMeta>,
    value: Value,
    meta: NodeMeta,
)
    requires
        0 <= n < members.len(),
        members_attached(members, n, position, values, metas),
        attached(members[n].1, position + map_id_count(members.take(n)), value, meta),
    ensures
        members_attached(
            members,
            n + 1,
            position,
            values.insert(members[n].0@, value),
            metas.insert(members[n].0@, meta),
        ),
{
    let shorter = members.take(n);
    let longer = members.take(n + 1);
    let key = members[n].0@;
    let new_values = values.insert(key, value);
    let new_metas = metas.insert(key, meta);
    assert(longer =~= shorter.push(members[n]));
    lemma_has_key_push(shorter, members[n]);
    assert forall|j: int| #[trigger] is_last(longer, j) implies attached(
        members[j].1,
        position + map_id_count(members.take(j)),
        new_values[members[j].0@],
        new_metas[members[j].0@],
    ) by {
        if j < n {
            assert(longer[n].0@ != longer[j].0@);
            assert forall|m: int| j < m < shorter.len() implies (#[trigger] shorter[m]).0@
                != shorter[j].0@ by {
                assert(longer[m].0@ != longer[j].0@);
            }
            assert(is_last(shorter, j));
            assert(members[j].0@ != key);
            assert(new_values[members[j].0@] == values[members[j].0@]);
            assert(new_metas[members[j].0@] == metas[members[j].0@]);
        } else {
            assert(j == n);
            assert(new_values[key] == value);
            assert(new_metas[key] == meta);
        }
    }
    assert forall|k: Seq<char>| new_values.contains_key(k) <==> has_key(longer, k) by {
        assert(has_key(longer, k) == (has_key(shorter, k) || k == key));
    }
    assert forall|k: Seq<char>| new_metas.contains_key(k) <==> has_key(longer, k) by {
        assert(has_key(longer, k) == (has_key(shorter, k) || k == key));
    }
}

impl Value {
    /// Decodes one node: builds the document that `event` describes, and with
    /// it the metadata of every node, taking the identifiers from `scope`.
    ///
    /// A scalar takes two identifiers, one for the scalar itself and one for
    /// the node that holds it. A sequence or mapping is decoded element by
    /// element, in the order of `event`, and takes one identifier after them.
    pub fn rich_deserialize(scope: &mut RichScope, event: &Event) -> (rich: Rich<Value, NodeMeta>)
        ensures
            old(scope).wf(),
            final(scope).wf(),
            attached(*event, old(scope).issued().len() as int, rich.value, rich.meta),
            same_shape(rich.value, rich.meta),
            old(scope).issued().len() + id_count(*event) <= usize::MAX + 1 ==> post_ordered(
                rich.meta,
            ),
            final(scope).issued().len() == old(scope).issued().len() + id_count(*event),
            final(scope).issued().take(old(scope).issued().len() as int) == old(scope).issued(),
        decreases event,
    {
        proof {
            use_type_invariant(&*scope);
        }
        let ghost start = scope.issued().len() as int;
        let ghost before = scope.issued();
        let rich = match event {
            Event::Bool(b) => {
                let leaf = scope.attach(*b);
                let nested = ValueMeta::Bool(WrappedMeta::new((), leaf.meta));
                let rich = scope.wrap(Rich::new(Value::Bool(leaf.value), Some(nested)));
                assert(scope.issued().take(start) =~= before);
                rich
            },
            Event::Number(n) => {
                let leaf = scope.attach(*n);
                let nested = ValueMeta::Number(leaf.meta);
                let rich = scope.wrap(Rich::new(Value::Number(leaf.value), Some(nested)));
                assert(scope.issued().take(start) =~= before);
                rich
            },
            Event::Str(s) => {
                let leaf = scope.attach(s.clone());
                let nested = ValueMeta::String(WrappedMeta::new((), leaf.meta));
                let rich = scope.wrap(Rich::new(Value::String(leaf.value), Some(nested)));
                assert(scope.issued().take(start) =~= before);
                rich
            },
            Event::Sequence(items) => {
                let mut values: Vec<Value> = Vec::new();
                let mut metas: Vec<NodeMeta> = Vec::new();
                let mut i: usize = 0;
                while i < items.len()
                    invariant
                        *event == Event::Sequence(*items),
                        i <= items@.len(),
                        values@.len() == i,
                        metas@.len() == i,
                        scope.wf(),
                        scope.issued().len() == start + seq_id_count(items@.take(i as int)),
                        scope.issued().take(start) == before,
                        before.len() == start,
                        forall|j: int|
                            0 <= j < i ==> attached(
                                items@[j],
                                start + seq_id_count(items@.take(j)),
                                #[trigger] values@[j],
                                metas@[j],
                            ),
                    decreases items@.len() - i,
                {
                    let ghost issued = scope.issued();
                    proof {
                        // An element is smaller than the sequence that holds it.
                        assert(decreases_to!(*event => event->Sequence_0));
                        assert(decreases_to!(*items => items[i as int]));
                    }
                    let child = Value::rich_deserialize(scope, &items[i]);
                    proof {
                        lemma_seq_id_count_step(items@, i as int);
                        assert(scope.issued().take(start) =~= issued.take(start));
                    }
                    values.push(child.value);
                    metas.push(child.meta);
                    i += 1;
                }
                proof {
                    assert(items@.take(i as int) =~= items@);
                }
                let ghost issued = scope.issued();
                let rich = scope.wrap(Rich::new(Value::Array(values), Some(ValueMeta::Array(metas))));
                assert(scope.issued().take(start) =~= issued.take(start));
                rich
            },
            Event::Mapping(members) => {
                let mut values: ObjectMap<Value> = ObjectMap::new();
                let mut metas: ObjectMap<NodeMeta> = ObjectMap::new();
                let mut i: usize = 0;
                proof {
                    assert(members@.take(0) =~= Seq::<(String, Event)>::empty());
                    assert(keys_of(values.entries@) =~= Seq::<Seq<char>>::empty());
                    assert(keys_of(metas.entries@) =~= Seq::<Seq<char>>::empty());
                }
                while i < members.len()
                    invariant
                        *event == Event::Mapping(*members),
                        i <= members@.len(),
                        values.wf(),
                        metas.wf(),
                        scope.wf(),
                        scope.issued().len() == start + map_id_count(members@.take(i as int)),
                        scope.issued().take(start) == before,
                        before.len() == start,
                        members_attached(members@, i as int, start, values@, metas@),
                        keys_of(values.entries@) == first_keys(members@.take(i as int)),
                        keys_of(metas.entries@) == first_keys(members@.take(i as int)),
                    decreases members@.len() - i,
                {
                    let ghost issued = scope.issued();
                    proof {
                        assert(members@.take(i + 1).drop_last() =~= members@.take(i as int));
                    }
                    proof {
                        // A member is smaller than the mapping that holds it.
                        assert(decreases_to!(*event => event->Mapping_0));
                        assert(decreases_to!(*members => members[i as int]));
                        assert(decreases_to!(members[i as int] => members[i as int].1));
                    }
                    let child = Value::rich_deserialize(scope, &members[i].1);
                    proof {
                        lemma_map_id_count_step(members@, i as int);
                        assert(scope.issued().take(start) =~= issued.take(start));
                        lemma_members_attached_step(
                            members@,
                            i as int,
                            start,
                            values@,
                            metas@,
                            child.value,
                            child.meta,
                        );
                    }
                    values.insert(members[i].0.clone(), child.value);
                    metas.insert(members[i].0.clone(), child.meta);
                    i += 1;
                }
                proof {
                    assert(members@.take(i as int) =~= members@);
                }
                let ghost issued = scope.issued();
                let rich = scope.wrap(
                    Rich::new(Value::Object(values), Some(ValueMeta::Object(metas))),
                );
                assert(scope.issued().take(start) =~= issued.take(start));
                rich
            },
        };
        proof {
            lemma_attached_same_shape(*event, start, rich.value, rich.meta);
            if start + id_count(*event) <= usize::MAX + 1 {
                lemma_attached_post_ordered(*event, start, rich.value, rich.meta);
            }
        }
        rich
    }
}

/// The elements up to and with the one at `i` take no more identifiers than
/// all elements do.
pub proof fn lemma_seq_id_count_prefix(items: Seq<Event>, i: int)
    requires
        0 <= i < items.len(),
    ensures
        seq_id_count(items.take(i)) + id_count(items[i]) <= seq_id_count(items),
    decreases items.len() - i,
{
    lemma_seq_id_count_step(items, i);
    if i + 1 < items.len() {
        lemma_seq_id_count_prefix(items, i + 1);
    } else {
        assert(items.take(i + 1) =~= items);
    }
}

/// The members up to and with the one at `i` take no more identifiers than
/// all members do.
pub proof fn lemma_map_id_count_prefix(members: Seq<(String, Event)>, i: int)
    requires
        0 <= i < members.len(),
    ensures
        map_id_count(members.take(i)) + id_count(members[i].1) <= map_id_count(members),
    decreases members.len() - i,
{
    lemma_map_id_count_step(members, i);
    if i + 1 < members.len() {
        lemma_map_id_count_prefix(members, i + 1);
    } else {
        assert(members.take(i + 1) =~= members);
    }
}

/// A key that occurs among `members` has a last member.
pub proof fn lemma_last_exists(members: Seq<(String, Event)>, key: Seq<char>)
    requires
        has_key(members, key),
    ensures
        exists|j: int| #[trigger] is_last(members, j) && members[j].0@ == key,
    decreases members.len(),
{
    let n = members.len() - 1;
    if members[n].0@ == key {
        assert(is_last(members, n));
    } else {
        let shorter = members.drop_last();
        let i = choose|i: int| 0 <= i < members.len() && (#[trigger] members[i]).0@ == key;
        assert(shorter[i].0@ == key);
        lemma_last_exists(shorter, key);
        let j = choose|j: int| #[trigger] is_last(shorter, j) && shorter[j].0@ == key;
        assert forall|m: int| j < m < members.len() implies (#[trigger] members[m]).0@
            != members[j].0@ by {
            if m < n {
                assert(shorter[m].0@ != shorter[j].0@);
            }
        }
        assert(is_last(members, j));
    }
}

/// Raising the bound keeps [`ids_below`].
pub proof fn lemma_ids_below_weaken(meta: NodeMeta, lower: int, higher: int)
    requires
        ids_below(meta, lower),
        lower <= higher,
    ensures
        ids_below(meta, higher),
    decreases meta,
{
    match meta.nested {
        Some(ValueMeta::Array(metas)) => {
            assert forall|i: int| 0 <= i < metas@.len() implies ids_below(
                #[trigger] metas@[i],
                higher,
            ) by {
                lemma_ids_below_weaken(metas@[i], lower, higher);
            }
        },
        Some(ValueMeta::Object(metas)) => {
            assert forall|i: int| 0 <= i < metas.entries@.len() implies ids_below(
                (#[trigger] metas.entries@[i]).1,
                higher,
            ) by {
                lemma_ids_below_weaken(metas.entries@[i].1, lower, higher);
            }
        },
        _ => {},
    }
}

/// Shape isomorphism: the metadata that a decoding gives branches exactly as
/// the document that it gives, at every depth.
pub proof fn lemma_attached_same_shape(event: Event, position: int, value: Value, meta: NodeMeta)
    requires
        attached(event, position, value, meta),
    ensures
        same_shape(value, meta),
    decreases event,
{
    match event {
        Event::Sequence(items) => {
            let values = value->Array_0;
            let metas = meta.nested->Some_0->Array_0;
            assert forall|i: int| 0 <= i < values@.len() implies same_shape(
                #[trigger] values@[i],
                metas@[i],
            ) by {
                lemma_attached_same_shape(
                    items@[i],
                    position + seq_id_count(items@.take(i)),
                    values@[i],
                    metas@[i],
                );
            }
        },
        Event::Mapping(members) => {
            let values = value->Object_0;
            let metas = meta.nested->Some_0->Object_0;
            assert forall|key: Seq<char>|
                values@.dom().contains(key) == metas@.dom().contains(key) by {
                assert(values@.contains_key(key) <==> has_key(members@, key));
                assert(metas@.contains_key(key) <==> has_key(members@, key));
            }
            assert(values@.dom() =~= metas@.dom());
            assert forall|i: int|
                is_first(values.entries@, values.entries@[i].0@, i) implies same_shape(
                (#[trigger] values.entries@[i]).1,
                metas@[values.entries@[i].0@],
            ) by {
                let key = values.entries@[i].0@;
                lemma_first_index(values.entries@, key, i);
                assert(values@.contains_key(key));
                lemma_last_exists(members@, key);
                let j = choose|j: int| #[trigger] is_last(members@, j) && members@[j].0@ == key;
                lemma_attached_same_shape(
                    members@[j].1,
                    position + map_id_count(members@.take(j)),
                    values@[key],
                    metas@[key],
                );
            }
        },
        _ => {},
    }
}

/// Post-order allocation: as long as the numbering does not run out during a
/// decoding, each node of the metadata that it gives has an identifier
/// greater than every identifier below that node. The root has the last
/// identifier that the decoding takes, so that every identifier issued
/// during the decoding, kept or not, is less than that of the root.
pub proof fn lemma_attached_post_ordered(
    event: Event,
    position: int,
    value: Value,
    meta: NodeMeta,
)
    requires
        attached(event, position, value, meta),
        0 <= position,
        position + id_count(event) <= usize::MAX + 1,
    ensures
        post_ordered(meta),
        meta.id.0 == position + id_count(event) - 1,
        ids_below(meta, position + id_count(event)),
    decreases event,
{
    match event {
        Event::Sequence(items) => {
            let values = value->Array_0;
            let metas = meta.nested->Some_0->Array_0;
            assert forall|i: int| 0 <= i < metas@.len() implies {
                &&& ids_below(#[trigger] metas@[i], meta.id.0 as int)
                &&& post_ordered(metas@[i])
            } by {
                let at = position + seq_id_count(items@.take(i));
                lemma_seq_id_count_prefix(items@, i);
                assert(attached(items@[i], at, values@[i], metas@[i]));
                lemma_attached_post_ordered(items@[i], at, values@[i], metas@[i]);
                lemma_ids_below_weaken(metas@[i], at + id_count(items@[i]), meta.id.0 as int);
            }
            assert forall|i: int| 0 <= i < metas@.len() implies ids_below(
                #[trigger] metas@[i],
                position + id_count(event),
            ) by {
                lemma_ids_below_weaken(metas@[i], meta.id.0 as int, position + id_count(event));
            }
        },
        Event::Mapping(members) => {
            let values = value->Object_0;
            let metas = meta.nested->Some_0->Object_0;
            assert forall|i: int| 0 <= i < metas.entries@.len() implies {
                &&& ids_below((#[trigger] metas.entries@[i]).1, meta.id.0 as int)
                &&& post_ordered(metas.entries@[i].1)
            } by {
                let key = metas.entries@[i].0@;
                assert(is_first(metas.entries@, key, i));
                lemma_first_index(metas.entries@, key, i);
                assert(metas@.contains_key(key));
                lemma_last_exists(members@, key);
                let j = choose|j: int| #[trigger] is_last(members@, j) && members@[j].0@ == key;
                let at = position + map_id_count(members@.take(j));
                lemma_map_id_count_prefix(members@, j);
                lemma_attached_post_ordered(members@[j].1, at, values@[key], metas@[key]);
                lemma_ids_below_weaken(metas@[key], at + id_count(members@[j].1), meta.id.0 as int);
            }
            assert forall|i: int| 0 <= i < metas.entries@.len() implies ids_below(
                (#[trigger] metas.entries@[i]).1,
                position + id_count(event),
            ) by {
                lemma_ids_below_weaken(
                    metas.entries@[i].1,
                    meta.id.0 as int,
                    position + id_count(event),
                );
            }
        },
        _ => {},
    }
}

} // verus!
