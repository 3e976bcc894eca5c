//! Decoding and splitting records: values whose fields are known ahead of
//! time.
//!
//! A record is decoded from a mapping. Each member whose key names a field is
//! decoded into that field and gets an identifier, in the order in which the
//! members come; members with other keys are passed over. A field may come
//! once only, and every field has to come. The record gets its own
//! identifier after its fields.

pub mod config;
pub mod nested;

pub use config::{Config, ConfigStructure, MetaConfig, RichConfig, WrappedConfig};
pub use nested::{MetaNested, Nested, NestedStructure, RichNested, WrappedNested};

use crate::attach::Event;
use crate::object_map::{first_index, has_key, is_first, lemma_first_index, lemma_has_first};
use vstd::prelude::*;

verus! {

/// Why a record could not be decoded.
#[derive(Debug, Clone, Copy, PartialEq, Eq)]
pub enum DecodeError {
    /// The event is not what was to be decoded: it is no mapping, or a member
    /// does not hold what its field takes. `expected` says what was to come.
    InvalidType {
        /// What was to come.
        expected: &'static str,
    },
    /// A member names a field that an earlier member has filled.
    DuplicateField(&'static str),
    /// No member names this field.
    MissingField(&'static str),
}

/// How many of `members` have the key `key`.
pub open spec fn key_count(members: Seq<(String, Event)>, key: Seq<char>) -> nat
    decreases members.len(),
{
    if members.len() == 0 {
        0
    } else {
        let last: nat = if members.last().0@ == key {
            1
        } else {
            0
        };
        key_count(members.drop_last(), key) + last
    }
}

/// A key is counted if and only if it occurs.
pub proof fn lemma_key_count_has_key(members: Seq<(String, Event)>, key: Seq<char>)
    ensures
        key_count(members, key) > 0 <==> has_key(members, key),
    decreases members.len(),
{
    if members.len() > 0 {
        let shorter = members.drop_last();
        lemma_key_count_has_key(shorter, key);
        if has_key(shorter, key) {
            let i = choose|i: int| 0 <= i < shorter.len() && (#[trigger] shorter[i]).0@ == key;
            assert(members[i].0@ == key);
        }
        if members.last().0@ == key {
            assert(members[members.len() - 1].0@ == key);
        }
        if has_key(members, key) && members.last().0@ != key {
            let i = choose|i: int| 0 <= i < members.len() && (#[trigger] members[i]).0@ == key;
            assert(shorter[i].0@ == key);
        }
    }
}

/// The event under the first member of `members` that has the key `key`.
pub open spec fn first_event(members: Seq<(String, Event)>, key: Seq<char>) -> Event {
    members[first_index(members, key)].1
}

/// One more member does not move the first member of a key that occurred
/// before it.
pub proof fn lemma_first_index_stays(members: Seq<(String, Event)>, key: Seq<char>)
    requires
        members.len() > 0,
        has_key(members.drop_last(), key),
    ensures
        has_key(members, key),
        first_index(members, key) == first_index(members.drop_last(), key),
        first_event(members, key) == first_event(members.drop_last(), key),
        first_index(members, key) < members.len() - 1,
{
    let shorter = members.drop_last();
    lemma_has_first(shorter, key);
    let f = first_index(shorter, key);
    assert(members[f] == shorter[f]);
    assert forall|j: int| 0 <= j < f implies (#[trigger] members[j]).0@ != key by {
        assert(shorter[j].0@ != key);
    }
    lemma_first_index(members, key, f);
}

/// The last member is the first of its key if the key did not occur before
/// it.
pub proof fn lemma_first_index_last(members: Seq<(String, Event)>, key: Seq<char>)
    requires
        members.len() > 0,
        !has_key(members.drop_last(), key),
        members.last().0@ == key,
    ensures
        has_key(members, key),
        first_index(members, key) == members.len() - 1,
        first_event(members, key) == members.last().1,
{
    let shorter = members.drop_last();
    let n = members.len() - 1;
    assert forall|j: int| 0 <= j < n implies (#[trigger] members[j]).0@ != key by {
        if shorter[j].0@ == key {
            assert(has_key(shorter, key));
        }
    }
    assert(is_first(members, key, n));
    lemma_first_index(members, key, n);
}

/// A member with another key leaves a key as it was.
pub proof fn lemma_other_key_stays(members: Seq<(String, Event)>, key: Seq<char>)
    requires
        members.len() > 0,
        members.last().0@ != key,
    ensures
        key_count(members, key) == key_count(members.drop_last(), key),
        has_key(members, key) == has_key(members.drop_last(), key),
        has_key(members, key) ==> first_index(members, key) == first_index(
            members.drop_last(),
            key,
        ) && first_event(members, key) == first_event(members.drop_last(), key)
            && first_index(members, key) < members.len() - 1,
{
    lemma_key_count_has_key(members, key);
    lemma_key_count_has_key(members.drop_last(), key);
    if has_key(members.drop_last(), key) {
        lemma_first_index_stays(members, key);
    }
}

} // verus!
