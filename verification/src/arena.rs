//! Decoding a record while noting where each of its fields stood.

use crate::attach::Event;
use crate::record::config::u32_of;
use crate::record::nested::decoded_nested;
use crate::record::{Config, DecodeError, Nested, RichNested};
use crate::scope::RichScope;
use crate::split::SplitMeta;
use vstd::prelude::*;

verus! {

/// The sum of two numbers.
pub fn add(left: u64, right: u64) -> (sum: u64)
    requires
        left + right <= u64::MAX,
    ensures
        sum == left + right,
{
    left + right
}

/// A place in a [`MetaArena`].
#[derive(Debug)]
pub struct MetaHandle(pub usize);

/// Positions of decoded values, in the order in which they were noted.
#[derive(Debug)]
pub struct MetaArena {
    /// The positions.
    pub positions: Vec<u64>,
}

/// What the members read so far have made of a [`Config`]: each field, if a
/// member has filled it, with the position of that member.
pub struct PlacedFields {
    /// The field `str`.
    pub str: Option<(u64, String)>,
    /// The field `num`.
    pub num: Option<(u64, u32)>,
    /// The field `nested`.
    pub nested: Option<(u64, Nested)>,
}

/// What the decoding of `event` as a [`Nested`] gives. It fails as the
/// decoding of a [`RichNested`] does.
pub open spec fn plain_nested(event: Event) -> Result<Nested, DecodeError> {
    match decoded_nested(event, 0) {
        Ok(rich) => Ok(rich.value.pure_value()),
        Err(error) => Err(error),
    }
}

/// What the member at position `index` makes of the fields of a [`Config`].
pub open spec fn placed_member(fields: PlacedFields, index: int, key: Seq<char>, event: Event) -> Result<
    PlacedFields,
    DecodeError,
> {
    if key == "str"@ {
        if fields.str is Some {
            Err(DecodeError::DuplicateField("str"))
        } else {
            match event {
                Event::Str(text) => Ok(PlacedFields { str: Some((index as u64, text)), ..fields }),
                _ => Err(DecodeError::InvalidType { expected: "a string" }),
            }
        }
    } else if key == "num"@ {
        if fields.num is Some {
            Err(DecodeError::DuplicateField("num"))
        } else {
            match event {
                Event::Number(number) if 0 <= number <= u32::MAX => Ok(
                    PlacedFields { num: Some((index as u64, number as u32)), ..fields },
                ),
                _ => Err(DecodeError::InvalidType { expected: "u32" }),
            }
        }
    } else if key == "nested"@ {
        if fields.nested is Some {
            Err(DecodeError::DuplicateField("nested"))
        } else {
            match plain_nested(event) {
                Ok(nested) => Ok(PlacedFields { nested: Some((index as u64, nested)), ..fields }),
                Err(error) => Err(error),
            }
        }
    } else {
        Ok(fields)
    }
}

/// What `members`, read one after the other, make of the fields of a
/// [`Config`]. The first member that fails decides the error.
pub open spec fn placed_members(members: Seq<(String, Event)>) -> Result<PlacedFields, DecodeError>
    decreases members.len(),
{
    if members.len() == 0 {
        Ok(PlacedFields { str: None, num: None, nested: None })
    } else {
        match placed_members(members.drop_last()) {
            Ok(fields) => placed_member(
                fields,
                members.len() - 1,
                members.last().0@,
                members.last().1,
            ),
            Err(error) => Err(error),
        }
    }
}

/// What [`MetaArena::deserialize_config`] returns for `event`, and the
/// positions that it notes on the way.
///
/// A mapping notes position 0 for the record itself before anything else.
/// When every field has come, the positions of the members that filled
/// `str`, `num` and `nested` follow, in this order. Of several fields that
/// did not come, the first in this order is reported.
pub open spec fn placed_config(event: Event) -> (Result<Config, DecodeError>, Seq<u64>) {
    match event {
        Event::Mapping(members) => match placed_members(members@) {
            Ok(fields) => if fields.str is None {
                (Err(DecodeError::MissingField("str")), seq![0u64])
            } else if fields.num is None {
                (Err(DecodeError::MissingField("num")), seq![0u64])
            } else if fields.nested is None {
                (Err(DecodeError::MissingField("nested")), seq![0u64])
            } else {
                (
                    Ok(
                        Config {
                            str: fields.str->Some_0.1,
                            num: fields.num->Some_0.1,
                            nested: fields.nested->Some_0.1,
                        },
                    ),
                    seq![0u64, fields.str->Some_0.0, fields.num->Some_0.0, fields.nested->Some_0.0],
                )
            },
            Err(error) => (Err(error), seq![0u64]),
        },
        _ => (Err(DecodeError::InvalidType { expected: "struct Config" }), Seq::empty()),
    }
}

/// Once the first `n` members have failed, the members after them do not
/// matter: all members fail with the same error.
pub proof fn lemma_placed_members_fail(members: Seq<(String, Event)>, n: int)
    requires
        0 <= n <= members.len(),
        placed_members(members.take(n)) is Err,
    ensures
        placed_members(members) == placed_members(members.take(n)),
    decreases members.len() - n,
{
    if n < members.len() {
        assert(members.take(n + 1).drop_last() =~= members.take(n));
        lemma_placed_members_fail(members, n + 1);
    } else {
        assert(members.take(n) =~= members);
    }
}

/// Decodes a [`Nested`], without identifiers.
pub fn deserialize_nested(event: &Event) -> (decoded: Result<Nested, DecodeError>)
    ensures
        decoded == plain_nested(*event),
{
    let mut scope = RichScope::new();
    match RichNested::rich_deserialize(&mut scope, event) {
        Ok(rich) => Ok(rich.value.split_meta().value),
        Err(error) => Err(error),
    }
}

impl MetaArena {
    /// An arena without positions.
    pub fn new() -> (arena: Self)
        ensures
            arena.positions@ == Seq::<u64>::empty(),
    {
        MetaArena { positions: Vec::new() }
    }

    /// Decodes a [`Config`], and notes in this arena the position of the
    /// record and, once all fields have come, the position of the member
    /// that filled each field.
    pub fn deserialize_config(&mut self, event: &Event) -> (decoded: Result<Config, DecodeError>)
        ensures
            decoded == placed_config(*event).0,
            final(self).positions@ == old(self).positions@ + placed_config(*event).1,
    {
        let ghost before = self.positions@;
        let members = match event {
            Event::Mapping(members) => members,
            _ => {
                assert(before + Seq::<u64>::empty() =~= before);
                return Err(DecodeError::InvalidType { expected: "struct Config" });
            },
        };
        self.positions.push(0);
        assert(self.positions@ =~= before + seq![0u64]);
        let str_key = "str".to_owned();
        let num_key = "num".to_owned();
        let nested_key = "nested".to_owned();
        let mut str: Option<(u64, String)> = None;
        let mut num: Option<(u64, u32)> = None;
        let mut nested: Option<(u64, Nested)> = None;
        let mut i: usize = 0;
        assert(members@.take(0) =~= Seq::<(String, Event)>::empty());
        while i < members.len()
            invariant
                *event == Event::Mapping(*members),
                i <= members@.len(),
                str_key@ == "str"@,
                num_key@ == "num"@,
                nested_key@ == "nested"@,
                before == old(self).positions@,
                self.positions@ == before + seq![0u64],
                placed_members(members@.take(i as int)) == Ok::<PlacedFields, DecodeError>(
                    PlacedFields { str, num, nested },
                ),
            decreases members@.len() - i,
        {
            proof {
                assert(members@.take(i + 1).drop_last() =~= members@.take(i as int));
            }
            let index = i as u64;
            if members[i].0 == str_key {
                if str.is_some() {
                    proof {
                        lemma_placed_members_fail(members@, i + 1);
                    }
                    return Err(DecodeError::DuplicateField("str"));
                }
                match &members[i].1 {
                    Event::Str(text) => {
                        str = Some((index, text.clone()));
                    },
                    _ => {
                        proof {
                            lemma_placed_members_fail(members@, i + 1);
                        }
                        return Err(DecodeError::InvalidType { expected: "a string" });
                    },
                }
            } else if members[i].0 == num_key {
                if num.is_some() {
                    proof {
                        lemma_placed_members_fail(members@, i + 1);
                    }
                    return Err(DecodeError::DuplicateField("num"));
                }
                let number = match &members[i].1 {
                    Event::Number(number) => u32_of(*number),
                    _ => None,
                };
                match number {
                    Some(number) => {
                        num = Some((index, number));
                    },
                    None => {
                        proof {
                            lemma_placed_members_fail(members@, i + 1);
                        }
                        return Err(DecodeError::InvalidType { expected: "u32" });
                    },
                }
            } else if members[i].0 == nested_key {
                if nested.is_some() {
                    proof {
                        lemma_placed_members_fail(members@, i + 1);
                    }
                    return Err(DecodeError::DuplicateField("nested"));
                }
                match deserialize_nested(&members[i].1) {
                    Ok(value) => {
                        nested = Some((index, value));
                    },
                    Err(error) => {
                        proof {
                            lemma_placed_members_fail(members@, i + 1);
                        }
                        return Err(error);
                    },
                }
            }
            i += 1;
        }
        proof {
            assert(members@.take(i as int) =~= members@);
        }
        let (index_str, str) = match str {
            Some(found) => found,
            None => {
                return Err(DecodeError::MissingField("str"));
            },
        };
        let (index_num, num) = match num {
            Some(found) => found,
            None => {
                return Err(DecodeError::MissingField("num"));
            },
        };
        let (index_nested, nested) = match nested {
            Some(found) => found,
            None => {
                return Err(DecodeError::MissingField("nested"));
            },
        };
        self.positions.push(index_str);
        self.positions.push(index_num);
        self.positions.push(index_nested);
        assert(self.positions@ =~= before + seq![0u64, index_str, index_num, index_nested]);
        Ok(Config { str, num, nested })
    }
}

} // verus!
