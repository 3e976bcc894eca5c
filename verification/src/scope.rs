//! The identifier scope of one decoding session.

use crate::meta::{MetaId, Rich, WrappedMeta};
use vstd::prelude::*;

verus! {

/// The identifier at position `position` of a scope's numbering: positions
/// count up from zero, and stay at the largest number once they reach it.
pub open spec fn id_at(position: int) -> MetaId {
    if position <= usize::MAX {
        MetaId(position as usize)
    } else {
        MetaId(usize::MAX)
    }
}

/// Issues the identifiers of one decoding session, in increasing order.
///
/// A scope is owned by the one pass that uses it. Identifiers of different
/// scopes cannot be compared.
pub struct RichScope {
    next_id: usize,
    issued: Ghost<Seq<MetaId>>,
}

impl RichScope {
    /// Every identifier issued so far, oldest first.
    pub closed spec fn issued(&self) -> Seq<MetaId> {
        self.issued@
    }

    /// The identifier that the next mint hands out.
    pub closed spec fn next(&self) -> MetaId {
        MetaId(self.next_id)
    }

    /// The scope's invariant: the `n`-th identifier issued is `id_at(n)`, and
    /// so is the next one. Every scope that a program holds satisfies it.
    #[verifier::type_invariant]
    pub open spec fn wf(&self) -> bool {
        &&& self.next() == id_at(self.issued().len() as int)
        &&& forall|n: int| 0 <= n < self.issued().len() ==> #[trigger] self.issued()[n] == id_at(n)
    }

    /// A fresh scope; its first identifier is the smallest one.
    pub fn new() -> (scope: Self)
        ensures
            scope.wf(),
            scope.issued() == Seq::<MetaId>::empty(),
            scope.next() == MetaId(usize::MIN),
    {
        RichScope { next_id: usize::MIN, issued: Ghost(Seq::empty()) }
    }

    /// Pairs `value` with a fresh identifier.
    pub fn attach<T>(&mut self, value: T) -> (rich: Rich<T, MetaId>)
        ensures
            old(self).wf(),
            final(self).wf(),
            rich == (Rich { value, meta: old(self).next() }),
            final(self).issued() == old(self).issued().push(old(self).next()),
    {
        proof {
            use_type_invariant(&*self);
        }
        let id = self.next_id;
        *self = RichScope {
            next_id: id.saturating_add(1),
            issued: Ghost(self.issued@.push(MetaId(id))),
        };
        Rich::new(value, MetaId(id))
    }

    /// Puts a fresh identifier on top of the metadata that `rich` carries.
    pub fn wrap<Value, Nested>(&mut self, rich: Rich<Value, Nested>) -> (wrapped: Rich<
        Value,
        WrappedMeta<Nested>,
    >)
        ensures
            old(self).wf(),
            final(self).wf(),
            wrapped == (Rich {
                value: rich.value,
                meta: WrappedMeta { id: old(self).next(), nested: rich.meta },
            }),
            final(self).issued() == old(self).issued().push(old(self).next()),
    {
        proof {
            use_type_invariant(&*self);
        }
        let id = self.next_id;
        *self = RichScope {
            next_id: id.saturating_add(1),
            issued: Ghost(self.issued@.push(MetaId(id))),
        };
        Rich::new(rich.value, WrappedMeta::new(rich.meta, MetaId(id)))
    }
}

/// Identifier monotonicity: of two identifiers that one scope issued, the
/// later is the greater, as long as the later one was issued before the
/// numbering ran out.
pub proof fn lemma_issued_increasing(scope: RichScope, earlier: int, later: int)
    requires
        scope.wf(),
        0 <= earlier < later < scope.issued().len(),
        later <= usize::MAX,
    ensures
        scope.issued()[earlier].0 < scope.issued()[later].0,
{
}

/// Whatever the state of the numbering, an identifier issued later is never
/// smaller than one issued earlier.
pub proof fn lemma_issued_never_decreases(scope: RichScope, earlier: int, later: int)
    requires
        scope.wf(),
        0 <= earlier <= later < scope.issued().len(),
    ensures
        scope.issued()[earlier].0 <= scope.issued()[later].0,
{
}

} // verus!
