//! The errors of one run of the generator.

use drop_bomb::DropBomb;
use proc_macro2::Span;
use vstd::prelude::*;

verus! {

/// An error of the parser, as `syn` reports it: one message or several.
#[verifier::external_type_specification]
#[verifier::external_body]
pub struct ExError(syn::Error);

/// A place in the text that the parser read.
#[verifier::external_type_specification]
#[verifier::external_body]
pub struct ExSpan(proc_macro2::Span);

/// A value that panics when it is dropped before it was defused.
#[verifier::external_type_specification]
#[verifier::external_body]
pub struct ExDropBomb(drop_bomb::DropBomb);

/// The messages that an error holds, oldest first.
pub uninterp spec fn error_messages(error: syn::Error) -> Seq<Seq<char>>;

/// `syn::Error::new`: an error that holds the one message `message`, at
/// `span`.
#[verifier::external_body]
pub(crate) fn new_error(span: Span, message: &str) -> (error: syn::Error)
    ensures
        error_messages(error) == seq![message@],
{
    syn::Error::new(span, message)
}

/// `syn::Error::combine`: the messages of `another` are put behind those that
/// `error` holds.
pub assume_specification[ syn::Error::combine ](error: &mut syn::Error, another: syn::Error)
    ensures
        error_messages(*final(error)) == error_messages(*old(error)) + error_messages(another),
;

/// `DropBomb::new`: a bomb that is not defused. It panics with the message
/// given here when it is dropped as it is.
#[verifier::external_body]
fn new_bomb() -> DropBomb {
    DropBomb::new("`Context::check` must be called")
}

/// `DropBomb::defuse`: the bomb is defused, and can be dropped.
pub assume_specification[ DropBomb::defuse ](bomb: &mut DropBomb)
;

/// All messages of `errors`, error by error.
pub open spec fn all_messages(errors: Seq<syn::Error>) -> Seq<Seq<char>>
    decreases errors.len(),
{
    if errors.len() == 0 {
        Seq::empty()
    } else {
        all_messages(errors.drop_last()) + error_messages(errors.last())
    }
}

/// The messages of the errors from position `from` on are those of the error
/// at `from` and then those of the errors behind it.
pub proof fn lemma_all_messages_from(errors: Seq<syn::Error>, from: int)
    requires
        0 <= from < errors.len(),
    ensures
        all_messages(errors.skip(from)) == error_messages(errors[from]) + all_messages(
            errors.skip(from + 1),
        ),
    decreases errors.len() - from,
{
    let tail = errors.skip(from);
    if from + 1 == errors.len() {
        assert(tail.drop_last() =~= Seq::<syn::Error>::empty());
        assert(errors.skip(from + 1) =~= Seq::<syn::Error>::empty());
        assert(all_messages(Seq::<syn::Error>::empty()) =~= Seq::<Seq<char>>::empty());
        assert(tail.last() == errors[from]);
        assert(all_messages(tail) =~= error_messages(errors[from]));
        assert(error_messages(errors[from]) + all_messages(errors.skip(from + 1))
            =~= error_messages(errors[from]));
    } else {
        let shorter = errors.drop_last();
        lemma_all_messages_from(shorter, from);
        assert(tail.drop_last() =~= shorter.skip(from));
        assert(errors.skip(from + 1).drop_last() =~= shorter.skip(from + 1));
        assert(all_messages(tail) =~= error_messages(errors[from]) + all_messages(
            errors.skip(from + 1),
        ));
    }
}

/// Collects the errors of one run of the generator.
///
/// A context has to end in [`Context::check`]: one that is dropped before
/// panics.
#[derive(Debug)]
pub struct Context {
    errors: Vec<syn::Error>,
    bomb: DropBomb,
}

impl Context {
    /// The errors so far, oldest first.
    pub closed spec fn errors(&self) -> Seq<syn::Error> {
        self.errors@
    }

    /// The messages of the errors so far, oldest first.
    pub open spec fn messages(&self) -> Seq<Seq<char>> {
        all_messages(self.errors())
    }

    /// A context without errors.
    pub fn new() -> (cx: Self)
        ensures
            cx.errors() == Seq::<syn::Error>::empty(),
    {
        Context { errors: Vec::new(), bomb: new_bomb() }
    }

    /// Adds an error with the message `msg` at `span`.
    pub fn error_spanned_by(&mut self, span: Span, msg: &str)
        ensures
            final(self).errors().len() == old(self).errors().len() + 1,
            final(self).errors().drop_last() == old(self).errors(),
            error_messages(final(self).errors().last()) == seq![msg@],
            final(self).messages() == old(self).messages().push(msg@),
    {
        let ghost before = self.errors@;
        self.errors.push(new_error(span, msg));
        proof {
            assert(self.errors@.drop_last() =~= before);
            assert(all_messages(before) + seq![msg@] =~= all_messages(before).push(msg@));
        }
    }

    /// Adds an error of the parser.
    pub fn syn_error(&mut self, err: syn::Error)
        ensures
            final(self).errors() == old(self).errors().push(err),
            final(self).messages() == old(self).messages() + error_messages(err),
    {
        let ghost before = self.errors@;
        self.errors.push(err);
        proof {
            assert(self.errors@.drop_last() =~= before);
        }
    }

    /// Ends the run: fine if no error was added; if not, one error that holds
    /// the messages of all errors, oldest first.
    pub fn check(self) -> (checked: Result<(), syn::Error>)
        ensures
            self.errors().len() == 0 <==> checked is Ok,
            checked matches Err(combined) ==> error_messages(combined) == self.messages(),
    {
        let Context { mut errors, mut bomb } = self;
        bomb.defuse();
        let ghost all = errors@;
        if errors.len() == 0 {
            return Ok(());
        }
        let mut combined = errors.remove(0);
        let ghost mut taken: int = 1;
        proof {
            assert(errors@ =~= all.skip(1));
            assert(all.skip(0) =~= all);
            lemma_all_messages_from(all, 0);
        }
        while errors.len() > 0
            invariant
                1 <= taken <= all.len(),
                errors@ == all.skip(taken),
                error_messages(combined) + all_messages(all.skip(taken)) == all_messages(all),
            decreases errors@.len(),
        {
            let rest = errors.remove(0);
            proof {
                lemma_all_messages_from(all, taken);
                assert(errors@ =~= all.skip(taken + 1));
                assert((error_messages(combined) + error_messages(rest)) + all_messages(
                    all.skip(taken + 1),
                ) =~= error_messages(combined) + (error_messages(rest) + all_messages(
                    all.skip(taken + 1),
                )));
                taken = taken + 1;
            }
            combined.combine(rest);
        }
        proof {
            assert(all.skip(taken) =~= Seq::<syn::Error>::empty());
            assert(error_messages(combined) + Seq::<Seq<char>>::empty() =~= error_messages(
                combined,
            ));
        }
        Err(combined)
    }
}

} // verus!
