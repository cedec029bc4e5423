//! What a history of calls leaves alone.

use crate::discovery::pause::io::{extends, Event};
use vstd::prelude::*;

verus! {

/// How much is left alone.
#[derive(Clone, Copy, Debug, PartialEq, Eq, Structural)]
pub enum Grade {
    /// The child is not resumed, and no marker of a protected call is seen.
    Calm,
    /// Moreover no record is applied.
    Idle,
    /// Moreover nothing is asked of the queue.
    Still,
}

/// Whether a call leaves alone what `grade` says.
pub open spec fn fits<B>(grade: Grade, e: Event<B>) -> bool {
    &&& !(e is Resume)
    &&& e != Event::<B>::Marker(Ok(true))
    &&& grade != Grade::Calm ==> !(e is Apply)
    &&& grade == Grade::Still ==> !(e is Dequeue)
}

/// Whether every call between two histories leaves alone what `grade` says.
#[verifier::opaque]
pub open spec fn kept<B>(grade: Grade, a: Seq<Event<B>>, b: Seq<Event<B>>) -> bool {
    &&& extends(b, a)
    &&& forall|i: int| a.len() <= i < b.len() ==> fits(grade, #[trigger] b[i])
}

/// No call leaves everything alone.
pub broadcast proof fn lemma_kept_reflexive<B>(grade: Grade, a: Seq<Event<B>>)
    ensures
        #[trigger] kept(grade, a, a),
{
    reveal(kept);
    reveal(extends);
}

/// What is left alone at each of two steps is left alone at both.
pub broadcast proof fn lemma_kept_transitive<B>(
    grade: Grade,
    a: Seq<Event<B>>,
    b: Seq<Event<B>>,
    c: Seq<Event<B>>,
)
    requires
        #[trigger] kept(grade, a, b),
        #[trigger] kept(grade, b, c),
    ensures
        kept(grade, a, c),
{
    reveal(kept);
    reveal(extends);
    assert forall|i: int| a.len() <= i < c.len() implies fits(grade, #[trigger] c[i]) by {
        if i < b.len() {
            assert(c[i] == b[i]);
        }
    }
}

/// One call.
pub broadcast proof fn lemma_kept_one<B>(a: Seq<Event<B>>, e: Event<B>)
    ensures
        fits(Grade::Calm, e) ==> kept(Grade::Calm, a, #[trigger] a.push(e)),
        fits(Grade::Idle, e) ==> kept(Grade::Idle, a, a.push(e)),
        fits(Grade::Still, e) ==> kept(Grade::Still, a, a.push(e)),
{
    reveal(kept);
    reveal(extends);
}

/// Who leaves more alone leaves less alone.
pub broadcast proof fn lemma_kept_lower<B>(grade: Grade, a: Seq<Event<B>>, b: Seq<Event<B>>)
    requires
        #[trigger] kept(grade, a, b),
    ensures
        kept(Grade::Calm, a, b),
        grade == Grade::Still ==> kept(Grade::Idle, a, b),
{
    reveal(kept);
}

pub broadcast group group_conduct {
    lemma_kept_reflexive,
    lemma_kept_transitive,
    lemma_kept_one,
    lemma_kept_lower,
}

} // verus!
