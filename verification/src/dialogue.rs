//! Dialogues with the host.
//!
//! An operation whose course depends on what the host answers is a function from
//! the answers so far to the next turn: another question for the host, or the
//! outcome. A driver asks the question, adds the answer to the list and calls the
//! function again.

use vstd::prelude::*;

use crate::error::{ContainerError, Failure};

verus! {

/// The next turn of a dialogue, with questions `C` and a result `T`.
#[derive(Debug)]
pub enum Next<C, T> {
    /// Ask this, and add the answer to the list.
    Ask(C),
    /// The operation is complete.
    Done(T),
    /// The operation failed with this error.
    Fail(ContainerError),
    /// The operation failed with the error that the host last met.
    Rethrow,
    /// An answer does not fit the question it was given to.
    Stray,
}

/// What a [`Next`] says.
pub enum Turn<C, T> {
    Ask(C),
    Done(T),
    Fail(Failure),
    Rethrow,
    Stray,
}

impl<C: View, T: View> View for Next<C, T> {
    type V = Turn<C::V, T::V>;

    open spec fn view(&self) -> Turn<C::V, T::V> {
        match *self {
            Next::Ask(call) => Turn::Ask(call@),
            Next::Done(result) => Turn::Done(result@),
            Next::Fail(error) => Turn::Fail(error@),
            Next::Rethrow => Turn::Rethrow,
            Next::Stray => Turn::Stray,
        }
    }
}

/// Why a dialogue ends early.
#[derive(Debug)]
pub enum Stop {
    Fail(ContainerError),
    Rethrow,
    Stray,
}

/// What a [`Stop`] says.
pub enum Halt {
    Fail(Failure),
    Rethrow,
    Stray,
}

impl View for Stop {
    type V = Halt;

    open spec fn view(&self) -> Halt {
        match *self {
            Stop::Fail(error) => Halt::Fail(error@),
            Stop::Rethrow => Halt::Rethrow,
            Stop::Stray => Halt::Stray,
        }
    }
}

/// What an optional [`Stop`] says.
pub open spec fn halt_of(stop: Option<Stop>) -> Option<Halt> {
    match stop {
        Some(stop) => Some(stop@),
        None => None,
    }
}

/// The turn that ends a dialogue early.
pub open spec fn halted<C, T>(halt: Halt) -> Turn<C, T> {
    match halt {
        Halt::Fail(failure) => Turn::Fail(failure),
        Halt::Rethrow => Turn::Rethrow,
        Halt::Stray => Turn::Stray,
    }
}

/// End a dialogue early.
pub fn end_with<C: View, T: View>(stop: Stop) -> (r: Next<C, T>)
    ensures
        r@ == halted::<C::V, T::V>(stop@),
{
    match stop {
        Stop::Fail(error) => Next::Fail(error),
        Stop::Rethrow => Next::Rethrow,
        Stop::Stray => Next::Stray,
    }
}

/// What the answers of a list say.
pub open spec fn heard<R: View>(replies: Seq<R>) -> Seq<R::V> {
    replies.map_values(|reply: R| reply@)
}

/// How far a part of a dialogue has come, with questions `C` and answers `A`: it
/// asks, it ends the dialogue, or it is done and leaves the rest of the answers.
pub enum Progress<C, A> {
    Ask(C),
    Halt(Halt),
    Passed(Seq<A>),
}

/// How far a part of a dialogue has come; what is left of the answers starts at an
/// index.
#[derive(Debug)]
pub enum Part<C> {
    Ask(C),
    Stop(Stop),
    Passed(usize),
}

/// What a [`Part`] says.
pub open spec fn progress_of<C: View, R: View>(part: Part<C>, replies: Seq<R>) -> Progress<
    C::V,
    R::V,
> {
    match part {
        Part::Ask(call) => Progress::Ask(call@),
        Part::Stop(stop) => Progress::Halt(stop@),
        Part::Passed(at) => Progress::Passed(heard(replies).skip(at as int)),
    }
}

/// A stage of a dialogue: its question, and why the answer to it ends the
/// dialogue, if it does. The stage has no `halt` to speak of before the answer is
/// there.
pub struct Stage<C> {
    pub ask: C,
    pub halt: Option<Halt>,
}

/// The turn of a dialogue that goes through `stages` in order, when the first
/// `answers` of them have been answered: the first answer that ends it, or the
/// first question without an answer, or the result.
pub open spec fn walk<C, T>(stages: Seq<Stage<C>>, answers: nat, result: T) -> Turn<C, T> {
    walk_from(stages, answers, result, 0)
}

/// The same from stage `at` on.
pub open spec fn walk_from<C, T>(
    stages: Seq<Stage<C>>,
    answers: nat,
    result: T,
    at: nat,
) -> Turn<C, T>
    decreases stages.len() - at,
{
    if at >= stages.len() {
        Turn::Done(result)
    } else if answers <= at {
        Turn::Ask(stages[at as int].ask)
    } else {
        match stages[at as int].halt {
            Some(halt) => halted(halt),
            None => walk_from(stages, answers, result, at + 1),
        }
    }
}

proof fn walk_from_ends_well<C, T>(stages: Seq<Stage<C>>, answers: nat, result: T, at: nat)
    requires
        at <= stages.len(),
    ensures
        (walk_from(stages, answers, result, at) is Done) == (at == stages.len() || (answers
            >= stages.len() && forall|i: int|
            at <= i < stages.len() ==> (#[trigger] stages[i]).halt is None)),
        walk_from(stages, answers, result, at) is Done ==> walk_from(stages, answers, result, at)
            == Turn::<C, T>::Done(result),
    decreases stages.len() - at,
{
    if at < stages.len() && answers > at && stages[at as int].halt is None {
        walk_from_ends_well(stages, answers, result, at + 1);
    }
}

/// A dialogue with at least one stage is complete exactly when every stage was
/// answered and no answer ended it, and then it has its result.
pub proof fn dialogue_completes_when_every_stage_passes<C, T>(
    stages: Seq<Stage<C>>,
    answers: nat,
    result: T,
)
    requires
        stages.len() > 0,
    ensures
        (walk(stages, answers, result) is Done) == (answers >= stages.len() && forall|i: int|
            0 <= i < stages.len() ==> (#[trigger] stages[i]).halt is None),
        walk(stages, answers, result) is Done ==> walk(stages, answers, result) == Turn::<
            C,
            T,
        >::Done(result),
{
    walk_from_ends_well(stages, answers, result, 0);
}

proof fn walk_from_goes_on<C, T>(stages: Seq<Stage<C>>, answers: nat, result: T, at: nat)
    requires
        at <= stages.len(),
    ensures
        (walk_from(stages, answers, result, at) is Ask) == (at < stages.len() && answers
            < stages.len() && forall|i: int|
            at <= i < answers ==> (#[trigger] stages[i]).halt is None),
        walk_from(stages, answers, result, at) is Ask && at <= answers ==> walk_from(
            stages,
            answers,
            result,
            at,
        ) == Turn::<C, T>::Ask(stages[answers as int].ask),
    decreases stages.len() - at,
{
    if at < stages.len() && answers > at && stages[at as int].halt is None {
        walk_from_goes_on(stages, answers, result, at + 1);
    }
}

/// A dialogue asks exactly when no answer so far ended it and a stage is left, and then it
/// asks what that stage asks.
pub proof fn dialogue_asks_the_next_stage<C, T>(stages: Seq<Stage<C>>, answers: nat, result: T)
    ensures
        (walk(stages, answers, result) is Ask) == (answers < stages.len() && forall|i: int|
            0 <= i < answers ==> (#[trigger] stages[i]).halt is None),
        walk(stages, answers, result) is Ask ==> walk(stages, answers, result) == Turn::<
            C,
            T,
        >::Ask(stages[answers as int].ask),
{
    walk_from_goes_on(stages, answers, result, 0);
}

/// Whether the answer at `i` was given to a certain question. `turns` gives the turn of
/// the dialogue for the answers so far.
pub open spec fn answered_at<C, A, T>(
    turns: spec_fn(Seq<A>) -> Turn<C, T>,
    said: Seq<A>,
    i: int,
    ask: C,
    answer: A,
) -> bool {
    0 <= i < said.len() && turns(said.take(i)) == Turn::<C, T>::Ask(ask) && said[i] == answer
}

/// Whether a certain question was asked in a dialogue and got a certain answer.
pub open spec fn answered<C, A, T>(
    turns: spec_fn(Seq<A>) -> Turn<C, T>,
    said: Seq<A>,
    ask: C,
    answer: A,
) -> bool {
    exists|i: int| answered_at(turns, said, i, ask, answer)
}

/// Whether a certain question was asked in a dialogue and got an answer.
pub open spec fn asked<C, A, T>(
    turns: spec_fn(Seq<A>) -> Turn<C, T>,
    said: Seq<A>,
    ask: C,
) -> bool {
    exists|answer: A| answered(turns, said, ask, answer)
}

/// Whether the answer at `i` was given to a certain question of a part of a dialogue.
pub open spec fn given_at<C, A>(
    part: spec_fn(Seq<A>) -> Progress<C, A>,
    said: Seq<A>,
    i: int,
    ask: C,
    answer: A,
) -> bool {
    0 <= i < said.len() && part(said.take(i)) == Progress::<C, A>::Ask(ask) && said[i] == answer
}

/// Whether a certain question was asked in a part of a dialogue and got a certain answer.
pub open spec fn given<C, A>(
    part: spec_fn(Seq<A>) -> Progress<C, A>,
    said: Seq<A>,
    ask: C,
    answer: A,
) -> bool {
    exists|i: int| given_at(part, said, i, ask, answer)
}

/// Whether a part of a dialogue is done with the first `k` answers.
pub open spec fn passes<C, A>(
    part: spec_fn(Seq<A>) -> Progress<C, A>,
    said: Seq<A>,
    k: int,
) -> bool {
    &&& 0 <= k <= said.len()
    &&& forall|i: int|
        k <= i <= said.len() ==> part(#[trigger] said.take(i)) == Progress::<C, A>::Passed(
            said.take(i).skip(k),
        )
}

/// How far two parts have come, the second of which follows the first.
pub open spec fn follow<C, A>(
    first: Progress<C, A>,
    second: spec_fn(Seq<A>) -> Progress<C, A>,
) -> Progress<C, A> {
    match first {
        Progress::Passed(rest) => second(rest),
        other => other,
    }
}

/// Whether a part of a dialogue with these answers is made of two others, the second of
/// which follows the first.
pub open spec fn sequential<C, A>(
    whole: spec_fn(Seq<A>) -> Progress<C, A>,
    first: spec_fn(Seq<A>) -> Progress<C, A>,
    second: spec_fn(Seq<A>) -> Progress<C, A>,
    said: Seq<A>,
) -> bool {
    forall|i: int|
        0 <= i <= said.len() ==> whole(#[trigger] said.take(i)) == follow(
            first(said.take(i)),
            second,
        )
}

/// What was asked in the first of two parts was asked in both together.
pub proof fn given_in_the_first<C, A>(
    whole: spec_fn(Seq<A>) -> Progress<C, A>,
    first: spec_fn(Seq<A>) -> Progress<C, A>,
    second: spec_fn(Seq<A>) -> Progress<C, A>,
    said: Seq<A>,
    ask: C,
    answer: A,
)
    requires
        sequential(whole, first, second, said),
        given(first, said, ask, answer),
    ensures
        given(whole, said, ask, answer),
{
    let i = choose|i: int| given_at(first, said, i, ask, answer);
    assert(whole(said.take(i)) == follow(first(said.take(i)), second));
    assert(given_at(whole, said, i, ask, answer));
}

/// What was asked in the second of two parts was asked in both together.
pub proof fn given_in_the_second<C, A>(
    whole: spec_fn(Seq<A>) -> Progress<C, A>,
    first: spec_fn(Seq<A>) -> Progress<C, A>,
    second: spec_fn(Seq<A>) -> Progress<C, A>,
    said: Seq<A>,
    k: int,
    ask: C,
    answer: A,
)
    requires
        sequential(whole, first, second, said),
        passes(first, said, k),
        given(second, said.skip(k), ask, answer),
    ensures
        given(whole, said, ask, answer),
{
    let rest = said.skip(k);
    let j = choose|j: int| given_at(second, rest, j, ask, answer);
    let s = said.take(k + j);
    assert(s.skip(k) =~= rest.take(j));
    assert(whole(s) == follow(first(s), second));
    assert(given_at(whole, said, k + j, ask, answer));
}

/// Two parts together are done with the answers of both.
pub proof fn both_parts_pass<C, A>(
    whole: spec_fn(Seq<A>) -> Progress<C, A>,
    first: spec_fn(Seq<A>) -> Progress<C, A>,
    second: spec_fn(Seq<A>) -> Progress<C, A>,
    said: Seq<A>,
    k: int,
    l: int,
)
    requires
        sequential(whole, first, second, said),
        passes(first, said, k),
        passes(second, said.skip(k), l),
    ensures
        passes(whole, said, k + l),
{
    let rest = said.skip(k);
    assert forall|i: int| k + l <= i <= said.len() implies whole(#[trigger] said.take(i))
        == Progress::<C, A>::Passed(said.take(i).skip(k + l)) by {
        let s = said.take(i);
        assert(s.skip(k) =~= rest.take(i - k));
        assert(whole(s) == follow(first(s), second));
        assert(rest.take(i - k).skip(l) =~= s.skip(k + l));
    }
}

/// Whether what was asked and answered in one part was asked and answered in another.
pub open spec fn carries<C, A>(
    inner: spec_fn(Seq<A>) -> Progress<C, A>,
    inner_said: Seq<A>,
    outer: spec_fn(Seq<A>) -> Progress<C, A>,
    outer_said: Seq<A>,
) -> bool {
    forall|ask: C, answer: A| #[trigger]
        given(inner, inner_said, ask, answer) ==> given(outer, outer_said, ask, answer)
}

/// Two parts together are done with the answers of both, and ask what each of them asks.
pub proof fn parts_follow_each_other<C, A>(
    whole: spec_fn(Seq<A>) -> Progress<C, A>,
    first: spec_fn(Seq<A>) -> Progress<C, A>,
    second: spec_fn(Seq<A>) -> Progress<C, A>,
    said: Seq<A>,
    k: int,
    l: int,
)
    requires
        sequential(whole, first, second, said),
        passes(first, said, k),
        passes(second, said.skip(k), l),
    ensures
        passes(whole, said, k + l),
        carries(first, said, whole, said),
        carries(second, said.skip(k), whole, said),
{
    both_parts_pass(whole, first, second, said, k, l);
    assert forall|ask: C, answer: A| #[trigger] given(first, said, ask, answer) implies given(
        whole,
        said,
        ask,
        answer,
    ) by {
        given_in_the_first(whole, first, second, said, ask, answer);
    }
    assert forall|ask: C, answer: A| #[trigger]
        given(second, said.skip(k), ask, answer) implies given(whole, said, ask, answer) by {
        given_in_the_second(whole, first, second, said, k, ask, answer);
    }
}

/// A part that asks a question and goes on as another part is done with one answer more,
/// and asks what that part asks.
pub proof fn part_follows_a_question<C, A>(
    whole: spec_fn(Seq<A>) -> Progress<C, A>,
    question: C,
    second: spec_fn(Seq<A>) -> Progress<C, A>,
    said: Seq<A>,
    l: int,
)
    requires
        said.len() > 0,
        whole(Seq::empty()) == Progress::<C, A>::Ask(question),
        forall|i: int|
            1 <= i <= said.len() ==> whole(#[trigger] said.take(i)) == second(
                said.take(i).skip(1),
            ),
        passes(second, said.skip(1), l),
    ensures
        passes(whole, said, 1 + l),
        given(whole, said, question, said[0]),
        carries(second, said.skip(1), whole, said),
{
    let rest = said.skip(1);
    assert(said.take(0) =~= Seq::empty());
    assert(given_at(whole, said, 0, question, said[0]));
    assert forall|i: int| 1 + l <= i <= said.len() implies whole(#[trigger] said.take(i))
        == Progress::<C, A>::Passed(said.take(i).skip(1 + l)) by {
        assert(said.take(i).skip(1) =~= rest.take(i - 1));
        assert(rest.take(i - 1).skip(l) =~= said.take(i).skip(1 + l));
    }
    assert forall|ask: C, answer: A| #[trigger] given(second, rest, ask, answer) implies given(
        whole,
        said,
        ask,
        answer,
    ) by {
        let j = choose|j: int| given_at(second, rest, j, ask, answer);
        assert(said.take(j + 1).skip(1) =~= rest.take(j));
        assert(given_at(whole, said, j + 1, ask, answer));
    }
}

/// A part that is done with the first answers leaves the others.
pub proof fn part_leaves_the_rest<C, A>(
    part: spec_fn(Seq<A>) -> Progress<C, A>,
    said: Seq<A>,
    k: int,
)
    requires
        passes(part, said, k),
    ensures
        part(said) == Progress::<C, A>::Passed(said.skip(k)),
{
    assert(said.take(said.len() as int) =~= said);
}

} // verus!
