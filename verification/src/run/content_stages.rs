//! The order in which a model turn is added to a content conversation.
//!
//! Resolving, storing and validating parts is outside work. The host performs the stage
//! that it is given and hands back whether it succeeded.
use vstd::prelude::*;
use vstd::string::*;

use crate::content::{ContentDisclosureState, ContentModelTurnV1};

#[allow(unused_imports)]
use super::content_turn::spoken;

verus! {

/// What the host does next to add a turn to the conversation.
#[derive(Debug, Clone, Copy, PartialEq, Eq, Structural)]
pub enum ContentStage {
    /// Begin the turn: no call may disclose a reference.
    Begin,
    /// Check an output part.
    CheckPart { index: usize },
    /// Resolve an accepted output part.
    Resolve { index: usize },
    /// Check the size of the turn.
    CheckTurn,
    /// Store a text of the turn.
    Store { index: usize },
    /// Append the turn to the conversation.
    Append,
    /// Validate the conversation.
    Validate,
    /// The turn is part of the conversation.
    Appended,
    /// The turn is refused.
    Refused,
}

/// Whether an output part is accepted, so that it has to be resolved.
pub open spec fn accepted_part(t: ContentModelTurnV1, i: int) -> bool {
    0 <= i < t.output_parts@.len() && t.output_parts@[i].disclosure_state
        == ContentDisclosureState::Accepted
}

/// How many texts a turn stores: its own, and the arguments of each call.
pub open spec fn text_count(t: ContentModelTurnV1) -> nat {
    spoken(t) + t.tool_calls@.len()
}

/// The check of the output part after the first `n`, or of the turn.
pub open spec fn parts_from(t: ContentModelTurnV1, n: int) -> ContentStage {
    if n < t.output_parts@.len() {
        ContentStage::CheckPart { index: n as usize }
    } else {
        ContentStage::CheckTurn
    }
}

/// The text after the first `n`, or the end of storing.
pub open spec fn texts_from(t: ContentModelTurnV1, n: int) -> ContentStage {
    if n < text_count(t) {
        ContentStage::Store { index: n as usize }
    } else {
        ContentStage::Append
    }
}

/// Where a turn goes from a stage, by whether its step succeeded.
pub open spec fn content_after(
    t: ContentModelTurnV1,
    stage: ContentStage,
    ok: bool,
) -> ContentStage {
    match stage {
        ContentStage::Appended => ContentStage::Appended,
        _ => if !ok {
            ContentStage::Refused
        } else {
            match stage {
                ContentStage::Begin => parts_from(t, 0),
                ContentStage::CheckPart { index } => if accepted_part(t, index as int) {
                    ContentStage::Resolve { index }
                } else {
                    parts_from(t, index + 1)
                },
                ContentStage::Resolve { index } => parts_from(t, index + 1),
                ContentStage::CheckTurn => texts_from(t, 0),
                ContentStage::Store { index } => texts_from(t, index + 1),
                ContentStage::Append => ContentStage::Validate,
                ContentStage::Validate => ContentStage::Appended,
                other => other,
            }
        },
    }
}

fn next_part(turn: &ContentModelTurnV1, index: usize) -> (stage: ContentStage)
    ensures
        stage == parts_from(*turn, index + 1),
{
    if index < turn.output_parts.len() && index + 1 < turn.output_parts.len() {
        ContentStage::CheckPart { index: index + 1 }
    } else {
        ContentStage::CheckTurn
    }
}

fn next_text(turn: &ContentModelTurnV1, index: usize) -> (stage: ContentStage)
    ensures
        stage == texts_from(*turn, index + 1),
{
    let more = if turn.text.as_str().is_empty() {
        index < turn.tool_calls.len() && index + 1 < turn.tool_calls.len()
    } else {
        index < turn.tool_calls.len()
    };
    if more {
        ContentStage::Store { index: index + 1 }
    } else {
        ContentStage::Append
    }
}

/// Where a turn goes from a stage, by whether its step succeeded. The first failure
/// refuses it.
pub fn advance_content(turn: &ContentModelTurnV1, stage: ContentStage, ok: bool) -> (next:
    ContentStage)
    ensures
        next == content_after(*turn, stage, ok),
{
    match stage {
        ContentStage::Appended => ContentStage::Appended,
        _ => if !ok {
            ContentStage::Refused
        } else {
            match stage {
                ContentStage::Begin => if turn.output_parts.len() > 0 {
                    ContentStage::CheckPart { index: 0 }
                } else {
                    ContentStage::CheckTurn
                },
                ContentStage::CheckPart { index } => if index < turn.output_parts.len()
                    && turn.output_parts[index].disclosure_state
                    == ContentDisclosureState::Accepted {
                    ContentStage::Resolve { index }
                } else {
                    next_part(turn, index)
                },
                ContentStage::Resolve { index } => next_part(turn, index),
                ContentStage::CheckTurn => if !turn.text.as_str().is_empty()
                    || turn.tool_calls.len() > 0 {
                    ContentStage::Store { index: 0 }
                } else {
                    ContentStage::Append
                },
                ContentStage::Store { index } => next_text(turn, index),
                ContentStage::Append => ContentStage::Validate,
                ContentStage::Validate => ContentStage::Appended,
                other => other,
            }
        },
    }
}

/// Where a turn stands after steps that succeeded or failed as given.
pub open spec fn content_trace(t: ContentModelTurnV1, oks: Seq<bool>) -> ContentStage
    decreases oks.len(),
{
    if oks.len() == 0 {
        ContentStage::Begin
    } else {
        content_after(t, content_trace(t, oks.drop_last()), oks.last())
    }
}

/// The checks of the first `n` output parts, in order.
pub open spec fn part_steps(t: ContentModelTurnV1, n: int) -> Seq<ContentStage>
    decreases n,
{
    if n <= 0 {
        Seq::empty()
    } else {
        let checked = part_steps(t, n - 1).push(
            ContentStage::CheckPart { index: (n - 1) as usize },
        );
        if accepted_part(t, n - 1) {
            checked.push(ContentStage::Resolve { index: (n - 1) as usize })
        } else {
            checked
        }
    }
}

/// Every check of a turn, in order: the references, each output part and its bytes where
/// it is accepted, and the sizes.
pub open spec fn check_steps(t: ContentModelTurnV1) -> Seq<ContentStage> {
    (seq![ContentStage::Begin] + part_steps(t, t.output_parts@.len() as int)).push(
        ContentStage::CheckTurn,
    )
}

/// The first `n` texts being stored.
pub open spec fn store_steps(n: nat) -> Seq<ContentStage> {
    Seq::new(n, |i: int| ContentStage::Store { index: i as usize })
}

/// Whether the first steps were the given ones, and each of them succeeded.
pub open spec fn content_passed(
    t: ContentModelTurnV1,
    oks: Seq<bool>,
    steps: Seq<ContentStage>,
) -> bool {
    &&& oks.len() >= steps.len()
    &&& forall|k: int|
        0 <= k < steps.len() ==> #[trigger] oks[k] && content_trace(t, oks.take(k)) == steps[k]
}

proof fn passed_stays(t: ContentModelTurnV1, oks: Seq<bool>, steps: Seq<ContentStage>)
    requires
        oks.len() > 0,
        content_passed(t, oks.drop_last(), steps),
    ensures
        content_passed(t, oks, steps),
{
    let before = oks.drop_last();
    assert forall|k: int| 0 <= k < steps.len() implies #[trigger] oks[k] && content_trace(
        t,
        oks.take(k),
    ) == steps[k] by {
        assert(content_passed(t, before, steps));
        assert(before[k] == oks[k]);
        assert(before[k]);
        assert(before.take(k) =~= oks.take(k));
    }
}

proof fn passed_grows(t: ContentModelTurnV1, oks: Seq<bool>, steps: Seq<ContentStage>)
    requires
        oks.len() > 0,
        oks.last(),
        oks.len() == steps.len() + 1,
        content_passed(t, oks.drop_last(), steps),
    ensures
        content_passed(t, oks, steps.push(content_trace(t, oks.drop_last()))),
{
    passed_stays(t, oks, steps);
    assert(oks.take(steps.len() as int) =~= oks.drop_last());
}

/// The steps that lead to a stage.
spec fn steps_before(t: ContentModelTurnV1, stage: ContentStage) -> Seq<ContentStage> {
    match stage {
        ContentStage::CheckPart { index } => seq![ContentStage::Begin] + part_steps(
            t,
            index as int,
        ),
        ContentStage::Resolve { index } => (seq![ContentStage::Begin] + part_steps(
            t,
            index as int,
        )).push(ContentStage::CheckPart { index }),
        ContentStage::CheckTurn => seq![ContentStage::Begin] + part_steps(
            t,
            t.output_parts@.len() as int,
        ),
        ContentStage::Store { index } => check_steps(t) + store_steps(index as nat),
        ContentStage::Append => check_steps(t) + store_steps(text_count(t)),
        ContentStage::Validate => (check_steps(t) + store_steps(text_count(t))).push(
            ContentStage::Append,
        ),
        ContentStage::Appended => (check_steps(t) + store_steps(text_count(t))).push(
            ContentStage::Append,
        ).push(ContentStage::Validate),
        _ => Seq::empty(),
    }
}

spec fn stage_in_turn(t: ContentModelTurnV1, stage: ContentStage) -> bool {
    match stage {
        ContentStage::CheckPart { index } => index < t.output_parts@.len(),
        ContentStage::Resolve { index } => accepted_part(t, index as int),
        ContentStage::Store { index } => index < text_count(t),
        _ => true,
    }
}

/// One step leads to the steps before the next stage.
proof fn steps_follow(t: ContentModelTurnV1, stage: ContentStage)
    requires
        stage_in_turn(t, stage),
        !(stage is Appended),
        !(stage is Refused),
    ensures
        stage_in_turn(t, content_after(t, stage, true)),
        steps_before(t, content_after(t, stage, true)) == steps_before(t, stage).push(stage),
{
    let next = content_after(t, stage, true);
    assert(t.output_parts@.len() == t.output_parts.len());
    assert(t.tool_calls@.len() == t.tool_calls.len());
    match stage {
        ContentStage::Begin => {
            assert(part_steps(t, 0) =~= Seq::<ContentStage>::empty());
            assert(steps_before(t, next) =~= steps_before(t, stage).push(stage));
        },
        ContentStage::CheckPart { index } => {
            if !accepted_part(t, index as int) {
                let head = seq![ContentStage::Begin];
                let steps = part_steps(t, index as int);
                assert(part_steps(t, index + 1) == steps.push(stage));
                assert(head + steps.push(stage) =~= (head + steps).push(stage));
                assert(steps_before(t, next) == head + part_steps(t, index + 1));
            }
        },
        ContentStage::Resolve { index } => {
            let head = seq![ContentStage::Begin];
            let steps = part_steps(t, index as int);
            let check = ContentStage::CheckPart { index };
            assert(part_steps(t, index + 1) == steps.push(check).push(stage));
            assert(head + steps.push(check).push(stage) =~= (head + steps).push(check).push(stage));
            assert(steps_before(t, next) == head + part_steps(t, index + 1));
        },
        ContentStage::CheckTurn => {
            assert(store_steps(0) =~= Seq::<ContentStage>::empty());
            assert(steps_before(t, next) =~= check_steps(t));
        },
        ContentStage::Store { index } => {
            let k = index as nat;
            assert(store_steps(k + 1) =~= store_steps(k).push(stage));
            assert(check_steps(t) + store_steps(k).push(stage) =~= (check_steps(t) + store_steps(
                k,
            )).push(stage));
            assert(steps_before(t, next) == check_steps(t) + store_steps(k + 1));
        },
        _ => {
            assert(steps_before(t, next) == steps_before(t, stage).push(stage));
        },
    }
}

proof fn content_facts(t: ContentModelTurnV1, oks: Seq<bool>)
    ensures
        ({
            let stage = content_trace(t, oks);
            !(stage is Refused) ==> {
                &&& stage_in_turn(t, stage)
                &&& content_passed(t, oks, steps_before(t, stage))
                &&& !(stage is Appended) ==> oks.len() == steps_before(t, stage).len()
            }
        }),
    decreases oks.len(),
{
    if oks.len() > 0 {
        let before = oks.drop_last();
        let stage = content_trace(t, before);
        content_facts(t, before);
        if stage is Appended {
            passed_stays(t, oks, steps_before(t, stage));
        } else if !(stage is Refused) && oks.last() {
            steps_follow(t, stage);
            passed_grows(t, oks, steps_before(t, stage));
        }
    }
}

proof fn passed_prefix(
    t: ContentModelTurnV1,
    oks: Seq<bool>,
    steps: Seq<ContentStage>,
    first: Seq<ContentStage>,
)
    requires
        content_passed(t, oks, steps),
        first.len() <= steps.len(),
        forall|k: int| 0 <= k < first.len() ==> first[k] == steps[k],
    ensures
        content_passed(t, oks, first),
{
    assert forall|k: int| 0 <= k < first.len() implies #[trigger] oks[k] && content_trace(
        t,
        oks.take(k),
    ) == first[k] by {
        assert(first[k] == steps[k]);
        assert(oks[k]);
    }
}

/// Nothing is stored or appended before every check of the turn passed: the references,
/// each output part and its bytes where it is accepted, and the sizes.
pub proof fn turn_is_checked_before_it_is_stored(t: ContentModelTurnV1, oks: Seq<bool>)
    requires
        content_trace(t, oks) is Store || content_trace(t, oks) is Append || content_trace(
            t,
            oks,
        ) is Validate || content_trace(t, oks) is Appended,
    ensures
        content_passed(t, oks, check_steps(t)),
{
    content_facts(t, oks);
    passed_prefix(t, oks, steps_before(t, content_trace(t, oks)), check_steps(t));
}

/// Nothing is appended before every text of the turn was stored.
pub proof fn turn_is_stored_before_it_is_appended(t: ContentModelTurnV1, oks: Seq<bool>)
    requires
        content_trace(t, oks) is Append || content_trace(t, oks) is Validate || content_trace(
            t,
            oks,
        ) is Appended,
    ensures
        content_passed(t, oks, check_steps(t) + store_steps(text_count(t))),
{
    content_facts(t, oks);
    passed_prefix(
        t,
        oks,
        steps_before(t, content_trace(t, oks)),
        check_steps(t) + store_steps(text_count(t)),
    );
}

/// A refused turn stays refused.
pub proof fn refused_turn_stays_refused(t: ContentModelTurnV1, oks: Seq<bool>, more: Seq<bool>)
    requires
        content_trace(t, oks) is Refused,
    ensures
        content_trace(t, oks + more) is Refused,
    decreases more.len(),
{
    if more.len() == 0 {
        assert(oks + more =~= oks);
    } else {
        refused_turn_stays_refused(t, oks, more.drop_last());
        assert((oks + more).drop_last() =~= oks + more.drop_last());
        assert((oks + more).last() == more.last());
    }
}

proof fn passed_steps_are_not_refused(t: ContentModelTurnV1, oks: Seq<bool>)
    requires
        forall|i: int| 0 <= i < oks.len() ==> #[trigger] oks[i],
    ensures
        !(content_trace(t, oks) is Refused),
    decreases oks.len(),
{
    if oks.len() > 0 {
        let before = oks.drop_last();
        assert forall|i: int| 0 <= i < before.len() implies #[trigger] before[i] by {
            assert(oks[i]);
        }
        passed_steps_are_not_refused(t, before);
        content_facts(t, before);
        assert(oks[oks.len() - 1]);
    }
}

proof fn part_steps_grow(t: ContentModelTurnV1, a: int, b: int)
    requires
        0 <= a <= b,
    ensures
        part_steps(t, a).len() + (b - a) <= part_steps(t, b).len(),
        a < b && accepted_part(t, a) ==> part_steps(t, a).len() + 2 <= part_steps(t, b).len(),
    decreases b - a,
{
    if a < b {
        part_steps_grow(t, a + 1, b);
        assert(part_steps(t, a + 1).len() >= part_steps(t, a).len() + 1);
    }
}

/// The steps of a whole turn.
pub open spec fn whole_turn(t: ContentModelTurnV1) -> Seq<ContentStage> {
    (check_steps(t) + store_steps(text_count(t))).push(ContentStage::Append).push(
        ContentStage::Validate,
    )
}

/// A turn of which every check, store and validation passes is appended once each of them
/// was made in its order, and not before.
pub proof fn passing_turn_is_appended(t: ContentModelTurnV1, oks: Seq<bool>)
    requires
        forall|i: int| 0 <= i < oks.len() ==> #[trigger] oks[i],
    ensures
        oks.len() >= whole_turn(t).len() ==> content_trace(t, oks) is Appended,
        oks.len() < whole_turn(t).len() ==> content_trace(t, oks) == whole_turn(t)[oks.len() as int],
{
    passed_steps_are_not_refused(t, oks);
    content_facts(t, oks);
    let stage = content_trace(t, oks);
    let n = t.output_parts@.len() as int;
    assert(t.output_parts@.len() == t.output_parts.len());
    match stage {
        ContentStage::CheckPart { index } => {
            part_steps_grow(t, index as int, n);
        },
        ContentStage::Resolve { index } => {
            part_steps_grow(t, index as int, n);
        },
        _ => {},
    }
    if oks.len() < whole_turn(t).len() {
        turn_of_passing_steps(t, oks);
    }
}

proof fn turn_of_passing_steps(t: ContentModelTurnV1, oks: Seq<bool>)
    requires
        forall|i: int| 0 <= i < oks.len() ==> #[trigger] oks[i],
        oks.len() < whole_turn(t).len(),
    ensures
        content_trace(t, oks) == whole_turn(t)[oks.len() as int],
{
    let all = Seq::new(whole_turn(t).len(), |i: int| true);
    passed_steps_are_not_refused(t, all);
    content_facts(t, all);
    let stage = content_trace(t, all);
    let n = t.output_parts@.len() as int;
    assert(t.output_parts@.len() == t.output_parts.len());
    match stage {
        ContentStage::CheckPart { index } => {
            part_steps_grow(t, index as int, n);
        },
        ContentStage::Resolve { index } => {
            part_steps_grow(t, index as int, n);
        },
        _ => {},
    }
    assert(stage is Appended);
    assert(steps_before(t, stage) == whole_turn(t));
    assert(all[oks.len() as int]);
    assert(all.take(oks.len() as int) =~= oks);
}

} // verus!
