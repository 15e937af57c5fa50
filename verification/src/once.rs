//! Answers that are found once and kept.

use vstd::prelude::*;

verus! {

/// Whether a call gave `answer` and kept it: the answer that was kept before,
/// where there was one.
pub open spec fn keeps_first<T>(before: Option<T>, answer: T, after: Option<T>) -> bool {
    &&& after == Some(answer)
    &&& before is Some ==> answer == before->0
}

/// The first answer is kept: every later call gives it again, be it a success or
/// a failure.
pub proof fn law_first_answer_is_kept<T>(kept: Seq<Option<T>>, answers: Seq<T>)
    requires
        kept.len() == answers.len() + 1,
        forall|i: int|
            0 <= i < answers.len() ==> keeps_first(
                #[trigger] kept[i],
                answers[i],
                kept[i + 1],
            ),
    ensures
        forall|i: int| 0 <= i < answers.len() ==> #[trigger] answers[i] == answers[0],
        kept[0] is Some && answers.len() > 0 ==> answers[0] == kept[0]->0,
    decreases answers.len(),
{
    if answers.len() > 0 {
        assert(keeps_first(kept[0], answers[0], kept[1]));
    }
    if answers.len() > 1 {
        let n = answers.len() - 1;
        let before = answers.drop_last();
        let states = kept.drop_last();
        assert forall|i: int| 0 <= i < before.len() implies keeps_first(
            #[trigger] states[i],
            before[i],
            states[i + 1],
        ) by {
            assert(keeps_first(kept[i], answers[i], kept[i + 1]));
        }
        law_first_answer_is_kept(states, before);
        assert(keeps_first(kept[n - 1], answers[n - 1], kept[n]));
        assert(keeps_first(kept[n], answers[n], kept[n + 1]));
        assert(before[n - 1] == before[0]);
        assert forall|i: int| 0 <= i < answers.len() implies #[trigger] answers[i]
            == answers[0] by {
            if i < n {
                assert(before[i] == before[0]);
            }
        }
    }
}

} // verus!
