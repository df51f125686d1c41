//! What holds of whole sessions: of every sequence of replies that a host
//! may give from the start of a question on.

use vstd::prelude::*;
use crate::session::{
    begin,
    limit_note_text,
    review_passes,
    step,
    ReplyModel,
    RequestModel,
    SessionModel,
    SessionState,
    MAX_ITERATIONS,
};

verus! {

/// The session after it has taken these replies, one after the other.
pub open spec fn run(s: SessionModel, replies: Seq<ReplyModel>) -> SessionModel
    decreases replies.len(),
{
    if replies.len() == 0 {
        s
    } else {
        step(run(s, replies.drop_last()), replies.last()).0
    }
}

/// The request that the session answers the last of these replies with.
pub open spec fn last_request(s: SessionModel, replies: Seq<ReplyModel>) -> RequestModel {
    step(run(s, replies.drop_last()), replies.last()).1
}

/// How many of these replies the session takes while in `state`.
pub open spec fn taken_in(s: SessionModel, replies: Seq<ReplyModel>, state: SessionState) -> nat
    decreases replies.len(),
{
    if replies.len() == 0 {
        0
    } else {
        let before = taken_in(s, replies.drop_last(), state);
        if run(s, replies.drop_last()).state == state {
            before + 1
        } else {
            before
        }
    }
}

/// A reply that carries a verdict which does not pass.
pub open spec fn is_negative(reply: ReplyModel) -> bool {
    reply matches ReplyModel::Completion { choices } && choices.len() > 0 && !review_passes(
        choices[0],
    )
}

/// A reply that carries a verdict which passes.
pub open spec fn is_affirmative(reply: ReplyModel) -> bool {
    reply matches ReplyModel::Completion { choices } && choices.len() > 0 && review_passes(
        choices[0],
    )
}

/// Every reply that the session takes as a verdict is negative.
pub open spec fn always_negative(s: SessionModel, replies: Seq<ReplyModel>) -> bool {
    forall|i: int|
        0 <= i < replies.len() && (#[trigger] run(s, replies.take(i))).state
            == SessionState::Reviewing ==> is_negative(replies[i])
}

/// None of these replies is taken as a verdict.
pub open spec fn never_reviewed(s: SessionModel, replies: Seq<ReplyModel>) -> bool {
    forall|i: int|
        0 <= i < replies.len() ==> (#[trigger] run(s, replies.take(i))).state
            != SessionState::Reviewing
}

/// One if the condition holds, zero if not.
pub open spec fn one_if(b: bool) -> nat {
    if b {
        1
    } else {
        0
    }
}

/// What holds of a session that was started and has so far heard only
/// negative verdicts, as long as it is not over: the iteration is within
/// the limit; one verdict was taken in each earlier iteration; one plan and
/// one answer were taken in each earlier iteration and in this one if it
/// is past that point; and a session that waits for a verdict has an
/// answer.
pub open spec fn in_step(s0: SessionModel, replies: Seq<ReplyModel>) -> bool {
    let s = run(s0, replies);
    s.state != SessionState::Done ==> {
        &&& 1 <= s.iterations <= MAX_ITERATIONS
        &&& taken_in(s0, replies, SessionState::Reviewing) == s.iterations - 1
        &&& taken_in(s0, replies, SessionState::Planning) == s.iterations - 1 + one_if(
            s.state == SessionState::Executing || s.state == SessionState::Answering || s.state
                == SessionState::Reviewing,
        )
        &&& taken_in(s0, replies, SessionState::Answering) == s.iterations - 1 + one_if(
            s.state == SessionState::Reviewing,
        )
        &&& s.state == SessionState::Reviewing ==> s.current_answer is Some
        &&& s.state != SessionState::Understanding ==> replies.len() > 0
    }
}

/// A session that is over stays over.
pub proof fn lemma_done_is_final(s: SessionModel, reply: ReplyModel)
    requires
        s.state == SessionState::Done,
    ensures
        step(s, reply).0.state == SessionState::Done,
        step(s, reply).1 matches RequestModel::Finish { outcome: Err(_) },
{
}

proof fn lemma_prefix(s0: SessionModel, replies: Seq<ReplyModel>)
    requires
        replies.len() > 0,
    ensures
        always_negative(s0, replies) ==> always_negative(s0, replies.drop_last()),
        never_reviewed(s0, replies) ==> never_reviewed(s0, replies.drop_last()),
        always_negative(s0, replies) && run(s0, replies.drop_last()).state
            == SessionState::Reviewing ==> is_negative(replies.last()),
        never_reviewed(s0, replies) ==> run(s0, replies.drop_last()).state
            != SessionState::Reviewing,
{
    let head = replies.drop_last();
    assert(replies.take(replies.len() - 1) == head);
    assert forall|i: int| 0 <= i < head.len() implies head.take(i) == replies.take(i) && head[i]
        == replies[i] by {
        assert(head.take(i) =~= replies.take(i));
    }
    if always_negative(s0, replies) {
        assert forall|i: int|
            0 <= i < head.len() && (#[trigger] run(s0, head.take(i))).state
                == SessionState::Reviewing implies is_negative(head[i]) by {
            assert(head.take(i) == replies.take(i));
            assert(run(s0, replies.take(i)).state == SessionState::Reviewing);
        }
        if run(s0, head).state == SessionState::Reviewing {
            assert(run(s0, replies.take(replies.len() - 1)).state == SessionState::Reviewing);
        }
    }
    if never_reviewed(s0, replies) {
        assert forall|i: int| 0 <= i < head.len() implies (#[trigger] run(s0, head.take(i))).state
            != SessionState::Reviewing by {
            assert(head.take(i) == replies.take(i));
            assert(run(s0, replies.take(i)).state != SessionState::Reviewing);
        }
        assert(run(s0, replies.take(replies.len() - 1)).state != SessionState::Reviewing);
    }
}

/// [`in_step`] holds of every session from its start on, as long as the
/// verdicts are negative.
pub proof fn lemma_in_step(model_id: Seq<char>, question: Seq<char>, replies: Seq<ReplyModel>)
    requires
        always_negative(begin(model_id, question).0, replies),
    ensures
        in_step(begin(model_id, question).0, replies),
    decreases replies.len(),
{
    let s0 = begin(model_id, question).0;
    if replies.len() > 0 {
        let head = replies.drop_last();
        lemma_prefix(s0, replies);
        lemma_in_step(model_id, question, head);
        let before = run(s0, head);
        let after = run(s0, replies);
        assert(after == step(before, replies.last()).0);
        if before.state == SessionState::Done {
            lemma_done_is_final(before, replies.last());
        }
    }
}

/// A session whose verdicts are all negative, and which ends with an
/// answer, has gone through exactly [`MAX_ITERATIONS`] iterations: it has
/// taken that many plans, that many answers and that many verdicts. What
/// it ends with is the last answer followed by the note on the iteration
/// limit.
pub proof fn lemma_negative_verdicts_exhaust_iterations(
    model_id: Seq<char>,
    question: Seq<char>,
    replies: Seq<ReplyModel>,
)
    requires
        replies.len() > 0,
        always_negative(begin(model_id, question).0, replies),
        last_request(begin(model_id, question).0, replies) matches RequestModel::Finish {
            outcome: Ok(_),
        },
    ensures
        taken_in(begin(model_id, question).0, replies, SessionState::Planning) == MAX_ITERATIONS,
        taken_in(begin(model_id, question).0, replies, SessionState::Answering) == MAX_ITERATIONS,
        taken_in(begin(model_id, question).0, replies, SessionState::Reviewing) == MAX_ITERATIONS,
        run(begin(model_id, question).0, replies).iterations == MAX_ITERATIONS,
        run(begin(model_id, question).0, replies.drop_last()).current_answer matches Some(answer)
            && last_request(begin(model_id, question).0, replies) == (RequestModel::Finish {
            outcome: Ok(answer + limit_note_text()),
        }),
{
    let s0 = begin(model_id, question).0;
    let head = replies.drop_last();
    lemma_prefix(s0, replies);
    lemma_in_step(model_id, question, head);
    let before = run(s0, head);
    assert(before.state == SessionState::Reviewing);
    assert(is_negative(replies.last()));
}

/// A session whose first verdict passes ends with the answer of its first
/// iteration, exactly as the model gave it, and has counted one iteration.
pub proof fn lemma_first_verdict_passes(
    model_id: Seq<char>,
    question: Seq<char>,
    replies: Seq<ReplyModel>,
    verdict: ReplyModel,
)
    requires
        never_reviewed(begin(model_id, question).0, replies),
        run(begin(model_id, question).0, replies).state == SessionState::Reviewing,
        is_affirmative(verdict),
    ensures
        run(begin(model_id, question).0, replies).current_answer matches Some(answer) && step(
            run(begin(model_id, question).0, replies),
            verdict,
        ).1 == (RequestModel::Finish { outcome: Ok(answer) }),
        step(run(begin(model_id, question).0, replies), verdict).0.iterations == 1,
        step(run(begin(model_id, question).0, replies), verdict).0.state == SessionState::Done,
{
    let s0 = begin(model_id, question).0;
    assert(always_negative(s0, replies));
    lemma_in_step(model_id, question, replies);
    assert(taken_in(s0, replies, SessionState::Reviewing) == 0) by {
        lemma_none_taken(s0, replies);
    }
}

proof fn lemma_none_taken(s0: SessionModel, replies: Seq<ReplyModel>)
    requires
        never_reviewed(s0, replies),
    ensures
        taken_in(s0, replies, SessionState::Reviewing) == 0,
    decreases replies.len(),
{
    if replies.len() > 0 {
        lemma_prefix(s0, replies);
        lemma_none_taken(s0, replies.drop_last());
    }
}

} // verus!
