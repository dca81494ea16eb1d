//! What holds of the window, the slots and the agents across messages.

use crate::app::{
    action_for, app_after, cards_after, find, is_first, lemma_find_is, new_card, others,
    ActionModel, AppModel, CardModel, MessageModel, StateModel,
};
use crate::endpoint::configured_port;
use crate::mcp_server::{
    failure_result, protocol_model, reply_model, success_result, RequestModel,
};
use crate::screen::{
    endpoint_line, form_of, parts_of, shown, shown_card, BodyModel, ContentModel, FormPartModel,
    LabelModel, Tone,
};
use crate::slot::{attempted, declined, law_one_answer, tried, SharedSlot, SlotModel};
use crate::text::{
    all_digits, decimal, digit, digits_value, is_blank, is_digit, is_white_space, port_of, trimmed,
    unsigned_part,
};
use vstd::prelude::*;

verus! {

/// The id of the card that a message is about.
pub open spec fn subject(message: MessageModel) -> Seq<char> {
    match message {
        MessageModel::NewQuestion(request) => request.id,
        MessageModel::AnswerChanged(id, _) => id,
        MessageModel::Submit(id) => id,
        MessageModel::Submitted(id, _) => id,
        MessageModel::Reject(id) => id,
        MessageModel::Remove(id) => id,
    }
}

/// No two cards have the same id.
pub open spec fn distinct(cards: Seq<CardModel>) -> bool {
    forall|i: int, j: int|
        0 <= i < j < cards.len() ==> (#[trigger] cards[i]).id != (#[trigger] cards[j]).id
}

/// The window after a series of messages.
pub open spec fn run(app: AppModel, messages: Seq<MessageModel>) -> AppModel
    decreases messages.len(),
{
    if messages.len() == 0 {
        app
    } else {
        app_after(run(app, messages.drop_last()), messages.last())
    }
}

/// Two cards show the same question and lead to the same agent.
pub open spec fn same_question(a: CardModel, b: CardModel) -> bool {
    a.id == b.id && a.question == b.question && a.context == b.context && a.answer_tx
        == b.answer_tx
}

proof fn lemma_found(cards: Seq<CardModel>, id: Seq<char>)
    requires
        find(cards, id) is Some,
    ensures
        is_first(cards, id, find(cards, id)->0),
{
}

/// Where nothing is found, no card has the id.
proof fn lemma_not_found(cards: Seq<CardModel>, id: Seq<char>, i: int)
    requires
        find(cards, id) is None,
        0 <= i < cards.len(),
    ensures
        cards[i].id != id,
    decreases i,
{
    if cards[i].id == id {
        assert forall|j: int| 0 <= j < i implies (#[trigger] cards[j]).id != id by {
            lemma_not_found(cards, id, j);
        }
        assert(is_first(cards, id, i));
    }
}

proof fn lemma_others_push(cards: Seq<CardModel>, card: CardModel, id: Seq<char>)
    ensures
        others(cards.push(card), id) == if card.id == id {
            others(cards, id)
        } else {
            others(cards, id).push(card)
        },
{
    reveal(Seq::filter);
    assert(cards.push(card).drop_last() =~= cards);
}

proof fn lemma_others_update(cards: Seq<CardModel>, i: int, card: CardModel, id: Seq<char>)
    requires
        0 <= i < cards.len(),
        cards[i].id == id,
        card.id == id,
    ensures
        others(cards.update(i, card), id) == others(cards, id),
    decreases cards.len(),
{
    reveal(Seq::filter);
    let rest = cards.drop_last();
    if i == cards.len() - 1 {
        assert(cards.update(i, card).drop_last() =~= rest);
    } else {
        assert(cards.update(i, card).drop_last() =~= rest.update(i, card));
        lemma_others_update(rest, i, card, id);
    }
}

proof fn lemma_others_remove(cards: Seq<CardModel>, i: int, id: Seq<char>)
    requires
        0 <= i < cards.len(),
        cards[i].id == id,
    ensures
        others(cards.remove(i), id) == others(cards, id),
    decreases cards.len(),
{
    reveal(Seq::filter);
    let rest = cards.drop_last();
    if i == cards.len() - 1 {
        assert(cards.remove(i) =~= rest);
    } else {
        assert(cards.remove(i).drop_last() =~= rest.remove(i));
        lemma_others_remove(rest, i, id);
    }
}

proof fn lemma_others_all(cards: Seq<CardModel>, id: Seq<char>)
    requires
        forall|i: int| 0 <= i < cards.len() ==> (#[trigger] cards[i]).id != id,
    ensures
        others(cards, id) == cards,
    decreases cards.len(),
{
    reveal(Seq::filter);
    if cards.len() > 0 {
        let rest = cards.drop_last();
        assert forall|i: int| 0 <= i < rest.len() implies (#[trigger] rest[i]).id != id by {
            assert(rest[i] == cards[i]);
        }
        lemma_others_all(rest, id);
        assert(rest.push(cards.last()) =~= cards);
    }
}

/// Every card that is kept was there before, and has another id.
proof fn lemma_others_from(cards: Seq<CardModel>, id: Seq<char>, i: int)
    requires
        0 <= i < others(cards, id).len(),
    ensures
        others(cards, id)[i].id != id,
        cards.contains(others(cards, id)[i]),
    decreases cards.len(),
{
    reveal(Seq::filter);
    if cards.len() > 0 {
        let rest = cards.drop_last();
        let last = cards.last();
        if last.id != id && i == others(cards, id).len() - 1 {
            assert(cards[cards.len() - 1] == last);
        } else {
            lemma_others_from(rest, id, i);
            let k = choose|k: int| 0 <= k < rest.len() && rest[k] == others(rest, id)[i];
            assert(cards[k] == others(cards, id)[i]);
        }
    }
}

proof fn lemma_others_distinct(cards: Seq<CardModel>, id: Seq<char>)
    requires
        distinct(cards),
    ensures
        distinct(others(cards, id)),
    decreases cards.len(),
{
    reveal(Seq::filter);
    if cards.len() > 0 {
        let rest = cards.drop_last();
        assert forall|i: int, j: int| 0 <= i < j < rest.len() implies (#[trigger] rest[i]).id != (
        #[trigger] rest[j]).id by {
            assert(rest[i] == cards[i] && rest[j] == cards[j]);
        }
        lemma_others_distinct(rest, id);
        let kept = others(rest, id);
        let now = others(cards, id);
        assert forall|i: int, j: int| 0 <= i < j < now.len() implies (#[trigger] now[i]).id != (
        #[trigger] now[j]).id by {
            assert(now[i] == kept[i]);
            if j < kept.len() {
                assert(now[j] == kept[j]);
            } else {
                lemma_others_from(rest, id, i);
                let k = choose|k: int| 0 <= k < rest.len() && rest[k] == kept[i];
                assert(cards[k] == kept[i]);
                assert(cards[cards.len() - 1] == now[j]);
            }
        }
    }
}

/// Questions are independent of each other: a message leaves every card with another id
/// as it is and where it is.
pub proof fn law_messages_touch_their_own_card(cards: Seq<CardModel>, message: MessageModel)
    ensures
        others(cards_after(cards, message), subject(message)) == others(cards, subject(message)),
{
    let id = subject(message);
    match message {
        MessageModel::NewQuestion(request) => {
            lemma_others_push(cards, new_card(request), id);
        },
        MessageModel::AnswerChanged(_, value) => {
            if let Some(i) = find(cards, id) {
                lemma_found(cards, id);
                lemma_others_update(cards, i, cards[i].edited(value), id);
            }
        },
        MessageModel::Submit(_) => {
            if let Some(i) = find(cards, id) {
                lemma_found(cards, id);
                lemma_others_update(cards, i, cards[i].submitted(), id);
            }
        },
        MessageModel::Submitted(_, outcome) => {
            if let Some(i) = find(cards, id) {
                lemma_found(cards, id);
                let state = match outcome {
                    Ok(()) => StateModel::Success,
                    Err(text) => StateModel::Error(text),
                };
                lemma_others_update(cards, i, cards[i].turned(state), id);
            }
        },
        MessageModel::Reject(_) => {
            if let Some(i) = find(cards, id) {
                lemma_found(cards, id);
                lemma_others_remove(cards, i, id);
            }
        },
        MessageModel::Remove(_) => {
            law_removal_is_final(cards, id);
        },
    }
}

/// After removal no card with the id is left, and removing again changes nothing.
pub proof fn law_removal_is_final(cards: Seq<CardModel>, id: Seq<char>)
    ensures
        find(cards_after(cards, MessageModel::Remove(id)), id) is None,
        cards_after(cards_after(cards, MessageModel::Remove(id)), MessageModel::Remove(id))
            == cards_after(cards, MessageModel::Remove(id)),
{
    let kept = others(cards, id);
    assert forall|i: int| 0 <= i < kept.len() implies (#[trigger] kept[i]).id != id by {
        lemma_others_from(cards, id, i);
    }
    lemma_others_all(kept, id);
    if find(kept, id) is Some {
        lemma_found(kept, id);
    }
}

/// Cards keep distinct ids as long as each new question brings an unused id.
pub proof fn law_ids_stay_distinct(cards: Seq<CardModel>, message: MessageModel)
    requires
        distinct(cards),
        message is NewQuestion ==> find(cards, subject(message)) is None,
    ensures
        distinct(cards_after(cards, message)),
{
    let id = subject(message);
    let after = cards_after(cards, message);
    match message {
        MessageModel::NewQuestion(request) => {
            assert forall|i: int, j: int| 0 <= i < j < after.len() implies (#[trigger] after[i]).id
                != (#[trigger] after[j]).id by {
                lemma_not_found(cards, id, i);
                if j < cards.len() {
                    assert(after[i] == cards[i] && after[j] == cards[j]);
                }
            }
        },
        MessageModel::Remove(_) => {
            lemma_others_distinct(cards, id);
        },
        MessageModel::Reject(_) => {
            if let Some(k) = find(cards, id) {
                lemma_found(cards, id);
                assert forall|i: int, j: int| 0 <= i < j < after.len() implies (
                #[trigger] after[i]).id != (#[trigger] after[j]).id by {
                    let a = if i < k {
                        i
                    } else {
                        i + 1
                    };
                    let b = if j < k {
                        j
                    } else {
                        j + 1
                    };
                    assert(after[i] == cards[a] && after[j] == cards[b]);
                }
            }
        },
        _ => {
            if let Some(k) = find(cards, id) {
                lemma_found(cards, id);
                assert forall|i: int, j: int| 0 <= i < j < after.len() implies (
                #[trigger] after[i]).id != (#[trigger] after[j]).id by {
                    assert(after[i].id == cards[i].id && after[j].id == cards[j].id);
                }
            }
        },
    }
}

/// No message rewrites a question or leads it to another agent: every card on the list
/// was there before, or is the new question's.
pub proof fn law_questions_are_kept(cards: Seq<CardModel>, message: MessageModel, i: int)
    requires
        0 <= i < cards_after(cards, message).len(),
    ensures
        ({
            let card = cards_after(cards, message)[i];
            ||| exists|k: int| 0 <= k < cards.len() && same_question(#[trigger] cards[k], card)
            ||| message matches MessageModel::NewQuestion(request) && card == new_card(request)
        }),
{
    let id = subject(message);
    let card = cards_after(cards, message)[i];
    match message {
        MessageModel::NewQuestion(request) => {
            if i < cards.len() {
                assert(same_question(cards[i], card));
            }
        },
        MessageModel::Remove(_) => {
            lemma_others_from(cards, id, i);
            let k = choose|k: int| 0 <= k < cards.len() && cards[k] == card;
            assert(same_question(cards[k], card));
        },
        MessageModel::Reject(_) => {
            match find(cards, id) {
                Some(k) => {
                    lemma_found(cards, id);
                    if i < k {
                        assert(same_question(cards[i], card));
                    } else {
                        assert(same_question(cards[i + 1], card));
                    }
                },
                None => {
                    assert(same_question(cards[i], card));
                },
            }
        },
        _ => {
            if find(cards, id) is Some {
                lemma_found(cards, id);
            }
            assert(same_question(cards[i], card));
        },
    }
}

/// A message about an id that no card has changes no card.
pub proof fn law_unknown_ids_change_nothing(cards: Seq<CardModel>, message: MessageModel)
    requires
        !(message is NewQuestion),
        find(cards, subject(message)) is None,
    ensures
        cards_after(cards, message) == cards,
        !(message is Submitted) ==> action_for(cards, message) is Idle,
{
    let id = subject(message);
    assert forall|i: int| 0 <= i < cards.len() implies (#[trigger] cards[i]).id != id by {
        lemma_not_found(cards, id, i);
    }
    lemma_others_all(cards, id);
}

/// Questions are listed in the order in which they arrive, after those already listed.
pub proof fn law_arrivals_append(app: AppModel, requests: Seq<RequestModel>)
    ensures
        run(app, requests.map_values(|request: RequestModel| MessageModel::NewQuestion(request)))
            == (AppModel {
            questions: app.questions + requests.map_values(
                |request: RequestModel| new_card(request),
            ),
            ..app
        }),
    decreases requests.len(),
{
    let messages = requests.map_values(
        |request: RequestModel| MessageModel::NewQuestion(request),
    );
    let cards = requests.map_values(|request: RequestModel| new_card(request));
    if requests.len() == 0 {
        assert(app.questions + cards =~= app.questions);
    } else {
        let rest = requests.drop_last();
        law_arrivals_append(app, rest);
        assert(messages.drop_last() =~= rest.map_values(
            |request: RequestModel| MessageModel::NewQuestion(request),
        ));
        let before = rest.map_values(|request: RequestModel| new_card(request));
        assert(app.questions + cards =~= (app.questions + before).push(
            new_card(requests.last()),
        ));
    }
}

/// The port and the queue stay as they are, whatever happens, and the status bar always
/// shows the endpoint.
pub proof fn law_status_bar_shows_endpoint(app: AppModel, messages: Seq<MessageModel>)
    ensures
        run(app, messages).port == app.port,
        run(app, messages).question_rx == app.question_rx,
        shown(run(app, messages)).status == (LabelModel {
            text: endpoint_line(app.port),
            size: 11,
            tone: Tone::Status,
        }),
    decreases messages.len(),
{
    if messages.len() > 0 {
        law_status_bar_shows_endpoint(app, messages.drop_last());
    }
}

/// All open questions are on display at the same time, in order, each with its text and
/// a close button; the button rejects that question unless its answer went out.
pub proof fn law_every_question_is_shown(app: AppModel, i: int)
    requires
        0 <= i < app.questions.len(),
    ensures
        shown(app).content matches ContentModel::Cards(views) && {
            &&& views.len() == app.questions.len()
            &&& views[i].question.text == app.questions[i].question
            &&& views[i].close.text == "✕"@
            &&& views[i].on_close == if app.questions[i].state is Success {
                None
            } else {
                Some(MessageModel::Reject(app.questions[i].id))
            }
        },
{
}

/// A card whose answer went out is confirmed: typing no longer changes it, and no form
/// and no working close button are on display.
pub proof fn law_confirmed_cards_are_fixed(cards: Seq<CardModel>, id: Seq<char>, value: Seq<char>)
    requires
        find(cards, id) is Some,
        cards[find(cards, id)->0].state is Success,
    ensures
        cards_after(cards, MessageModel::AnswerChanged(id, value)) == cards,
        shown_card(cards[find(cards, id)->0]).body is Confirmation,
        shown_card(cards[find(cards, id)->0]).on_close is None,
{
    lemma_found(cards, id);
    assert(cards_after(cards, MessageModel::AnswerChanged(id, value)) =~= cards);
}

/// A place with the id that was first stays the place that is found when its card is
/// replaced by one with the same id.
proof fn lemma_find_update(cards: Seq<CardModel>, id: Seq<char>, card: CardModel)
    requires
        find(cards, id) is Some,
        card.id == id,
    ensures
        find(cards.update(find(cards, id)->0, card), id) == find(cards, id),
{
    lemma_found(cards, id);
    let i = find(cards, id)->0;
    let after = cards.update(i, card);
    assert(is_first(after, id, i));
    lemma_find_is(after, id, i);
}

/// A submission that failed shows its message as a tip above the form, keeps what was
/// typed, and lets the operator try again: typing any answer that is not blank and
/// submitting asks for it to be sent, trimmed, through the same slot.
pub proof fn law_failed_submissions_can_be_retried(
    cards: Seq<CardModel>,
    id: Seq<char>,
    error: Seq<char>,
    value: Seq<char>,
)
    requires
        find(cards, id) is Some,
        !is_blank(value),
    ensures
        ({
            let i = find(cards, id)->0;
            let failed = cards_after(cards, MessageModel::Submitted(id, Err(error)));
            let typed = cards_after(failed, MessageModel::AnswerChanged(id, value));
            &&& shown_card(failed[i]).body == BodyModel::Form(form_of(failed[i]))
            &&& form_of(failed[i]).error == Some(
                LabelModel { text: error, size: 12, tone: Tone::Failure },
            )
            &&& form_of(failed[i]).value == cards[i].answer_input
            &&& action_for(typed, MessageModel::Submit(id)) == (ActionModel::Deliver {
                id,
                slot: cards[i].answer_tx,
                answer: trimmed(value),
            })
        }),
{
    let i = find(cards, id)->0;
    lemma_found(cards, id);
    let failed = cards_after(cards, MessageModel::Submitted(id, Err(error)));
    lemma_find_update(cards, id, cards[i].turned(StateModel::Error(error)));
    lemma_find_update(failed, id, failed[i].edited(value));
    law_trimming(value);
}

/// An answer that is blank is not sent: the card asks for an answer in place.
pub proof fn law_blank_answers_are_not_sent(cards: Seq<CardModel>, id: Seq<char>)
    requires
        find(cards, id) is Some,
    ensures
        ({
            let i = find(cards, id)->0;
            let action = action_for(cards, MessageModel::Submit(id));
            let after = cards_after(cards, MessageModel::Submit(id));
            &&& is_blank(cards[i].answer_input) <==> action is Idle
            &&& is_blank(cards[i].answer_input) ==> after[i].state == StateModel::Error(
                "Please enter an answer before submitting."@,
            )
            &&& !is_blank(cards[i].answer_input) ==> action == (ActionModel::Deliver {
                id,
                slot: cards[i].answer_tx,
                answer: trimmed(cards[i].answer_input),
            }) && after == cards
        }),
{
    let i = find(cards, id)->0;
    lemma_found(cards, id);
    law_trimming(cards[i].answer_input);
    if !is_blank(cards[i].answer_input) {
        assert(cards_after(cards, MessageModel::Submit(id)) =~= cards);
    }
}

proof fn lemma_trimmed_part(s: Seq<char>) -> (ends: (int, int))
    ensures
        0 <= ends.0 <= ends.1 <= s.len(),
        trimmed(s) == s.subrange(ends.0, ends.1),
        is_blank(s.take(ends.0)),
        is_blank(s.skip(ends.1)),
        ends.0 < ends.1 ==> !is_white_space(s[ends.0]) && !is_white_space(s[ends.1 - 1]),
    decreases s.len(),
{
    if s.len() > 0 && is_white_space(s.first()) {
        let rest = s.drop_first();
        let (a, b) = lemma_trimmed_part(rest);
        assert(rest.subrange(a, b) =~= s.subrange(a + 1, b + 1));
        assert forall|i: int| 0 <= i < a + 1 implies is_white_space(
            #[trigger] s.take(a + 1)[i],
        ) by {
            if i > 0 {
                assert(s.take(a + 1)[i] == rest.take(a)[i - 1]);
            }
        }
        assert(s.skip(b + 1) =~= rest.skip(b));
        (a + 1, b + 1)
    } else if s.len() > 0 && is_white_space(s.last()) {
        let rest = s.drop_last();
        let (a, b) = lemma_trimmed_part(rest);
        assert(rest.subrange(a, b) =~= s.subrange(a, b));
        assert(s.take(a) =~= rest.take(a));
        assert forall|i: int| 0 <= i < s.skip(b).len() implies is_white_space(
            #[trigger] s.skip(b)[i],
        ) by {
            if i < s.skip(b).len() - 1 {
                assert(s.skip(b)[i] == rest.skip(b)[i]);
            }
        }
        (a, b)
    } else {
        assert(s.subrange(0, s.len() as int) =~= s);
        (0, s.len() as int)
    }
}

/// Trimming takes off white space at the two ends, all of it and nothing else; what is
/// left is empty exactly where the text is blank, and trimming it again changes nothing.
pub proof fn law_trimming(s: Seq<char>)
    ensures
        exists|from: int, to: int|
            #![trigger s.subrange(from, to)]
            0 <= from <= to <= s.len() && trimmed(s) == s.subrange(from, to) && is_blank(
                s.take(from),
            ) && is_blank(s.skip(to)),
        trimmed(s).len() == 0 <==> is_blank(s),
        trimmed(s).len() > 0 ==> !is_white_space(trimmed(s).first()) && !is_white_space(
            trimmed(s).last(),
        ),
        trimmed(trimmed(s)) == trimmed(s),
{
    let (a, b) = lemma_trimmed_part(s);
    assert(trimmed(s) == s.subrange(a, b));
    if a == b {
        assert forall|i: int| 0 <= i < s.len() implies is_white_space(#[trigger] s[i]) by {
            if i < a {
                assert(s.take(a)[i] == s[i]);
            } else {
                assert(s.skip(b)[i - b] == s[i]);
            }
        }
    }
}

/// The answer that the operator submits is what the agent is told: sending what a
/// submission asks to be sent hands the trimmed answer to the agent's channel, the
/// operator is told of success exactly where the channel takes it, and an agent that gets
/// what was handed over sees its tool call succeed with that answer as its text.
pub proof fn law_answers_reach_the_agent(
    cards: Seq<CardModel>,
    id: Seq<char>,
    slot: SharedSlot,
    answer: Seq<char>,
    before: SlotModel,
    outcome: Result<(), Seq<char>>,
    after: SlotModel,
)
    requires
        action_for(cards, MessageModel::Submit(id)) == (ActionModel::Deliver { id, slot, answer }),
        before.open,
        attempted(before, Some(answer), outcome, after),
    ensures
        find(cards, id) is Some,
        slot == cards[find(cards, id)->0].answer_tx,
        answer == trimmed(cards[find(cards, id)->0].answer_input),
        after.handed == Some(Some(answer)),
        outcome is Ok <==> after.accepted is Some,
        after.accepted is Some ==> after.accepted == after.handed,
        protocol_model(reply_model(after.handed)) == Ok::<_, rmcp::model::ErrorData>(
            success_result(answer),
        ),
{
}

/// A rejected question goes from the list at once, and declining its slot hands a refusal
/// to the agent's channel; an agent that gets what was handed over is told that the
/// operator declined.
pub proof fn law_refusals_reach_the_agent(
    cards: Seq<CardModel>,
    id: Seq<char>,
    before: SlotModel,
    after: SlotModel,
)
    requires
        find(cards, id) is Some,
        before.open,
        declined(before, after),
    ensures
        action_for(cards, MessageModel::Reject(id)) == (ActionModel::Decline {
            slot: cards[find(cards, id)->0].answer_tx,
        }),
        cards_after(cards, MessageModel::Reject(id)).len() == cards.len() - 1,
        distinct(cards) ==> find(cards_after(cards, MessageModel::Reject(id)), id) is None,
        after.handed == Some(None::<Seq<char>>),
        after.accepted is Some ==> after.accepted == after.handed,
        protocol_model(reply_model(after.handed)) == Ok::<_, rmcp::model::ErrorData>(
            failure_result("The human operator declined to answer."@),
        ),
{
    let i = find(cards, id)->0;
    lemma_found(cards, id);
    let rest = cards_after(cards, MessageModel::Reject(id));
    if distinct(cards) && find(rest, id) is Some {
        lemma_found(rest, id);
        let k = find(rest, id)->0;
        if k < i {
            assert(rest[k] == cards[k]);
        } else {
            assert(rest[k] == cards[k + 1]);
            assert(cards[i].id != cards[k + 1].id);
        }
    }
}

/// A new question under an unused id is the one that is found, with what was typed.
proof fn lemma_asked_and_typed(cards: Seq<CardModel>, request: RequestModel, value: Seq<char>)
    requires
        find(cards, request.id) is None,
    ensures
        cards_after(
            cards.push(new_card(request)),
            MessageModel::AnswerChanged(request.id, value),
        ) == cards.push(new_card(request).edited(value)),
        find(cards.push(new_card(request).edited(value)), request.id) == Some(cards.len() as int),
{
    let id = request.id;
    let i = cards.len() as int;
    let asked = cards.push(new_card(request));
    let typed = cards.push(new_card(request).edited(value));
    assert forall|j: int| 0 <= j < cards.len() implies (#[trigger] cards[j]).id != id by {
        lemma_not_found(cards, id, j);
    }
    assert(is_first(asked, id, i));
    lemma_find_is(asked, id, i);
    assert(is_first(typed, id, i));
    lemma_find_is(typed, id, i);
    assert(asked.update(i, asked[i].edited(value)) =~= typed);
}

/// A question that is asked, answered with any text that is not blank and submitted leads
/// to the trimmed text being sent through the very slot that came with the question.
pub proof fn law_asked_questions_are_answered(
    cards: Seq<CardModel>,
    request: RequestModel,
    value: Seq<char>,
)
    requires
        find(cards, request.id) is None,
        !is_blank(value),
    ensures
        ({
            let asked = cards_after(cards, MessageModel::NewQuestion(request));
            let typed = cards_after(asked, MessageModel::AnswerChanged(request.id, value));
            action_for(typed, MessageModel::Submit(request.id)) == (ActionModel::Deliver {
                id: request.id,
                slot: request.answer_tx,
                answer: trimmed(value),
            })
        }),
{
    lemma_asked_and_typed(cards, request, value);
    law_trimming(value);
}

/// A question that is asked and rejected, whatever was typed meanwhile, leads to a refusal
/// through the very slot that came with the question: what was typed is not sent.
pub proof fn law_rejected_questions_are_declined(
    cards: Seq<CardModel>,
    request: RequestModel,
    value: Seq<char>,
    before: SlotModel,
    after: SlotModel,
)
    requires
        find(cards, request.id) is None,
        before.open,
        declined(before, after),
    ensures
        ({
            let asked = cards_after(cards, MessageModel::NewQuestion(request));
            let typed = cards_after(asked, MessageModel::AnswerChanged(request.id, value));
            action_for(typed, MessageModel::Reject(request.id)) == (ActionModel::Decline {
                slot: request.answer_tx,
            })
        }),
        after.handed == Some(None::<Seq<char>>),
        protocol_model(reply_model(after.handed)) == Ok::<_, rmcp::model::ErrorData>(
            failure_result("The human operator declined to answer."@),
        ),
{
    lemma_asked_and_typed(cards, request, value);
}

/// The error tip of a failed submission stands, in red, directly above the answer box.
pub proof fn law_error_tip_is_above_the_answer_box(card: CardModel, error: Seq<char>) -> (at: int)
    requires
        card.state == StateModel::Error(error),
    ensures
        shown_card(card).body == BodyModel::Form(form_of(card)),
        0 <= at < parts_of(form_of(card)).len() - 1,
        parts_of(form_of(card))[at] == FormPartModel::Error(
            LabelModel { text: error, size: 12, tone: Tone::Failure },
        ),
        parts_of(form_of(card))[at + 1] is Input,
{
    if card.context is Some {
        1
    } else {
        0
    }
}

/// The requests are copies of the first one, each made from the request or from an earlier
/// copy: `from[k]` is the one that the copy `k` was made from.
pub open spec fn copies(requests: Seq<RequestModel>, from: Seq<int>) -> bool {
    &&& requests.len() > 0
    &&& from.len() == requests.len()
    &&& forall|k: int|
        0 < k < requests.len() ==> 0 <= #[trigger] from[k] < k && requests[k]
            == requests[from[k]]
}

/// A copy is what the first request is.
proof fn lemma_copies_are_equal(requests: Seq<RequestModel>, from: Seq<int>, k: int)
    requires
        copies(requests, from),
        0 <= k < requests.len(),
    ensures
        requests[k] == requests[0],
    decreases k,
{
    if k > 0 {
        assert(0 <= from[k] < k);
        lemma_copies_are_equal(requests, from, from[k]);
    }
}

/// However often a request is copied, and copies of it are, all copies lead to its one
/// slot; and however often that slot is tried through any of them, with answers or with
/// refusals, no try but the first is passed on, and none after it finds the slot open.
pub proof fn law_copies_share_one_answer(
    requests: Seq<RequestModel>,
    from: Seq<int>,
    states: Seq<SlotModel>,
    payloads: Seq<Option<Seq<char>>>,
    outcomes: Seq<Result<(), Seq<char>>>,
)
    requires
        copies(requests, from),
        tried(states, payloads, outcomes),
    ensures
        forall|k: int|
            0 <= k < requests.len() ==> (#[trigger] requests[k]).answer_tx
                == requests[0].answer_tx,
        forall|i: int|
            0 < i < outcomes.len() ==> #[trigger] outcomes[i] == Err::<(), Seq<char>>(
                "Already answered"@,
            ),
        forall|i: int| 0 < i < states.len() ==> #[trigger] states[i] == states[1],
        states.len() > 1 ==> !states[1].open,
{
    assert forall|k: int| 0 <= k < requests.len() implies (#[trigger] requests[k]).answer_tx
        == requests[0].answer_tx by {
        lemma_copies_are_equal(requests, from, k);
    }
    assert forall|i: int| 0 < i < outcomes.len() implies #[trigger] outcomes[i] == Err::<
        (),
        Seq<char>,
    >("Already answered"@) by {
        law_one_answer(states, payloads, outcomes, i);
    }
    assert forall|i: int| 0 < i < states.len() implies #[trigger] states[i] == states[1] by {
        if i > 1 {
            law_one_answer(states, payloads, outcomes, i - 1);
        }
    }
    if states.len() > 1 {
        assert(attempted(states[0], payloads[0], outcomes[0], states[1]));
    }
}

/// A card whose answer went out is confirmed, and comes up for removal a second and a
/// half later.
pub proof fn law_confirmed_cards_go(cards: Seq<CardModel>, id: Seq<char>)
    requires
        find(cards, id) is Some,
    ensures
        ({
            let i = find(cards, id)->0;
            let confirmed = cards_after(cards, MessageModel::Submitted(id, Ok(())));
            &&& confirmed[i].state is Success
            &&& action_for(cards, MessageModel::Submitted(id, Ok(())))
                == (ActionModel::RemoveLater { id, delay_ms: 1500 })
            &&& cards_after(confirmed, MessageModel::Remove(id)) == others(cards, id)
        }),
{
    lemma_found(cards, id);
    law_messages_touch_their_own_card(cards, MessageModel::Submitted(id, Ok(())));
}

/// A question that comes and is rejected leaves the list as it was.
pub proof fn law_rejection_undoes_arrival(cards: Seq<CardModel>, request: RequestModel)
    requires
        find(cards, request.id) is None,
    ensures
        cards_after(
            cards_after(cards, MessageModel::NewQuestion(request)),
            MessageModel::Reject(request.id),
        ) == cards,
{
    let asked = cards.push(new_card(request));
    assert forall|i: int| 0 <= i < cards.len() implies (#[trigger] cards[i]).id != request.id by {
        lemma_not_found(cards, request.id, i);
    }
    assert(is_first(asked, request.id, cards.len() as int));
    lemma_find_is(asked, request.id, cards.len() as int);
    assert(asked.remove(cards.len() as int) =~= cards);
}

/// Messages about one question leave the cards of all others as they are.
pub proof fn law_runs_touch_their_own_card(
    app: AppModel,
    id: Seq<char>,
    messages: Seq<MessageModel>,
)
    requires
        forall|i: int| 0 <= i < messages.len() ==> subject(#[trigger] messages[i]) == id,
    ensures
        others(run(app, messages).questions, id) == others(app.questions, id),
    decreases messages.len(),
{
    if messages.len() > 0 {
        let rest = messages.drop_last();
        assert forall|i: int| 0 <= i < rest.len() implies subject(#[trigger] rest[i]) == id by {
            assert(rest[i] == messages[i]);
        }
        law_runs_touch_their_own_card(app, id, rest);
        assert(subject(messages[messages.len() - 1]) == id);
        law_messages_touch_their_own_card(run(app, rest).questions, messages.last());
    }
}

/// A question that comes, is worked on in any way and is removed in the end leaves the
/// window as it was.
pub proof fn law_questions_come_and_go(
    app: AppModel,
    id: Seq<char>,
    messages: Seq<MessageModel>,
)
    requires
        find(app.questions, id) is None,
        forall|i: int| 0 <= i < messages.len() ==> subject(#[trigger] messages[i]) == id,
    ensures
        app_after(run(app, messages), MessageModel::Remove(id)) == app,
{
    law_runs_touch_their_own_card(app, id, messages);
    law_status_bar_shows_endpoint(app, messages);
    assert forall|i: int| 0 <= i < app.questions.len() implies (
    #[trigger] app.questions[i]).id != id by {
        lemma_not_found(app.questions, id, i);
    }
    lemma_others_all(app.questions, id);
}

proof fn lemma_decimal(n: nat)
    ensures
        decimal(n).len() > 0,
        all_digits(decimal(n)),
        digits_value(decimal(n)) == n,
    decreases n,
{
    if n < 10 {
        let s = seq![digit(n)];
        assert(s.drop_last() =~= Seq::<char>::empty());
        assert(digits_value(s.drop_last()) == 0);
    } else {
        lemma_decimal(n / 10);
        let s = decimal(n / 10);
        assert(s.push(digit(n % 10)).drop_last() =~= s);
    }
}

/// A port survives being written and read: a setting that writes a port in decimal
/// notation, with or without a plus sign, selects that port.
pub proof fn law_ports_round_trip(port: u16)
    ensures
        port_of(decimal(port as nat)) == Some(port),
        port_of(seq!['+'] + decimal(port as nat)) == Some(port),
        configured_port(Some(decimal(port as nat))) == port,
{
    let s = decimal(port as nat);
    lemma_decimal(port as nat);
    assert(is_digit(s[0]));
    assert(unsigned_part(s) == s);
    assert((seq!['+'] + s).drop_first() =~= s);
}

} // verus!
