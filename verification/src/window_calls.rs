//! What each message does to the cards, and what the window shows of them, said of the
//! fields alone.

use crate::app::{
    find, is_first, lemma_find_is, others, Action, App, CardModel, CardState, Message,
    MessageModel, QuestionCard, StateModel,
};
use crate::calls::{lemma_stripped_is_one, lemma_trimmed_is_stripped, same_text, stripped};
use crate::laws::law_unknown_ids_change_nothing;
use crate::mcp_server::QuestionRequest;
use crate::screen::{
    form_of, part_models, parts_of, shown_card, shown_cards, view_card, AnswerForm, CardBody,
    CardView, Content, FormPart, Label, Screen, Tone,
};
use crate::text::{decimal, is_white_space, trimmed};
use vstd::prelude::*;

verus! {

/// Two cards are in the same state.
pub open spec fn same_state(a: CardState, b: CardState) -> bool {
    match (a, b) {
        (CardState::Active, CardState::Active) => true,
        (CardState::Success, CardState::Success) => true,
        (CardState::Error(x), CardState::Error(y)) => x@ == y@,
        _ => false,
    }
}

/// Two cards are alike but for the answer field and the state.
pub open spec fn same_head(a: QuestionCard, b: QuestionCard) -> bool {
    &&& a.id@ == b.id@
    &&& a.question@ == b.question@
    &&& same_text(a.context, b.context)
    &&& a.answer_tx == b.answer_tx
}

/// Two cards are alike.
pub open spec fn same_card(a: QuestionCard, b: QuestionCard) -> bool {
    &&& same_head(a, b)
    &&& a.answer_input@ == b.answer_input@
    &&& same_state(a.state, b.state)
}

/// Two lists hold the same cards, but for the place `i`.
pub open spec fn same_but(a: Seq<QuestionCard>, b: Seq<QuestionCard>, i: int) -> bool {
    &&& a.len() == b.len()
    &&& forall|j: int| 0 <= j < a.len() && j != i ==> same_card(#[trigger] a[j], b[j])
}

/// Two lists hold the same cards.
pub open spec fn same_cards(a: Seq<QuestionCard>, b: Seq<QuestionCard>) -> bool {
    same_but(a, b, -1)
}

/// The card at `i` is the first with the id.
pub open spec fn first_with(cards: Seq<QuestionCard>, id: Seq<char>, i: int) -> bool {
    &&& 0 <= i < cards.len()
    &&& cards[i].id@ == id
    &&& forall|j: int| 0 <= j < i ==> (#[trigger] cards[j]).id@ != id
}

/// No card has the id.
pub open spec fn none_with(cards: Seq<QuestionCard>, id: Seq<char>) -> bool {
    forall|j: int| 0 <= j < cards.len() ==> (#[trigger] cards[j]).id@ != id
}

/// Nothing but white space.
pub open spec fn blank(s: Seq<char>) -> bool {
    forall|i: int| 0 <= i < s.len() ==> is_white_space(#[trigger] s[i])
}

/// `at` lists, in order, the places of all cards with other ids.
pub open spec fn places_of_others(cards: Seq<QuestionCard>, id: Seq<char>, at: Seq<int>) -> bool {
    &&& forall|k: int|
        0 <= k < at.len() ==> 0 <= #[trigger] at[k] < cards.len() && cards[at[k]].id@ != id
    &&& forall|k: int, l: int| 0 <= k < l < at.len() ==> #[trigger] at[k] < #[trigger] at[l]
    &&& forall|j: int|
        0 <= j < cards.len() && (#[trigger] cards[j]).id@ != id ==> at.contains(j)
}

proof fn lemma_index(app: App, i: int)
    requires
        0 <= i < app.questions@.len(),
    ensures
        app.model().questions[i] == app.questions@[i]@,
{
}

proof fn lemma_alike(a: QuestionCard, b: QuestionCard)
    requires
        a@ == b@,
    ensures
        same_card(a, b),
{
}

proof fn lemma_all_alike(a: App, b: App)
    requires
        a.model().questions == b.model().questions,
    ensures
        same_cards(a.questions@, b.questions@),
{
    assert(a.model().questions.len() == a.questions@.len());
    assert(b.model().questions.len() == b.questions@.len());
    assert forall|j: int| 0 <= j < a.questions@.len() && j != -1 implies same_card(
        #[trigger] a.questions@[j],
        b.questions@[j],
    ) by {
        lemma_index(a, j);
        lemma_index(b, j);
        lemma_alike(a.questions@[j], b.questions@[j]);
    }
}

proof fn lemma_first(app: App, id: Seq<char>, i: int)
    requires
        first_with(app.questions@, id, i),
    ensures
        find(app.model().questions, id) == Some(i),
        app.model().questions[i] == app.questions@[i]@,
{
    let cards = app.model().questions;
    lemma_index(app, i);
    assert forall|j: int| 0 <= j < i implies (#[trigger] cards[j]).id != id by {
        lemma_index(app, j);
        assert(app.questions@[j].id@ != id);
    }
    assert(is_first(cards, id, i));
    lemma_find_is(cards, id, i);
}

proof fn lemma_none(app: App, id: Seq<char>)
    requires
        none_with(app.questions@, id),
    ensures
        find(app.model().questions, id) is None,
{
    let cards = app.model().questions;
    if find(cards, id) is Some {
        let i = choose|i: int| is_first(cards, id, i);
        lemma_index(app, i);
        assert(app.questions@[i].id@ != id);
    }
}

/// A list in which one card was replaced.
proof fn lemma_updated(before: App, after: App, i: int, card: CardModel)
    requires
        0 <= i < before.questions@.len(),
        after.model().questions == before.model().questions.update(i, card),
    ensures
        same_but(after.questions@, before.questions@, i),
        after.questions@[i]@ == card,
{
    assert(after.model().questions.len() == after.questions@.len());
    lemma_index(after, i);
    assert forall|j: int| 0 <= j < after.questions@.len() && j != i implies same_card(
        #[trigger] after.questions@[j],
        before.questions@[j],
    ) by {
        lemma_index(after, j);
        lemma_index(before, j);
        lemma_alike(after.questions@[j], before.questions@[j]);
    }
}

/// Messages change neither the port nor the queue of the window.
pub proof fn law_messages_keep_the_setup(app: &mut App, message: Message, action: Action)
    requires
        call_ensures(App::update, (app, message), action),
    ensures
        final(app).port == old(app).port,
        final(app).question_rx == old(app).question_rx,
{
}

/// A new question is put at the end of the list as a card of its own: with its id, its
/// text, its context and its slot, waiting for an answer, nothing typed. All other cards
/// stay as they are.
pub proof fn law_new_questions_become_cards(
    app: &mut App,
    request: QuestionRequest,
    action: Action,
)
    requires
        call_ensures(App::update, (app, Message::NewQuestion(request)), action),
    ensures
        action is Idle,
        final(app).questions@.len() == old(app).questions@.len() + 1,
        same_cards(final(app).questions@.drop_last(), old(app).questions@),
        final(app).questions@.last().id@ == request.id@,
        final(app).questions@.last().question@ == request.question@,
        same_text(final(app).questions@.last().context, request.context),
        final(app).questions@.last().answer_tx == request.answer_tx,
        final(app).questions@.last().answer_input@.len() == 0,
        final(app).questions@.last().state is Active,
{
    let before = *old(app);
    let after = *final(app);
    let n = before.questions@.len() as int;
    assert(after.model().questions.len() == after.questions@.len());
    assert(before.model().questions.len() == before.questions@.len());
    lemma_index(after, n);
    let rest = after.questions@.drop_last();
    assert forall|j: int| 0 <= j < rest.len() && j != -1 implies same_card(
        #[trigger] rest[j],
        before.questions@[j],
    ) by {
        lemma_index(after, j);
        lemma_index(before, j);
        lemma_alike(after.questions@[j], before.questions@[j]);
    }
}

/// Typing into a card that is not confirmed replaces its answer field, whatever the field
/// held, and nothing else of the card; a confirmed card stays as it is. All other cards
/// stay as they are.
pub proof fn law_typing_replaces_the_answer(
    app: &mut App,
    id: String,
    value: String,
    action: Action,
    i: int,
)
    requires
        call_ensures(App::update, (app, Message::AnswerChanged(id, value)), action),
        first_with(old(app).questions@, id@, i),
    ensures
        action is Idle,
        same_but(final(app).questions@, old(app).questions@, i),
        same_head(final(app).questions@[i], old(app).questions@[i]),
        same_state(final(app).questions@[i].state, old(app).questions@[i].state),
        final(app).questions@[i].answer_input@ == if old(app).questions@[i].state is Success {
            old(app).questions@[i].answer_input@
        } else {
            value@
        },
{
    let before = *old(app);
    let after = *final(app);
    lemma_first(before, id@, i);
    lemma_updated(before, after, i, before.questions@[i]@.edited(value@));
}

/// What is typed last counts: after two edits of a card that is not confirmed, its answer
/// field holds the second value.
pub proof fn law_the_last_edit_counts(
    first: &mut App,
    second: &mut App,
    id: String,
    value: String,
    action: Action,
    again: String,
    value2: String,
    action2: Action,
    i: int,
)
    requires
        call_ensures(App::update, (first, Message::AnswerChanged(id, value)), action),
        *final(first) == *old(second),
        call_ensures(App::update, (second, Message::AnswerChanged(again, value2)), action2),
        again@ == id@,
        first_with(old(first).questions@, id@, i),
        !(old(first).questions@[i].state is Success),
    ensures
        final(second).questions@[i].answer_input@ == value2@,
        same_head(final(second).questions@[i], old(first).questions@[i]),
        same_state(final(second).questions@[i].state, old(first).questions@[i].state),
        same_but(final(second).questions@, old(first).questions@, i),
{
    let start = *old(first);
    let middle = *final(first);
    let end = *final(second);
    lemma_first(start, id@, i);
    lemma_updated(start, middle, i, start.questions@[i]@.edited(value@));
    assert forall|j: int| 0 <= j < i implies (#[trigger] middle.questions@[j]).id@ != id@ by {
        assert(same_card(middle.questions@[j], start.questions@[j]));
        assert(start.questions@[j].id@ != id@);
    }
    lemma_first(middle, id@, i);
    lemma_updated(middle, end, i, middle.questions@[i]@.edited(value2@));
    assert forall|j: int| 0 <= j < end.questions@.len() && j != i implies same_card(
        #[trigger] end.questions@[j],
        start.questions@[j],
    ) by {
        assert(same_card(middle.questions@[j], start.questions@[j]));
    }
}

/// Submitting a card whose answer field is blank sends nothing and asks for an answer on
/// that card. Submitting another asks for its answer, with the white space at both ends
/// taken off, to be sent through the slot of that very card, and changes no card.
pub proof fn law_submitting_sends_the_typed_answer(
    app: &mut App,
    id: String,
    action: Action,
    i: int,
)
    requires
        call_ensures(App::update, (app, Message::Submit(id)), action),
        first_with(old(app).questions@, id@, i),
    ensures
        blank(old(app).questions@[i].answer_input@) ==> {
            &&& action is Idle
            &&& same_but(final(app).questions@, old(app).questions@, i)
            &&& same_head(final(app).questions@[i], old(app).questions@[i])
            &&& final(app).questions@[i].answer_input@ == old(app).questions@[i].answer_input@
            &&& final(app).questions@[i].state is Error
            &&& final(app).questions@[i].state->Error_0@
                == "Please enter an answer before submitting."@
        },
        !blank(old(app).questions@[i].answer_input@) ==> {
            &&& same_cards(final(app).questions@, old(app).questions@)
            &&& action is Deliver
            &&& action->Deliver_id@ == id@
            &&& action->Deliver_slot == old(app).questions@[i].answer_tx
            &&& stripped(old(app).questions@[i].answer_input@, action->answer@)
            &&& action->answer@.len() > 0
        },
{
    let before = *old(app);
    let after = *final(app);
    let s = before.questions@[i].answer_input@;
    lemma_first(before, id@, i);
    lemma_trimmed_is_stripped(s);
    lemma_stripped_is_one(s, trimmed(s));
    lemma_updated(before, after, i, before.questions@[i]@.submitted());
    if !blank(s) {
        assert(after.model().questions =~= before.model().questions);
        lemma_all_alike(after, before);
    }
}

/// A submission that went out turns its card into a confirmed one and asks for its removal
/// after a second and a half. One that failed puts the message on its card. The answer
/// field and all other cards stay as they are.
pub proof fn law_outcomes_are_put_on_the_card(
    app: &mut App,
    id: String,
    outcome: Result<(), String>,
    action: Action,
    i: int,
)
    requires
        call_ensures(App::update, (app, Message::Submitted(id, outcome)), action),
        first_with(old(app).questions@, id@, i),
    ensures
        same_but(final(app).questions@, old(app).questions@, i),
        same_head(final(app).questions@[i], old(app).questions@[i]),
        final(app).questions@[i].answer_input@ == old(app).questions@[i].answer_input@,
        match outcome {
            Ok(()) => {
                &&& final(app).questions@[i].state is Success
                &&& action is RemoveLater
                &&& action->RemoveLater_id@ == id@
                &&& action->delay_ms == 1500
            },
            Err(error) => {
                &&& final(app).questions@[i].state is Error
                &&& final(app).questions@[i].state->Error_0@ == error@
                &&& action is Idle
            },
        },
{
    let before = *old(app);
    let after = *final(app);
    lemma_first(before, id@, i);
    let state = match outcome {
        Ok(()) => StateModel::Success,
        Err(error) => StateModel::Error(error@),
    };
    lemma_updated(before, after, i, before.questions@[i]@.turned(state));
}

/// Rejecting a question takes its card out at once and asks for a refusal through the slot
/// of that very card. The other cards close up and stay as they are.
pub proof fn law_rejecting_takes_the_card_out(app: &mut App, id: String, action: Action, i: int)
    requires
        call_ensures(App::update, (app, Message::Reject(id)), action),
        first_with(old(app).questions@, id@, i),
    ensures
        action is Decline,
        action->Decline_slot == old(app).questions@[i].answer_tx,
        final(app).questions@.len() == old(app).questions@.len() - 1,
        forall|j: int|
            0 <= j < i ==> same_card(#[trigger] final(app).questions@[j], old(app).questions@[j]),
        forall|j: int|
            i <= j < final(app).questions@.len() ==> same_card(
                #[trigger] final(app).questions@[j],
                old(app).questions@[j + 1],
            ),
{
    let before = *old(app);
    let after = *final(app);
    lemma_first(before, id@, i);
    assert(after.model().questions.len() == after.questions@.len());
    assert(before.model().questions.len() == before.questions@.len());
    assert forall|j: int| 0 <= j < i implies same_card(
        #[trigger] after.questions@[j],
        before.questions@[j],
    ) by {
        lemma_index(after, j);
        lemma_index(before, j);
        lemma_alike(after.questions@[j], before.questions@[j]);
    }
    assert forall|j: int| i <= j < after.questions@.len() implies same_card(
        #[trigger] after.questions@[j],
        before.questions@[j + 1],
    ) by {
        lemma_index(after, j);
        lemma_index(before, j + 1);
        lemma_alike(after.questions@[j], before.questions@[j + 1]);
    }
}

/// The places of the cards with other ids, and what is kept of them.
proof fn lemma_places(cards: Seq<CardModel>, id: Seq<char>) -> (at: Seq<int>)
    ensures
        at.len() == others(cards, id).len(),
        forall|k: int|
            0 <= k < at.len() ==> 0 <= #[trigger] at[k] < cards.len() && cards[at[k]].id != id
                && others(cards, id)[k] == cards[at[k]],
        forall|k: int, l: int| 0 <= k < l < at.len() ==> #[trigger] at[k] < #[trigger] at[l],
        forall|j: int| 0 <= j < cards.len() && (#[trigger] cards[j]).id != id ==> at.contains(j),
    decreases cards.len(),
{
    reveal(Seq::filter);
    if cards.len() == 0 {
        Seq::empty()
    } else {
        let rest = cards.drop_last();
        let n = cards.len() - 1;
        let at = lemma_places(rest, id);
        let now = if cards.last().id != id {
            at.push(n)
        } else {
            at
        };
        assert forall|k: int| 0 <= k < now.len() implies 0 <= #[trigger] now[k] < cards.len()
            && cards[now[k]].id != id && others(cards, id)[k] == cards[now[k]] by {
            if k < at.len() {
                assert(now[k] == at[k]);
                assert(rest[at[k]] == cards[at[k]]);
                assert(others(cards, id)[k] == others(rest, id)[k]);
            }
        }
        assert forall|j: int| 0 <= j < cards.len() && (#[trigger] cards[j]).id
            != id implies now.contains(j) by {
            if j < n {
                assert(rest[j] == cards[j]);
                assert(at.contains(j));
                let k = choose|k: int| 0 <= k < at.len() && at[k] == j;
                assert(now[k] == j);
            } else {
                assert(now[at.len() as int] == n);
            }
        }
        now
    }
}

/// Removing an id keeps all cards with other ids, in order, and no others.
pub proof fn law_removing_keeps_all_others(
    app: &mut App,
    id: String,
    action: Action,
) -> (at: Seq<int>)
    requires
        call_ensures(App::update, (app, Message::Remove(id)), action),
    ensures
        action is Idle,
        none_with(final(app).questions@, id@),
        places_of_others(old(app).questions@, id@, at),
        final(app).questions@.len() == at.len(),
        forall|k: int|
            0 <= k < at.len() ==> same_card(
                #[trigger] final(app).questions@[k],
                old(app).questions@[at[k]],
            ),
{
    let before = *old(app);
    let after = *final(app);
    let at = lemma_places(before.model().questions, id@);
    assert(after.model().questions.len() == after.questions@.len());
    assert(before.model().questions.len() == before.questions@.len());
    assert forall|k: int| 0 <= k < at.len() implies same_card(
        #[trigger] after.questions@[k],
        before.questions@[at[k]],
    ) by {
        lemma_index(after, k);
        assert(0 <= at[k] < before.model().questions.len());
        lemma_index(before, at[k]);
        lemma_alike(after.questions@[k], before.questions@[at[k]]);
    }
    assert forall|k: int| 0 <= k < at.len() implies 0 <= #[trigger] at[k]
        < before.questions@.len() && before.questions@[at[k]].id@ != id@ by {
        lemma_index(before, at[k]);
    }
    assert forall|j: int| 0 <= j < before.questions@.len() && (
    #[trigger] before.questions@[j]).id@ != id@ implies at.contains(j) by {
        lemma_index(before, j);
        assert(before.model().questions[j].id != id@);
    }
    assert forall|j: int| 0 <= j < after.questions@.len() implies (
    #[trigger] after.questions@[j]).id@ != id@ by {
        assert(same_card(after.questions@[j], before.questions@[at[j]]));
        assert(before.questions@[at[j]].id@ != id@);
    }
    at
}

/// A message about an id that no card has changes no card, and asks for nothing; only the
/// report of a success still asks for the removal of its id.
pub proof fn law_messages_about_no_card_do_nothing(
    app: &mut App,
    message: Message,
    action: Action,
    id: String,
)
    requires
        call_ensures(App::update, (app, message), action),
        none_with(old(app).questions@, id@),
        match message {
            Message::NewQuestion(_) => false,
            Message::AnswerChanged(about, _) => about == id,
            Message::Submit(about) => about == id,
            Message::Submitted(about, _) => about == id,
            Message::Reject(about) => about == id,
            Message::Remove(about) => about == id,
        },
    ensures
        same_cards(final(app).questions@, old(app).questions@),
        match message {
            Message::Submitted(_, Ok(())) => action is RemoveLater && action->RemoveLater_id@
                == id@ && action->delay_ms == 1500,
            _ => action is Idle,
        },
{
    let before = *old(app);
    let after = *final(app);
    lemma_none(before, id@);
    if message is Remove {
        law_unknown_ids_change_nothing(before.model().questions, message@);
    }
    assert(after.model().questions =~= before.model().questions);
    lemma_all_alike(after, before);
}

/// A label has a text, a size and a colour.
pub open spec fn reads(label: Label, text: Seq<char>, size: u16, tone: Tone) -> bool {
    label.text@ == text && label.size == size && label.tone == tone
}

/// A form belongs to a card: it names the card, shows its context, its error and what was
/// typed.
pub open spec fn form_fits(form: AnswerForm, card: QuestionCard) -> bool {
    &&& form.id@ == card.id@
    &&& form.value@ == card.answer_input@
    &&& form.placeholder@ == "Type your answer here…"@
    &&& form.submit@ == "Submit Answer"@
    &&& match card.context {
        Some(text) => form.context is Some && reads(form.context->0, text@, 12, Tone::Context),
        None => form.context is None,
    }
    &&& match card.state {
        CardState::Error(text) => form.error is Some && reads(
            form.error->0,
            text@,
            12,
            Tone::Failure,
        ),
        _ => form.error is None,
    }
}

/// A card is drawn with its question and a close button. Unless it is confirmed, the button
/// rejects that very card and its form follows; else the button is dead and a confirmation
/// follows.
pub open spec fn draws(view: CardView, card: QuestionCard) -> bool {
    &&& reads(view.question, card.question@, 15, Tone::Plain)
    &&& reads(view.close.label, "✕"@, 13, Tone::Plain)
    &&& match card.state {
        CardState::Success => {
            &&& view.close.on_press is None
            &&& view.body matches CardBody::Confirmation(note) && reads(
                note,
                "✓  Answer submitted successfully!"@,
                14,
                Tone::Success,
            )
            &&& view.border == Tone::Success
        },
        CardState::Active => {
            &&& view.close.on_press matches Some(Message::Reject(id)) && id@ == card.id@
            &&& view.body matches CardBody::Form(form) && form_fits(form, card)
            &&& view.border == Tone::IdleBorder
        },
        CardState::Error(_) => {
            &&& view.close.on_press matches Some(Message::Reject(id)) && id@ == card.id@
            &&& view.body matches CardBody::Form(form) && form_fits(form, card)
            &&& view.border == Tone::FailureBorder
        },
    }
}

proof fn lemma_drawn(view: CardView, card: QuestionCard)
    requires
        view@ == shown_card(card@),
    ensures
        draws(view, card),
{
    let model = view@;
    assert(model.question.text == view.question.text@);
    if card.state is Success {
        assert(model.on_close is None);
        assert(view.body is Confirmation);
    } else {
        assert(model.on_close == Some(MessageModel::Reject(card.id@)));
        assert(view.close.on_press is Some);
        assert(view.close.on_press->0@ == MessageModel::Reject(card.id@));
        assert(view.close.on_press->0 is Reject);
        assert(view.body is Form);
        let form = view.body->Form_0;
        assert(form@ == form_of(card@));
        assert(form_fits(form, card));
    }
}

/// A card is drawn as it is: its question, its close button, and below them its form or its
/// confirmation.
pub proof fn law_cards_are_drawn_as_they_are(card: &QuestionCard, view: CardView)
    requires
        call_ensures(view_card, (card,), view),
    ensures
        draws(view, *card),
{
    lemma_drawn(view, *card);
}

/// The form of a card works on that card, with or without an error tip: typing in it edits
/// that card's answer, and its button submits that card.
pub proof fn law_forms_work_on_their_card(
    card: &QuestionCard,
    view: CardView,
    form: &AnswerForm,
    value: String,
    typed: Message,
    pressed: Message,
)
    requires
        !(card.state is Success),
        call_ensures(view_card, (card,), view),
        view.body == CardBody::Form(*form),
        call_ensures(AnswerForm::on_input, (form, value), typed),
        call_ensures(AnswerForm::on_submit, (form,), pressed),
    ensures
        typed matches Message::AnswerChanged(id, v) && id@ == card.id@ && v@ == value@,
        pressed matches Message::Submit(id) && id@ == card.id@,
{
    lemma_drawn(view, *card);
}

/// The parts of a form, from top to bottom: the context and the error tip, where there is
/// one, the one answer box with the form's text, and the button.
pub open spec fn lists(parts: Seq<FormPart>, form: AnswerForm) -> bool {
    let c: int = if form.context is Some {
        1
    } else {
        0
    };
    let e: int = if form.error is Some {
        c + 1
    } else {
        c
    };
    &&& parts.len() == e + 2
    &&& form.context is Some ==> parts[0] is Context && reads(
        parts[0]->Context_0,
        form.context->0.text@,
        form.context->0.size,
        form.context->0.tone,
    )
    &&& form.error is Some ==> parts[c] is Error && reads(
        parts[c]->Error_0,
        form.error->0.text@,
        form.error->0.size,
        form.error->0.tone,
    )
    &&& parts[e] matches FormPart::Input { placeholder, value } && placeholder@
        == form.placeholder@ && value@ == form.value@
    &&& parts[e + 1] matches FormPart::Submit(text) && text@ == form.submit@
}

proof fn lemma_listed(parts: Seq<FormPart>, form: AnswerForm)
    requires
        part_models(parts) == parts_of(form@),
    ensures
        lists(parts, form),
{
    let models = part_models(parts);
    assert(models.len() == parts.len());
    assert forall|k: int| 0 <= k < parts.len() implies (#[trigger] parts[k])@ == models[k] by {}
    let n = parts.len() as int;
    assert(parts[n - 1]@ == models[n - 1]);
    assert(parts[n - 2]@ == models[n - 2]);
    if n >= 3 {
        assert(parts[n - 3]@ == models[n - 3]);
    }
    if n >= 4 {
        assert(parts[n - 4]@ == models[n - 4]);
    }
}

/// The parts of a form are its own, from top to bottom.
pub proof fn law_parts_are_those_of_the_form(form: &AnswerForm, parts: Vec<FormPart>)
    requires
        call_ensures(AnswerForm::parts, (form,), parts),
    ensures
        lists(parts@, *form),
{
    lemma_listed(parts@, *form);
}

/// The form of a card that is not confirmed has exactly one answer box, and the box shows
/// what was typed into that card.
pub proof fn law_the_answer_box_shows_what_was_typed(
    card: &QuestionCard,
    view: CardView,
    form: &AnswerForm,
    parts: Vec<FormPart>,
) -> (at: int)
    requires
        !(card.state is Success),
        call_ensures(view_card, (card,), view),
        view.body == CardBody::Form(*form),
        call_ensures(AnswerForm::parts, (form,), parts),
    ensures
        0 <= at < parts@.len(),
        parts@[at] matches FormPart::Input { placeholder, value } && value@ == card.answer_input@
            && placeholder@ == "Type your answer here…"@,
        forall|k: int| 0 <= k < parts@.len() && k != at ==> !(#[trigger] parts@[k] is Input),
        card.state is Error ==> at > 0 && parts@[at - 1] is Error && reads(
            parts@[at - 1]->Error_0,
            card.state->Error_0@,
            12,
            Tone::Failure,
        ),
{
    lemma_drawn(view, *card);
    lemma_listed(parts@, *form);
    parts@.len() - 2
}

/// The endpoint in words, for a port.
pub open spec fn endpoint_words(port: u16) -> Seq<char> {
    "MCP endpoint:  "@ + ("http://"@ + ("127.0.0.1:"@ + decimal(port as nat)) + "/mcp"@)
}

/// The window shows all its cards, in order, each as it is drawn, or says that it waits
/// where there is none; the status bar always names the window's endpoint.
pub proof fn law_the_window_shows_all_cards(app: &App, screen: Screen)
    requires
        call_ensures(App::view, (app,), screen),
    ensures
        reads(screen.status, endpoint_words(app.port), 11, Tone::Status),
        app.questions@.len() == 0 ==> {
            &&& screen.content is Waiting
            &&& reads(screen.content->heading, "AskHuman"@, 28, Tone::Plain)
            &&& reads(
                screen.content->notice,
                "Waiting for questions from AI agents…"@,
                15,
                Tone::Plain,
            )
            &&& reads(screen.content->endpoint, endpoint_words(app.port), 12, Tone::Hint)
        },
        app.questions@.len() > 0 ==> {
            &&& screen.content is Cards
            &&& screen.content->Cards_0@.len() == app.questions@.len()
            &&& forall|i: int|
                0 <= i < app.questions@.len() ==> draws(
                    #[trigger] screen.content->Cards_0@[i],
                    app.questions@[i],
                )
        },
{
    assert(app.model().questions.len() == app.questions@.len());
    if app.questions@.len() > 0 {
        assert(screen.content is Cards);
        let views = screen.content->Cards_0;
        let models = views@.map_values(|card: CardView| card@);
        assert(models == shown_cards(app.model().questions));
        assert(models.len() == views@.len());
        assert forall|i: int| 0 <= i < views@.len() implies draws(
            #[trigger] views@[i],
            app.questions@[i],
        ) by {
            assert(models[i] == views@[i]@);
            lemma_index(*app, i);
            lemma_drawn(views@[i], app.questions@[i]);
        }
    }
}

} // verus!
