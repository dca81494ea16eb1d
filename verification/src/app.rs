//! The state of the desktop window: the question cards, and what each message does
//! to them.

use crate::channel::{share, text_model};
use crate::mcp_server::{QuestionRequest, RequestModel};
use crate::slot::{attempted, outcome_model, AnswerSlot, SharedSlot};
use crate::text::{decimal, decimal_text, trim, trimmed};
use std::sync::{Arc, Mutex};
use tokio::sync::mpsc;
use vstd::prelude::*;
use vstd::string::*;

verus! {

/// The queue at which questions arrive from the server, until its reader takes it.
pub type QuestionQueue = Arc<Mutex<Option<mpsc::Receiver<QuestionRequest>>>>;

/// How long a confirmed card stays, in milliseconds.
pub const CONFIRMATION_MS: u64 = 1500;

/// What the window is started with.
pub struct Flags {
    pub question_rx: QuestionQueue,
    pub port: u16,
}

/// Where a card stands.
#[derive(Debug)]
pub enum CardState {
    /// Waiting for the user to type an answer.
    Active,
    /// Answer sent, shown briefly as confirmed before removal.
    Success,
    /// Error text shown above the input field; the user may retry.
    Error(String),
}

/// One question on display.
pub struct QuestionCard {
    pub id: String,
    pub question: String,
    pub context: Option<String>,
    pub answer_input: String,
    pub state: CardState,
    pub answer_tx: SharedSlot,
}

/// The window's state.
pub struct App {
    pub questions: Vec<QuestionCard>,
    pub question_rx: QuestionQueue,
    pub port: u16,
}

/// What happens to the window.
pub enum Message {
    /// A new question arrived from the MCP server.
    NewQuestion(QuestionRequest),
    /// User edited the answer field for a card.
    AnswerChanged(String, String),
    /// User clicked Submit (or pressed Enter).
    Submit(String),
    /// Result of sending the answer to the MCP server.
    Submitted(String, Result<(), String>),
    /// User clicked the close/reject button.
    Reject(String),
    /// Remove card after the confirmation was shown.
    Remove(String),
}

impl Clone for Message {
    fn clone(&self) -> (copy: Self)
        ensures
            copy@ == self@,
    {
        match self {
            Message::NewQuestion(request) => Message::NewQuestion(request.clone()),
            Message::AnswerChanged(id, value) => Message::AnswerChanged(id.clone(), value.clone()),
            Message::Submit(id) => Message::Submit(id.clone()),
            Message::Submitted(id, outcome) => Message::Submitted(
                id.clone(),
                match outcome {
                    Ok(()) => Ok(()),
                    Err(error) => Err(error.clone()),
                },
            ),
            Message::Reject(id) => Message::Reject(id.clone()),
            Message::Remove(id) => Message::Remove(id.clone()),
        }
    }
}

/// What the window asks to be done outside of it.
pub enum Action {
    /// Nothing.
    Idle,
    /// Send `answer` through `slot`; the outcome comes back as `Submitted` for `id`.
    Deliver { id: String, slot: SharedSlot, answer: String },
    /// Tell the agent behind `slot` that the operator declined.
    Decline { slot: SharedSlot },
    /// After `delay_ms` milliseconds, come back with `Remove` for `id`.
    RemoveLater { id: String, delay_ms: u64 },
}

/// What a card's state stands for.
pub enum StateModel {
    Active,
    Success,
    Error(Seq<char>),
}

/// What a card stands for.
pub struct CardModel {
    pub id: Seq<char>,
    pub question: Seq<char>,
    pub context: Option<Seq<char>>,
    pub answer_input: Seq<char>,
    pub state: StateModel,
    pub answer_tx: SharedSlot,
}

/// What the window's state stands for.
#[verifier::ext_equal]
pub struct AppModel {
    pub questions: Seq<CardModel>,
    pub question_rx: QuestionQueue,
    pub port: u16,
}

/// What a message stands for.
pub enum MessageModel {
    NewQuestion(RequestModel),
    AnswerChanged(Seq<char>, Seq<char>),
    Submit(Seq<char>),
    Submitted(Seq<char>, Result<(), Seq<char>>),
    Reject(Seq<char>),
    Remove(Seq<char>),
}

/// What an action stands for.
pub enum ActionModel {
    Idle,
    Deliver { id: Seq<char>, slot: SharedSlot, answer: Seq<char> },
    Decline { slot: SharedSlot },
    RemoveLater { id: Seq<char>, delay_ms: u64 },
}

impl View for CardState {
    type V = StateModel;

    open spec fn view(&self) -> StateModel {
        match self {
            CardState::Active => StateModel::Active,
            CardState::Success => StateModel::Success,
            CardState::Error(text) => StateModel::Error(text@),
        }
    }
}

impl View for QuestionCard {
    type V = CardModel;

    open spec fn view(&self) -> CardModel {
        CardModel {
            id: self.id@,
            question: self.question@,
            context: text_model(self.context),
            answer_input: self.answer_input@,
            state: self.state@,
            answer_tx: self.answer_tx,
        }
    }
}

impl App {
    /// What the window's state stands for.
    pub open spec fn model(&self) -> AppModel {
        AppModel {
            questions: card_models(self.questions@),
            question_rx: self.question_rx,
            port: self.port,
        }
    }
}

impl View for Message {
    type V = MessageModel;

    open spec fn view(&self) -> MessageModel {
        match self {
            Message::NewQuestion(request) => MessageModel::NewQuestion(request@),
            Message::AnswerChanged(id, value) => MessageModel::AnswerChanged(id@, value@),
            Message::Submit(id) => MessageModel::Submit(id@),
            Message::Submitted(id, outcome) => MessageModel::Submitted(
                id@,
                outcome_model(*outcome),
            ),
            Message::Reject(id) => MessageModel::Reject(id@),
            Message::Remove(id) => MessageModel::Remove(id@),
        }
    }
}

impl View for Action {
    type V = ActionModel;

    open spec fn view(&self) -> ActionModel {
        match self {
            Action::Idle => ActionModel::Idle,
            Action::Deliver { id, slot, answer } => ActionModel::Deliver {
                id: id@,
                slot: *slot,
                answer: answer@,
            },
            Action::Decline { slot } => ActionModel::Decline { slot: *slot },
            Action::RemoveLater { id, delay_ms } => ActionModel::RemoveLater {
                id: id@,
                delay_ms: *delay_ms,
            },
        }
    }
}

/// What a list of cards stands for.
pub open spec fn card_models(cards: Seq<QuestionCard>) -> Seq<CardModel> {
    cards.map_values(|card: QuestionCard| card@)
}

/// `i` is the place of the first card with the id.
pub open spec fn is_first(cards: Seq<CardModel>, id: Seq<char>, i: int) -> bool {
    &&& 0 <= i < cards.len()
    &&& cards[i].id == id
    &&& forall|j: int| 0 <= j < i ==> (#[trigger] cards[j]).id != id
}

/// The place of the first card with the id, if there is one.
pub open spec fn find(cards: Seq<CardModel>, id: Seq<char>) -> Option<int> {
    if exists|i: int| is_first(cards, id, i) {
        Some(choose|i: int| is_first(cards, id, i))
    } else {
        None
    }
}

/// The cards with other ids, in order.
pub open spec fn others(cards: Seq<CardModel>, id: Seq<char>) -> Seq<CardModel> {
    cards.filter(|card: CardModel| card.id != id)
}

/// The card that a request appears as.
pub open spec fn new_card(request: RequestModel) -> CardModel {
    CardModel {
        id: request.id,
        question: request.question,
        context: request.context,
        answer_input: Seq::empty(),
        state: StateModel::Active,
        answer_tx: request.answer_tx,
    }
}

impl CardModel {
    /// The card with its answer field replaced, unless it is already confirmed.
    pub open spec fn edited(self, value: Seq<char>) -> CardModel {
        if self.state is Success {
            self
        } else {
            CardModel { answer_input: value, ..self }
        }
    }

    /// The card in another state.
    pub open spec fn turned(self, state: StateModel) -> CardModel {
        CardModel { state, ..self }
    }

    /// Submitting the card has an answer to send.
    pub open spec fn has_answer(self) -> bool {
        trimmed(self.answer_input).len() > 0
    }

    /// The card after a try to submit it: an empty answer is an error at once, another
    /// leaves the card to what comes of sending.
    pub open spec fn submitted(self) -> CardModel {
        if self.has_answer() {
            self
        } else {
            self.turned(StateModel::Error("Please enter an answer before submitting."@))
        }
    }
}

/// The cards after a message. A message that names a card speaks of the first one with
/// that id; only removal takes all of them.
pub open spec fn cards_after(cards: Seq<CardModel>, message: MessageModel) -> Seq<CardModel> {
    match message {
        MessageModel::NewQuestion(request) => cards.push(new_card(request)),
        MessageModel::AnswerChanged(id, value) => match find(cards, id) {
            Some(i) => cards.update(i, cards[i].edited(value)),
            None => cards,
        },
        MessageModel::Submit(id) => match find(cards, id) {
            Some(i) => cards.update(i, cards[i].submitted()),
            None => cards,
        },
        MessageModel::Submitted(id, outcome) => match find(cards, id) {
            Some(i) => cards.update(
                i,
                cards[i].turned(
                    match outcome {
                        Ok(()) => StateModel::Success,
                        Err(message) => StateModel::Error(message),
                    },
                ),
            ),
            None => cards,
        },
        MessageModel::Reject(id) => match find(cards, id) {
            Some(i) => cards.remove(i),
            None => cards,
        },
        MessageModel::Remove(id) => others(cards, id),
    }
}

/// What a message asks to be done outside of the window.
pub open spec fn action_for(cards: Seq<CardModel>, message: MessageModel) -> ActionModel {
    match message {
        MessageModel::Submit(id) => match find(cards, id) {
            Some(i) => if cards[i].has_answer() {
                ActionModel::Deliver {
                    id,
                    slot: cards[i].answer_tx,
                    answer: trimmed(cards[i].answer_input),
                }
            } else {
                ActionModel::Idle
            },
            None => ActionModel::Idle,
        },
        MessageModel::Submitted(id, Ok(())) => ActionModel::RemoveLater {
            id,
            delay_ms: CONFIRMATION_MS,
        },
        MessageModel::Reject(id) => match find(cards, id) {
            Some(i) => ActionModel::Decline { slot: cards[i].answer_tx },
            None => ActionModel::Idle,
        },
        _ => ActionModel::Idle,
    }
}

/// The window after a message.
pub open spec fn app_after(app: AppModel, message: MessageModel) -> AppModel {
    AppModel { questions: cards_after(app.questions, message), ..app }
}

/// A first place is the place that is found.
pub proof fn lemma_find_is(cards: Seq<CardModel>, id: Seq<char>, i: int)
    requires
        is_first(cards, id, i),
    ensures
        find(cards, id) == Some(i),
{
    let found = choose|k: int| is_first(cards, id, k);
    assert(is_first(cards, id, found));
    if found < i {
        assert(cards[found].id != id);
    } else if i < found {
        assert(cards[i].id != id);
    }
}

/// Does what `Action::Deliver` asks for, with the slot locked: sends the answer through the
/// slot, and gives the message that reports the outcome.
pub fn deliver(id: String, slot: &mut AnswerSlot, answer: String) -> (message: Message)
    ensures
        message@ matches MessageModel::Submitted(about, outcome) && about == id@ && attempted(
            old(slot)@,
            Some(answer@),
            outcome,
            final(slot)@,
        ),
        old(slot)@.wf(),
        final(slot)@.wf(),
{
    Message::Submitted(id, slot.answer(answer))
}

/// The message that `Action::RemoveLater` asks for once its delay is over.
pub fn due(id: String) -> (message: Message)
    ensures
        message@ == MessageModel::Remove(id@),
{
    Message::Remove(id)
}

impl App {
    /// An empty window.
    pub fn new(flags: Flags) -> (app: App)
        ensures
            app.model() == (AppModel {
                questions: Seq::empty(),
                question_rx: flags.question_rx,
                port: flags.port,
            }),
    {
        App { questions: Vec::new(), question_rx: flags.question_rx, port: flags.port }
    }

    /// The title of the window.
    pub fn title(&self) -> (title: String)
        ensures
            title@ == "AskHuman  —  MCP on :"@ + decimal(self.model().port as nat),
    {
        let mut title = "AskHuman  —  MCP on :".to_owned();
        title.append(decimal_text(self.port).as_str());
        title
    }

    /// The place of the first card with the id.
    fn position(&self, id: &String) -> (found: Option<usize>)
        ensures
            match found {
                Some(i) => i < self.questions@.len() && find(self.model().questions, id@) == Some(i as int)
                    && is_first(self.model().questions, id@, i as int),
                None => find(self.model().questions, id@) is None,
            },
    {
        let mut i: usize = 0;
        while i < self.questions.len()
            invariant
                i <= self.questions@.len(),
                forall|j: int| 0 <= j < i ==> (#[trigger] self.model().questions[j]).id != id@,
            decreases self.questions@.len() - i,
        {
            assert(self.model().questions[i as int] == self.questions@[i as int]@);
            if self.questions[i].id == *id {
                proof {
                    assert(is_first(self.model().questions, id@, i as int));
                    lemma_find_is(self.model().questions, id@, i as int);
                }
                return Some(i);
            }
            i = i + 1;
        }
        None
    }

    /// Puts the first card with the id into another state.
    fn turn(&mut self, id: &String, state: CardState)
        ensures
            final(self).model() == (AppModel {
                questions: match find(old(self).model().questions, id@) {
                    Some(i) => old(self).model().questions.update(
                        i,
                        old(self).model().questions[i].turned(state@),
                    ),
                    None => old(self).model().questions,
                },
                ..old(self).model()
            }),
    {
        if let Some(i) = self.position(id) {
            self.questions[i].state = state;
            assert(self.model().questions =~= old(self).model().questions.update(
                i as int,
                old(self).model().questions[i as int].turned(state@),
            ));
        }
    }

    /// Takes out every card with the id.
    fn remove_all(&mut self, id: &String)
        ensures
            final(self).model() == (AppModel {
                questions: others(old(self).model().questions, id@),
                ..old(self).model()
            }),
    {
        let ghost all = self.model().questions;
        let ghost keep = |card: CardModel| card.id != id@;
        let ghost mut seen: int = 0;
        let mut i: usize = 0;
        assert(all.take(0).filter(keep) =~= Seq::empty());
        assert(all.skip(0) =~= all);
        while i < self.questions.len()
            invariant
                0 <= seen <= all.len(),
                keep == (|card: CardModel| card.id != id@),
                i == all.take(seen).filter(keep).len(),
                self.model().questions == all.take(seen).filter(keep) + all.skip(seen),
                self.model().question_rx == old(self).model().question_rx,
                self.model().port == old(self).model().port,
            decreases all.len() - seen,
        {
            let ghost kept = all.take(seen).filter(keep);
            assert(self.model().questions[i as int] == self.questions@[i as int]@);
            assert(self.model().questions[i as int] == all[seen]);
            proof {
                assert(all.take(seen + 1).drop_last() =~= all.take(seen));
                reveal(Seq::filter);
            }
            if self.questions[i].id == *id {
                let ghost before = self.model().questions;
                let _ = self.questions.remove(i);
                assert(self.model().questions =~= before.remove(i as int));
                assert(self.model().questions =~= kept + all.skip(seen + 1));
            } else {
                i = i + 1;
                assert(kept.push(all[seen]) + all.skip(seen + 1) =~= kept + all.skip(seen));
            }
            proof {
                seen = seen + 1;
            }
        }
        assert(all.take(seen) =~= all);
        assert(self.model().questions =~= all.filter(keep));
    }

    /// Takes a message: changes the cards, and says what is to be done outside.
    pub fn update(&mut self, message: Message) -> (action: Action)
        ensures
            final(self).model() == app_after(old(self).model(), message@),
            action@ == action_for(old(self).model().questions, message@),
    {
        match message {
            Message::NewQuestion(request) => {
                self.questions.push(
                    QuestionCard {
                        id: request.id,
                        question: request.question,
                        context: request.context,
                        answer_input: String::new(),
                        state: CardState::Active,
                        answer_tx: request.answer_tx,
                    },
                );
                assert(self.model().questions =~= old(self).model().questions.push(new_card(request@)));
                Action::Idle
            },
            Message::AnswerChanged(id, value) => {
                if let Some(i) = self.position(&id) {
                    if let CardState::Success = self.questions[i].state {
                    } else {
                        self.questions[i].answer_input = value;
                    }
                    assert(self.model().questions =~= old(self).model().questions.update(
                        i as int,
                        old(self).model().questions[i as int].edited(value@),
                    ));
                }
                Action::Idle
            },
            Message::Submit(id) => {
                let i = match self.position(&id) {
                    Some(i) => i,
                    None => {
                        return Action::Idle;
                    },
                };
                let answer = trim(self.questions[i].answer_input.as_str());
                if answer.as_str().is_empty() {
                    self.questions[i].state = CardState::Error(
                        "Please enter an answer before submitting.".to_owned(),
                    );
                    assert(self.model().questions =~= old(self).model().questions.update(
                        i as int,
                        old(self).model().questions[i as int].submitted(),
                    ));
                    return Action::Idle;
                }
                assert(self.model().questions =~= old(self).model().questions.update(
                    i as int,
                    old(self).model().questions[i as int].submitted(),
                ));
                Action::Deliver { id, slot: share(&self.questions[i].answer_tx), answer }
            },
            Message::Submitted(id, outcome) => match outcome {
                Ok(()) => {
                    self.turn(&id, CardState::Success);
                    Action::RemoveLater { id, delay_ms: CONFIRMATION_MS }
                },
                Err(error) => {
                    self.turn(&id, CardState::Error(error));
                    Action::Idle
                },
            },
            Message::Reject(id) => {
                match self.position(&id) {
                    Some(i) => {
                        let card = self.questions.remove(i);
                        assert(self.model().questions =~= old(self).model().questions.remove(i as int));
                        Action::Decline { slot: card.answer_tx }
                    },
                    None => Action::Idle,
                }
            },
            Message::Remove(id) => {
                self.remove_all(&id);
                Action::Idle
            },
        }
    }
}

} // verus!
