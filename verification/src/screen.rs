//! What the window shows: every text, what can be pressed, and which message that
//! sends.

use crate::app::{App, AppModel, CardModel, CardState, Message, MessageModel, QuestionCard, StateModel};
use crate::endpoint::{endpoint_url, url_model};
use vstd::prelude::*;
use vstd::string::*;

verus! {

/// The colours in use, by what they are used for.
#[derive(Debug, Clone, Copy, PartialEq, Eq, Structural)]
pub enum Tone {
    /// The colour of ordinary text.
    Plain,
    /// The endpoint in the empty window.
    Hint,
    /// The endpoint in the status bar.
    Status,
    /// The context of a question.
    Context,
    /// An error tip.
    Failure,
    /// A confirmed answer, and the border of its card.
    Success,
    /// The border of a card with an error tip.
    FailureBorder,
    /// The border of any other card.
    IdleBorder,
}

/// A text on display.
#[derive(Debug)]
pub struct Label {
    pub text: String,
    pub size: u16,
    pub tone: Tone,
}

/// A button with a text; without a message it cannot be pressed.
pub struct CloseButton {
    pub label: Label,
    pub on_press: Option<Message>,
}

/// The part of a card in which the answer is typed.
pub struct AnswerForm {
    /// The card that the form belongs to.
    pub id: String,
    pub context: Option<Label>,
    pub error: Option<Label>,
    pub placeholder: String,
    pub value: String,
    pub submit: String,
}

/// The part of a card below its question.
pub enum CardBody {
    /// The answer went out.
    Confirmation(Label),
    /// The answer is still to be given.
    Form(AnswerForm),
}

/// A card on display.
pub struct CardView {
    pub question: Label,
    pub close: CloseButton,
    pub body: CardBody,
    pub border: Tone,
}

/// The part of the window above the status bar.
pub enum Content {
    /// No question is open.
    Waiting { heading: Label, notice: Label, endpoint: Label },
    /// The open questions, in order of arrival.
    Cards(Vec<CardView>),
}

/// The window on display.
pub struct Screen {
    pub content: Content,
    pub status: Label,
}

/// What a label stands for.
pub struct LabelModel {
    pub text: Seq<char>,
    pub size: u16,
    pub tone: Tone,
}

/// What an answer form stands for.
pub struct FormModel {
    pub id: Seq<char>,
    pub context: Option<LabelModel>,
    pub error: Option<LabelModel>,
    pub placeholder: Seq<char>,
    pub value: Seq<char>,
    pub submit: Seq<char>,
}

/// One part of an answer form.
pub enum FormPart {
    /// The context of the question.
    Context(Label),
    /// The error tip.
    Error(Label),
    /// The answer box.
    Input { placeholder: String, value: String },
    /// The submit button.
    Submit(String),
}

/// What a part of an answer form stands for.
pub enum FormPartModel {
    Context(LabelModel),
    Error(LabelModel),
    Input { placeholder: Seq<char>, value: Seq<char> },
    Submit(Seq<char>),
}

/// What the part of a card below its question stands for.
pub enum BodyModel {
    Confirmation(LabelModel),
    Form(FormModel),
}

/// What a card on display stands for.
pub struct CardViewModel {
    pub question: LabelModel,
    pub close: LabelModel,
    pub on_close: Option<MessageModel>,
    pub body: BodyModel,
    pub border: Tone,
}

/// What the part of the window above the status bar stands for.
pub enum ContentModel {
    Waiting { heading: LabelModel, notice: LabelModel, endpoint: LabelModel },
    Cards(Seq<CardViewModel>),
}

/// What the window on display stands for.
pub struct ScreenModel {
    pub content: ContentModel,
    pub status: LabelModel,
}

impl View for Label {
    type V = LabelModel;

    open spec fn view(&self) -> LabelModel {
        LabelModel { text: self.text@, size: self.size, tone: self.tone }
    }
}

/// The label that an optional label stands for.
pub open spec fn optional_label(label: Option<Label>) -> Option<LabelModel> {
    match label {
        Some(label) => Some(label@),
        None => None,
    }
}

/// The message that an optional message stands for.
pub open spec fn optional_message(message: Option<Message>) -> Option<MessageModel> {
    match message {
        Some(message) => Some(message@),
        None => None,
    }
}

impl View for AnswerForm {
    type V = FormModel;

    open spec fn view(&self) -> FormModel {
        FormModel {
            id: self.id@,
            context: optional_label(self.context),
            error: optional_label(self.error),
            placeholder: self.placeholder@,
            value: self.value@,
            submit: self.submit@,
        }
    }
}

impl View for FormPart {
    type V = FormPartModel;

    open spec fn view(&self) -> FormPartModel {
        match self {
            FormPart::Context(label) => FormPartModel::Context(label@),
            FormPart::Error(label) => FormPartModel::Error(label@),
            FormPart::Input { placeholder, value } => FormPartModel::Input {
                placeholder: placeholder@,
                value: value@,
            },
            FormPart::Submit(text) => FormPartModel::Submit(text@),
        }
    }
}

/// What a list of form parts stands for.
pub open spec fn part_models(parts: Seq<FormPart>) -> Seq<FormPartModel> {
    parts.map_values(|part: FormPart| part@)
}

impl View for CardBody {
    type V = BodyModel;

    open spec fn view(&self) -> BodyModel {
        match self {
            CardBody::Confirmation(label) => BodyModel::Confirmation(label@),
            CardBody::Form(form) => BodyModel::Form(form@),
        }
    }
}

impl View for CardView {
    type V = CardViewModel;

    open spec fn view(&self) -> CardViewModel {
        CardViewModel {
            question: self.question@,
            close: self.close.label@,
            on_close: optional_message(self.close.on_press),
            body: self.body@,
            border: self.border,
        }
    }
}

impl View for Content {
    type V = ContentModel;

    open spec fn view(&self) -> ContentModel {
        match self {
            Content::Waiting { heading, notice, endpoint } => ContentModel::Waiting {
                heading: heading@,
                notice: notice@,
                endpoint: endpoint@,
            },
            Content::Cards(cards) => ContentModel::Cards(
                cards@.map_values(|card: CardView| card@),
            ),
        }
    }
}

impl View for Screen {
    type V = ScreenModel;

    open spec fn view(&self) -> ScreenModel {
        ScreenModel { content: self.content@, status: self.status@ }
    }
}

/// The line that tells where the server listens.
pub open spec fn endpoint_line(port: u16) -> Seq<char> {
    "MCP endpoint:  "@ + url_model(port)
}

/// The border of a card in a given state.
pub open spec fn border_of(state: StateModel) -> Tone {
    match state {
        StateModel::Active => Tone::IdleBorder,
        StateModel::Success => Tone::Success,
        StateModel::Error(_) => Tone::FailureBorder,
    }
}

/// The error tip of a card in a given state.
pub open spec fn tip_of(state: StateModel) -> Option<LabelModel> {
    match state {
        StateModel::Error(text) => Some(LabelModel { text, size: 12, tone: Tone::Failure }),
        _ => None,
    }
}

/// The form of a card that is not confirmed.
pub open spec fn form_of(card: CardModel) -> FormModel {
    FormModel {
        id: card.id,
        context: match card.context {
            Some(text) => Some(LabelModel { text, size: 12, tone: Tone::Context }),
            None => None,
        },
        error: tip_of(card.state),
        placeholder: "Type your answer here…"@,
        value: card.answer_input,
        submit: "Submit Answer"@,
    }
}

/// The parts of a form from top to bottom: the context and the error tip, where there is
/// one, then the answer box and the submit button.
pub open spec fn parts_of(form: FormModel) -> Seq<FormPartModel> {
    let context = match form.context {
        Some(label) => seq![FormPartModel::Context(label)],
        None => Seq::empty(),
    };
    let error = match form.error {
        Some(label) => seq![FormPartModel::Error(label)],
        None => Seq::empty(),
    };
    context + error + seq![
        FormPartModel::Input { placeholder: form.placeholder, value: form.value },
        FormPartModel::Submit(form.submit),
    ]
}

/// How a card is shown. Every card has a close button; a confirmed card's cannot be
/// pressed, and shows a confirmation in place of the form.
pub open spec fn shown_card(card: CardModel) -> CardViewModel {
    CardViewModel {
        question: LabelModel { text: card.question, size: 15, tone: Tone::Plain },
        close: LabelModel { text: "✕"@, size: 13, tone: Tone::Plain },
        on_close: if card.state is Success {
            None
        } else {
            Some(MessageModel::Reject(card.id))
        },
        body: if card.state is Success {
            BodyModel::Confirmation(
                LabelModel {
                    text: "✓  Answer submitted successfully!"@,
                    size: 14,
                    tone: Tone::Success,
                },
            )
        } else {
            BodyModel::Form(form_of(card))
        },
        border: border_of(card.state),
    }
}

/// How the cards are shown: all of them, in order.
pub open spec fn shown_cards(cards: Seq<CardModel>) -> Seq<CardViewModel> {
    cards.map_values(|card: CardModel| shown_card(card))
}

/// How the window is shown.
pub open spec fn shown(app: AppModel) -> ScreenModel {
    ScreenModel {
        content: if app.questions.len() == 0 {
            ContentModel::Waiting {
                heading: LabelModel { text: "AskHuman"@, size: 28, tone: Tone::Plain },
                notice: LabelModel {
                    text: "Waiting for questions from AI agents…"@,
                    size: 15,
                    tone: Tone::Plain,
                },
                endpoint: LabelModel {
                    text: endpoint_line(app.port),
                    size: 12,
                    tone: Tone::Hint,
                },
            }
        } else {
            ContentModel::Cards(shown_cards(app.questions))
        },
        status: LabelModel { text: endpoint_line(app.port), size: 11, tone: Tone::Status },
    }
}

/// A label in a given size and colour.
fn label(text: String, size: u16, tone: Tone) -> (label: Label)
    ensures
        label@ == (LabelModel { text: text@, size, tone }),
{
    Label { text, size, tone }
}

/// The line that tells where the server listens.
fn endpoint_text(port: u16) -> (text: String)
    ensures
        text@ == endpoint_line(port),
{
    let mut text = "MCP endpoint:  ".to_owned();
    text.append(endpoint_url(port).as_str());
    text
}

/// The form of a card that is not confirmed.
fn view_form(card: &QuestionCard) -> (form: AnswerForm)
    ensures
        form@ == form_of(card@),
{
    AnswerForm {
        id: card.id.clone(),
        context: match &card.context {
            Some(text) => Some(label(text.clone(), 12, Tone::Context)),
            None => None,
        },
        error: match &card.state {
            CardState::Error(text) => Some(label(text.clone(), 12, Tone::Failure)),
            _ => None,
        },
        placeholder: "Type your answer here…".to_owned(),
        value: card.answer_input.clone(),
        submit: "Submit Answer".to_owned(),
    }
}

/// How a card is shown.
pub fn view_card(card: &QuestionCard) -> (shown: CardView)
    ensures
        shown@ == shown_card(card@),
{
    let question = label(card.question.clone(), 15, Tone::Plain);
    let close_label = label("✕".to_owned(), 13, Tone::Plain);
    if let CardState::Success = card.state {
        CardView {
            question,
            close: CloseButton { label: close_label, on_press: None },
            body: CardBody::Confirmation(
                label("✓  Answer submitted successfully!".to_owned(), 14, Tone::Success),
            ),
            border: Tone::Success,
        }
    } else {
        CardView {
            question,
            close: CloseButton {
                label: close_label,
                on_press: Some(Message::Reject(card.id.clone())),
            },
            body: CardBody::Form(view_form(card)),
            border: if let CardState::Error(_) = card.state {
                Tone::FailureBorder
            } else {
                Tone::IdleBorder
            },
        }
    }
}

impl Label {
    /// The same label once more.
    fn copy(&self) -> (label: Label)
        ensures
            label@ == self@,
    {
        Label { text: self.text.clone(), size: self.size, tone: self.tone }
    }
}

impl AnswerForm {
    /// The parts of the form from top to bottom.
    pub fn parts(&self) -> (parts: Vec<FormPart>)
        ensures
            part_models(parts@) == parts_of(self@),
    {
        let mut parts: Vec<FormPart> = Vec::new();
        if let Some(label) = &self.context {
            parts.push(FormPart::Context(label.copy()));
        }
        if let Some(label) = &self.error {
            parts.push(FormPart::Error(label.copy()));
        }
        parts.push(
            FormPart::Input { placeholder: self.placeholder.clone(), value: self.value.clone() },
        );
        parts.push(FormPart::Submit(self.submit.clone()));
        assert(part_models(parts@) =~= parts_of(self@));
        parts
    }

    /// The message that typing sends.
    pub fn on_input(&self, value: String) -> (message: Message)
        ensures
            message@ == MessageModel::AnswerChanged(self@.id, value@),
    {
        Message::AnswerChanged(self.id.clone(), value)
    }

    /// The message that the submit button and the Enter key send.
    pub fn on_submit(&self) -> (message: Message)
        ensures
            message@ == MessageModel::Submit(self@.id),
    {
        Message::Submit(self.id.clone())
    }
}

impl App {
    /// How the window is shown.
    pub fn view(&self) -> (screen: Screen)
        ensures
            screen@ == shown(self.model()),
    {
        let status = label(endpoint_text(self.port), 11, Tone::Status);
        if self.questions.len() == 0 {
            return Screen {
                content: Content::Waiting {
                    heading: label("AskHuman".to_owned(), 28, Tone::Plain),
                    notice: label(
                        "Waiting for questions from AI agents…".to_owned(),
                        15,
                        Tone::Plain,
                    ),
                    endpoint: label(endpoint_text(self.port), 12, Tone::Hint),
                },
                status,
            };
        }
        let mut cards: Vec<CardView> = Vec::new();
        let mut i: usize = 0;
        while i < self.questions.len()
            invariant
                i <= self.questions@.len(),
                cards@.len() == i,
                forall|j: int| 0 <= j < i ==> (#[trigger] cards@[j])@ == shown_card(
                    self.questions@[j]@,
                ),
            decreases self.questions@.len() - i,
        {
            cards.push(view_card(&self.questions[i]));
            i = i + 1;
        }
        assert(cards@.map_values(|card: CardView| card@) =~= shown_cards(self.model().questions));
        Screen { content: Content::Cards(cards), status }
    }
}

} // verus!
