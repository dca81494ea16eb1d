//! How questions get from the server's queue into the window.

use crate::app::{App, Message, MessageModel, QuestionQueue};
use crate::channel::share;
use crate::mcp_server::{QuestionRequest, RequestModel};
use vstd::prelude::*;

verus! {

/// What the reader of the question queue learns.
pub enum FeedEvent {
    /// The reader starts; `queue` says whether the queue was still there to take.
    Started { queue: bool },
    /// The queue handed out a question, or ended.
    Received(Option<QuestionRequest>),
    /// The message went to the window.
    Emitted,
}

/// What the reader of the question queue does next.
pub enum FeedStep {
    /// Wait for the next question.
    Receive,
    /// Send a message to the window.
    Emit(Message),
    /// Wait for ever.
    Park,
}

/// What an event stands for.
pub enum FeedEventModel {
    Started { queue: bool },
    Received(Option<RequestModel>),
    Emitted,
}

/// What a step stands for.
pub enum FeedStepModel {
    Receive,
    Emit(MessageModel),
    Park,
}

impl View for FeedEvent {
    type V = FeedEventModel;

    open spec fn view(&self) -> FeedEventModel {
        match self {
            FeedEvent::Started { queue } => FeedEventModel::Started { queue: *queue },
            FeedEvent::Received(Some(request)) => FeedEventModel::Received(Some(request@)),
            FeedEvent::Received(None) => FeedEventModel::Received(None),
            FeedEvent::Emitted => FeedEventModel::Emitted,
        }
    }
}

impl View for FeedStep {
    type V = FeedStepModel;

    open spec fn view(&self) -> FeedStepModel {
        match self {
            FeedStep::Receive => FeedStepModel::Receive,
            FeedStep::Emit(message) => FeedStepModel::Emit(message@),
            FeedStep::Park => FeedStepModel::Park,
        }
    }
}

/// What follows an event: every question becomes a message, after which the next one is
/// waited for, and without a queue there is nothing left to wait for.
pub open spec fn step_after(event: FeedEventModel) -> FeedStepModel {
    match event {
        FeedEventModel::Started { queue: true } => FeedStepModel::Receive,
        FeedEventModel::Received(Some(request)) => FeedStepModel::Emit(
            MessageModel::NewQuestion(request),
        ),
        FeedEventModel::Emitted => FeedStepModel::Receive,
        _ => FeedStepModel::Park,
    }
}

/// What the reader of the question queue does next.
pub fn feed_step(event: FeedEvent) -> (step: FeedStep)
    ensures
        step@ == step_after(event@),
{
    match event {
        FeedEvent::Started { queue } => if queue {
            FeedStep::Receive
        } else {
            FeedStep::Park
        },
        FeedEvent::Received(Some(request)) => FeedStep::Emit(Message::NewQuestion(request)),
        FeedEvent::Received(None) => FeedStep::Park,
        FeedEvent::Emitted => FeedStep::Receive,
    }
}

impl FeedStepModel {
    /// How far a step is from parking, for a queue that ends.
    pub open spec fn rank(self) -> nat {
        match self {
            FeedStepModel::Emit(_) => 2,
            FeedStepModel::Receive => 1,
            FeedStepModel::Park => 0,
        }
    }
}

/// What the reader does from `step` on, besides waiting for questions, when the queue
/// hands out `pending` and then ends.
pub open spec fn doings(step: FeedStepModel, pending: Seq<RequestModel>) -> Seq<FeedStepModel>
    decreases pending.len(), step.rank(),
{
    match step {
        FeedStepModel::Receive => if pending.len() == 0 {
            doings(step_after(FeedEventModel::Received(None)), pending)
        } else {
            doings(
                step_after(FeedEventModel::Received(Some(pending.first()))),
                pending.drop_first(),
            )
        },
        FeedStepModel::Emit(_) => seq![step] + doings(
            step_after(FeedEventModel::Emitted),
            pending,
        ),
        FeedStepModel::Park => seq![step],
    }
}

/// The messages that announce questions, as steps of the reader.
pub open spec fn announcements(requests: Seq<RequestModel>) -> Seq<FeedStepModel> {
    requests.map_values(
        |request: RequestModel| FeedStepModel::Emit(MessageModel::NewQuestion(request)),
    )
}

proof fn lemma_reading(requests: Seq<RequestModel>)
    ensures
        doings(FeedStepModel::Receive, requests) == announcements(requests).push(
            FeedStepModel::Park,
        ),
    decreases requests.len(),
{
    reveal_with_fuel(doings, 3);
    if requests.len() == 0 {
        assert(doings(FeedStepModel::Receive, requests) =~= seq![FeedStepModel::Park]);
        assert(announcements(requests).push(FeedStepModel::Park) =~= seq![FeedStepModel::Park]);
    } else {
        let rest = requests.drop_first();
        let first = FeedStepModel::Emit(MessageModel::NewQuestion(requests.first()));
        lemma_reading(rest);
        assert(doings(FeedStepModel::Receive, requests) == seq![first] + doings(
            FeedStepModel::Receive,
            rest,
        ));
        assert(announcements(requests).push(FeedStepModel::Park) =~= seq![first]
            + announcements(rest).push(FeedStepModel::Park));
    }
}

/// No question is lost, doubled or moved: a reader that starts with the queue announces
/// every question that the queue hands out, once and in order, and then parks. A reader
/// that finds the queue taken parks at once.
pub proof fn law_every_question_is_announced(requests: Seq<RequestModel>)
    ensures
        doings(step_after(FeedEventModel::Started { queue: true }), requests) == announcements(
            requests,
        ).push(FeedStepModel::Park),
        doings(step_after(FeedEventModel::Started { queue: false }), requests)
            == seq![FeedStepModel::Park],
{
    lemma_reading(requests);
}

impl App {
    /// The queue that the window's questions come from, for its reader.
    pub fn subscription(&self) -> (queue: QuestionQueue)
        ensures
            queue == self.model().question_rx,
    {
        share(&self.question_rx)
    }
}

} // verus!
