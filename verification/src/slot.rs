//! The answer slot of one question: the sending half of a one-shot channel, which
//! is given up on first use, so that an agent hears at most one answer.

use crate::channel::{connect, send, text_model, AnswerReceiver, AnswerSender, Receipt};
use std::sync::{Arc, Mutex};
use vstd::prelude::*;

verus! {

/// A result whose error is a message, with the text of that message.
pub open spec fn outcome_model(outcome: Result<(), String>) -> Result<(), Seq<char>> {
    match outcome {
        Ok(()) => Ok(()),
        Err(message) => Err(message@),
    }
}

/// The way back to the agent that asked one question. The channel's number is kept for
/// the proofs alone.
pub struct AnswerSlot {
    sender: Option<AnswerSender>,
    receipt: Option<Receipt>,
    channel: Ghost<int>,
}

/// A slot as the server, a card and a pending submission hold it together.
pub type SharedSlot = Arc<Mutex<AnswerSlot>>;

/// What a slot stands for. A refusal to answer is the payload `None`.
pub struct SlotModel {
    /// The channel that the slot leads to.
    pub channel: int,
    /// The slot still has its sender.
    pub open: bool,
    /// What was handed to the channel.
    pub handed: Option<Option<Seq<char>>>,
    /// What the channel took.
    pub accepted: Option<Option<Seq<char>>>,
}

impl SlotModel {
    /// Nothing was handed over while the slot is open, and the channel took what was handed
    /// over or nothing.
    pub open spec fn wf(self) -> bool {
        &&& self.open ==> self.handed is None
        &&& self.accepted is Some ==> self.accepted == self.handed
    }
}

/// A slot that was not used yet.
pub open spec fn unused(channel: int) -> SlotModel {
    SlotModel { channel, open: true, handed: None, accepted: None }
}

impl View for AnswerSlot {
    type V = SlotModel;

    closed spec fn view(&self) -> SlotModel {
        SlotModel {
            channel: self.channel@,
            open: self.sender is Some,
            handed: match self.receipt {
                Some(receipt) => Some(receipt.payload()),
                None => None,
            },
            accepted: match self.receipt {
                Some(receipt) => if receipt.taken() {
                    Some(receipt.payload())
                } else {
                    None
                },
                None => None,
            },
        }
    }
}

/// How sending `payload` through a slot turns out. An open slot closes, the payload is
/// handed to its channel, and the channel takes it or was closed at the other end. A
/// closed slot stays as it is.
pub open spec fn attempted(
    before: SlotModel,
    payload: Option<Seq<char>>,
    outcome: Result<(), Seq<char>>,
    after: SlotModel,
) -> bool {
    if before.open {
        &&& after.channel == before.channel
        &&& !after.open
        &&& after.handed == Some(payload)
        &&& match outcome {
            Ok(()) => after.accepted == Some(payload),
            Err(message) => message == "Channel closed"@ && after.accepted is None,
        }
    } else {
        outcome == Err::<(), Seq<char>>("Already answered"@) && after == before
    }
}

/// How telling the agent of a refusal turns out: as sending the payload `None` does,
/// whatever comes of it.
pub open spec fn declined(before: SlotModel, after: SlotModel) -> bool {
    if before.open {
        &&& after.channel == before.channel
        &&& !after.open
        &&& after.handed == Some(None::<Seq<char>>)
        &&& after.accepted is Some ==> after.accepted == after.handed
    } else {
        after == before
    }
}

/// What the operator is told of a submission: `None` where the slot held no sender,
/// else what became of the sending.
pub fn delivery_outcome<R, B>(sent: Option<Result<R, B>>) -> (outcome: Result<(), String>)
    ensures
        outcome_model(outcome) == (match sent {
            Some(Ok(_)) => Ok::<(), Seq<char>>(()),
            Some(Err(_)) => Err("Channel closed"@),
            None => Err("Already answered"@),
        }),
{
    match sent {
        Some(Ok(_)) => Ok(()),
        Some(Err(_)) => Err("Channel closed".to_owned()),
        None => Err("Already answered".to_owned()),
    }
}

impl AnswerSlot {
    /// The slot's sender leads to the slot's channel, and so did what was handed over. A slot
    /// that still has its sender has handed nothing over.
    #[verifier::type_invariant]
    spec fn inv(self) -> bool {
        &&& self.sender is Some ==> self.sender->0.channel() == self.channel@
        &&& self.receipt is Some ==> self.receipt->0.channel() == self.channel@
        &&& self.sender is Some ==> self.receipt is None
    }

    /// Opens a channel: the slot to answer through, and the end to wait at.
    pub fn open() -> (ends: (AnswerSlot, AnswerReceiver))
        ensures
            ends.0@ == unused(ends.1.channel()),
    {
        let (sender, receiver) = connect();
        let channel: Ghost<int> = Ghost(sender.channel());
        (AnswerSlot { sender: Some(sender), receipt: None, channel }, receiver)
    }

    /// Sends an answer to the agent, or a refusal where `payload` is `None`. The sender
    /// is used up whatever comes of it.
    fn attempt(&mut self, payload: Option<String>) -> (outcome: Result<(), String>)
        ensures
            attempted(old(self)@, text_model(payload), outcome_model(outcome), final(self)@),
            old(self)@.wf(),
            final(self)@.wf(),
    {
        proof {
            use_type_invariant(&*self);
        }
        let mut sender: Option<AnswerSender> = None;
        std::mem::swap(&mut sender, &mut self.sender);
        let sent = match sender {
            Some(sender) => {
                let receipt = send(sender, payload);
                let taken = receipt.is_taken();
                self.receipt = Some(receipt);
                Some(
                    if taken {
                        Ok(())
                    } else {
                        Err(())
                    },
                )
            },
            None => None,
        };
        delivery_outcome(sent)
    }

    /// Sends the operator's answer to the agent.
    pub fn answer(&mut self, text: String) -> (outcome: Result<(), String>)
        ensures
            attempted(old(self)@, Some(text@), outcome_model(outcome), final(self)@),
            old(self)@.wf(),
            final(self)@.wf(),
    {
        self.attempt(Some(text))
    }

    /// Tells the agent that the operator declined, if the agent was not answered yet.
    pub fn decline(&mut self)
        ensures
            declined(old(self)@, final(self)@),
            old(self)@.wf(),
            final(self)@.wf(),
    {
        let _ = self.attempt(None);
    }
}

/// A slot stands for what it holds: it is open while it has its sender, and the receipt of
/// its one use tells what was handed over and whether the channel took it.
proof fn law_slots_stand_for_what_they_hold(slot: AnswerSlot)
    ensures
        slot@.channel == slot.channel@,
        slot@.open <==> slot.sender is Some,
        slot@.handed is Some <==> slot.receipt is Some,
        slot.receipt is Some ==> slot@.handed->0 == slot.receipt->0.payload(),
        slot@.accepted is Some <==> slot.receipt is Some && slot.receipt->0.taken(),
        slot@.accepted is Some ==> slot@.accepted->0 == slot.receipt->0.payload(),
{
}

/// The slot goes through `states` as it is tried with one payload after the other.
pub open spec fn tried(
    states: Seq<SlotModel>,
    payloads: Seq<Option<Seq<char>>>,
    outcomes: Seq<Result<(), Seq<char>>>,
) -> bool {
    &&& states.len() == payloads.len() + 1
    &&& outcomes.len() == payloads.len()
    &&& forall|i: int|
        #![trigger outcomes[i]]
        0 <= i < outcomes.len() ==> attempted(
            states[i],
            payloads[i],
            outcomes[i],
            states[i + 1],
        )
}

/// An agent hears at most one answer: however often a slot is tried, with answers or with
/// refusals, every try after the first is told so and changes nothing.
pub proof fn law_one_answer(
    states: Seq<SlotModel>,
    payloads: Seq<Option<Seq<char>>>,
    outcomes: Seq<Result<(), Seq<char>>>,
    i: int,
)
    requires
        tried(states, payloads, outcomes),
        0 < i < outcomes.len(),
    ensures
        outcomes[i] == Err::<(), Seq<char>>("Already answered"@),
        states[i + 1] == states[1],
    decreases i,
{
    assert(attempted(states[0], payloads[0], outcomes[0], states[1]));
    if i > 1 {
        law_one_answer(states, payloads, outcomes, i - 1);
    }
    assert(attempted(states[i], payloads[i], outcomes[i], states[i + 1]));
}

/// Answering or declining keeps a slot sound, and leaves it closed. What was handed over
/// stays, and from a new slot on, the first try hands something over.
pub proof fn law_slots_stay_sound(
    before: SlotModel,
    payload: Option<Seq<char>>,
    outcome: Result<(), Seq<char>>,
    after: SlotModel,
)
    requires
        attempted(before, payload, outcome, after) || declined(before, after),
        before.wf(),
    ensures
        after.wf(),
        !after.open,
        after.channel == before.channel,
        before.handed is Some ==> after == before,
        before.open || before.handed is Some ==> after.handed is Some,
{
}

/// Declining is sending a refusal, whatever comes of it.
pub proof fn law_declining_sends_a_refusal(before: SlotModel, after: SlotModel)
    ensures
        declined(before, after) <==> exists|outcome: Result<(), Seq<char>>|
            attempted(before, None, outcome, after),
{
    if declined(before, after) {
        let outcome: Result<(), Seq<char>> = if !before.open {
            Err("Already answered"@)
        } else if after.accepted is Some {
            Ok(())
        } else {
            Err("Channel closed"@)
        };
        assert(attempted(before, None, outcome, after));
    }
}

} // verus!
