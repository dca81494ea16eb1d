//! The outside machinery that a question and its answer travel through: one-shot
//! channels, mutexes and shared handles.

use std::sync::{Arc, Mutex};
use tokio::sync::{mpsc, oneshot};
use vstd::prelude::*;

verus! {

/// Declares `tokio::sync::oneshot::Sender`, the half of a channel that carries one
/// value to its receiver. Nothing is claimed of a value of this type.
#[verifier::external_type_specification]
#[verifier::external_body]
#[verifier::reject_recursive_types(T)]
pub struct ExOneshotSender<T>(oneshot::Sender<T>);

/// Declares `tokio::sync::oneshot::Receiver`, the half that the asking agent waits
/// on. Nothing is claimed of a value of this type.
#[verifier::external_type_specification]
#[verifier::external_body]
#[verifier::reject_recursive_types(T)]
pub struct ExOneshotReceiver<T>(oneshot::Receiver<T>);

/// Declares `tokio::sync::oneshot::error::RecvError`, which the receiver gets when
/// the sender went away unused. Nothing is claimed of a value of this type.
#[verifier::external_type_specification]
#[verifier::external_body]
pub struct ExRecvError(oneshot::error::RecvError);

/// Declares `tokio::sync::mpsc::Receiver`, the end of the queue at which questions
/// arrive. Nothing is claimed of a value of this type.
#[verifier::external_type_specification]
#[verifier::external_body]
#[verifier::reject_recursive_types(T)]
pub struct ExMpscReceiver<T>(mpsc::Receiver<T>);

/// Declares `std::sync::Mutex`. Nothing is claimed of what a mutex holds.
#[verifier::external_type_specification]
#[verifier::external_body]
#[verifier::reject_recursive_types(T)]
pub struct ExMutex<T: ?Sized>(Mutex<T>);

/// The text that an optional string holds.
pub open spec fn text_model(text: Option<String>) -> Option<Seq<char>> {
    match text {
        Some(s) => Some(s@),
        None => None,
    }
}

/// The sending end of the channel to one agent.
pub struct AnswerSender {
    tx: oneshot::Sender<Option<String>>,
    channel: Ghost<int>,
}

/// The end of the channel at which one agent waits.
pub struct AnswerReceiver {
    rx: oneshot::Receiver<Option<String>>,
    channel: Ghost<int>,
}

/// Tells what was handed to a channel and whether the channel took it. Only `send` makes
/// one.
pub struct Receipt {
    channel: Ghost<int>,
    payload: Ghost<Option<Seq<char>>>,
    taken: bool,
}

impl AnswerSender {
    /// Which channel this is an end of.
    pub closed spec fn channel(self) -> int {
        self.channel@
    }
}

impl AnswerReceiver {
    /// Which channel this is an end of.
    pub closed spec fn channel(self) -> int {
        self.channel@
    }

    /// The receiver itself.
    pub closed spec fn receiver(self) -> oneshot::Receiver<Option<String>> {
        self.rx
    }

    /// The receiver itself, to be waited on.
    pub fn into_receiver(self) -> (rx: oneshot::Receiver<Option<String>>)
        ensures
            rx == self.receiver(),
    {
        self.rx
    }
}

impl Receipt {
    /// The channel that the value was handed to.
    pub closed spec fn channel(self) -> int {
        self.channel@
    }

    /// The value that was handed over.
    pub closed spec fn payload(self) -> Option<Seq<char>> {
        self.payload@
    }

    /// The channel took the value.
    pub closed spec fn taken(self) -> bool {
        self.taken
    }

    /// Whether the channel took the value.
    pub fn is_taken(&self) -> (yes: bool)
        ensures
            yes == self.taken(),
    {
        self.taken
    }
}

/// `tokio::sync::oneshot::channel` makes the two ends of one new channel.
#[verifier::external_body]
pub(crate) fn connect() -> (ends: (AnswerSender, AnswerReceiver))
    ensures
        ends.0.channel() == ends.1.channel(),
{
    let (tx, rx) = oneshot::channel();
    let channel: Ghost<int> = Ghost(arbitrary());
    (AnswerSender { tx, channel }, AnswerReceiver { rx, channel })
}

/// `tokio::sync::oneshot::Sender::send` is handed the payload on the sender's channel. It
/// returns `Ok`, and the receipt then says that the payload was taken, or it returns
/// `Err`, because the receiver has gone. Which of the two happens depends on the
/// receiver's side and is left open.
#[verifier::external_body]
pub(crate) fn send(sender: AnswerSender, payload: Option<String>) -> (receipt: Receipt)
    ensures
        receipt.channel() == sender.channel(),
        receipt.payload() == text_model(payload),
{
    let taken: bool = sender.tx.send(payload).is_ok();
    Receipt { channel: sender.channel, payload: Ghost(text_model(payload)), taken }
}

/// `std::sync::Arc::clone` makes another handle to the same value.
#[verifier::external_body]
pub(crate) fn share<T: ?Sized>(handle: &Arc<T>) -> (other: Arc<T>)
    ensures
        other == *handle,
{
    Arc::clone(handle)
}

} // verus!
