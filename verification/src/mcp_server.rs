//! The server's side of a question: the request that goes to the window, and what
//! the asking agent is told in the end.

use crate::channel::{share, text_model};
use crate::slot::SharedSlot;
use rmcp::model::{CallToolResult, Content, ErrorData};
use tokio::sync::oneshot;
use uuid::Uuid;
use vstd::prelude::*;

verus! {

/// A question forwarded from the MCP server to the desktop window.
pub struct QuestionRequest {
    /// Identifies the question's card in the window.
    pub id: String,
    /// Question text shown on the card.
    pub question: String,
    /// Optional context shown below the question.
    pub context: Option<String>,
    /// The way back to the agent: an answer, or `None` for a refusal.
    pub answer_tx: SharedSlot,
}

/// What a request stands for.
pub struct RequestModel {
    pub id: Seq<char>,
    pub question: Seq<char>,
    pub context: Option<Seq<char>>,
    pub answer_tx: SharedSlot,
}

impl View for QuestionRequest {
    type V = RequestModel;

    open spec fn view(&self) -> RequestModel {
        RequestModel {
            id: self.id@,
            question: self.question@,
            context: text_model(self.context),
            answer_tx: self.answer_tx,
        }
    }
}

impl Clone for QuestionRequest {
    /// A copy of the texts that shares the answer slot.
    fn clone(&self) -> (copy: Self)
        ensures
            copy == *self,
    {
        QuestionRequest {
            id: self.id.clone(),
            question: self.question.clone(),
            context: self.context.clone(),
            answer_tx: share(&self.answer_tx),
        }
    }
}

/// `c` is a hexadecimal digit in lower case.
pub open spec fn is_lower_hex(c: char) -> bool {
    '0' <= c <= '9' || 'a' <= c <= 'f'
}

/// The hyphenated text of a random UUID (version 4, the variant of RFC 9562).
pub open spec fn is_v4_text(s: Seq<char>) -> bool {
    &&& s.len() == 36
    &&& forall|i: int|
        0 <= i < 36 ==> if i == 8 || i == 13 || i == 18 || i == 23 {
            #[trigger] s[i] == '-'
        } else {
            is_lower_hex(s[i])
        }
    &&& s[14] == '4'
    &&& s[19] == '8' || s[19] == '9' || s[19] == 'a' || s[19] == 'b'
}

/// `uuid::Uuid::new_v4`, written out by its `Display`, gives the hyphenated lower-case
/// text of a random UUID of version 4. Which one is left to chance; that two calls
/// differ is likely and not claimed. The call panics if the operating system has no
/// random bytes to give.
#[verifier::external_body]
fn new_id() -> (id: String)
    ensures
        is_v4_text(id@),
{
    Uuid::new_v4().to_string()
}

impl QuestionRequest {
    /// The request that puts a question under a given id.
    pub fn new(
        id: String,
        question: String,
        context: Option<String>,
        answer_tx: SharedSlot,
    ) -> (request: QuestionRequest)
        ensures
            request@ == (RequestModel {
                id: id@,
                question: question@,
                context: text_model(context),
                answer_tx,
            }),
    {
        QuestionRequest { id, question, context, answer_tx }
    }
}

/// The request that puts a question under a new id.
pub fn ask_human(question: String, context: Option<String>, answer_tx: SharedSlot) -> (request:
    QuestionRequest)
    ensures
        is_v4_text(request@.id),
        request@.question == question@,
        request@.context == text_model(context),
        request@.answer_tx == answer_tx,
{
    QuestionRequest::new(new_id(), question, context, answer_tx)
}

/// What a tool call that ran its course tells the agent.
#[derive(Debug, PartialEq, Eq)]
pub struct ToolReply {
    /// The tool reports a failure.
    pub is_error: bool,
    /// The only content of the reply.
    pub text: String,
}

/// Why a tool call broke off: an internal error of the server.
#[derive(Debug, PartialEq, Eq)]
pub struct ToolError {
    pub message: String,
}

/// What a reply stands for.
pub struct ReplyModel {
    pub is_error: bool,
    pub text: Seq<char>,
}

/// What the agent is told, with the texts: a reply, or the message of an internal error.
pub open spec fn told_model(told: Result<ToolReply, ToolError>) -> Result<ReplyModel, Seq<char>> {
    match told {
        Ok(reply) => Ok(ReplyModel { is_error: reply.is_error, text: reply.text@ }),
        Err(error) => Err(error.message@),
    }
}

/// What the agent is told when its end of the slot yields `received`: the answer, the
/// refusal, or, where the slot went away unused (`None`), an internal error.
pub open spec fn reply_model(received: Option<Option<Seq<char>>>) -> Result<ReplyModel, Seq<char>> {
    match received {
        Some(Some(answer)) => Ok(ReplyModel { is_error: false, text: answer }),
        Some(None) => Ok(
            ReplyModel { is_error: true, text: "The human operator declined to answer."@ },
        ),
        None => Err("Answer channel closed unexpectedly"@),
    }
}

/// What arrived at the agent's end of a slot, as `reply_model` takes it.
pub open spec fn received_model<E>(received: Result<Option<String>, E>) -> Option<
    Option<Seq<char>>,
> {
    match received {
        Ok(payload) => Some(text_model(payload)),
        Err(_) => None,
    }
}

/// Whether the call goes on once the question was put into the window's queue: the
/// queue takes it, or the window is gone.
pub fn queued<E>(sent: Result<(), E>) -> (outcome: Result<(), ToolError>)
    ensures
        sent is Ok ==> outcome is Ok,
        sent is Err ==> outcome is Err && outcome->Err_0.message@ == "UI unavailable"@,
{
    match sent {
        Ok(()) => Ok(()),
        Err(_) => Err(ToolError { message: "UI unavailable".to_owned() }),
    }
}

/// What the agent is told when its end of the slot yields `received`.
pub fn reply<E>(received: Result<Option<String>, E>) -> (told: Result<ToolReply, ToolError>)
    ensures
        told_model(told) == reply_model(received_model(received)),
{
    match received {
        Ok(Some(answer)) => Ok(ToolReply { is_error: false, text: answer }),
        Ok(None) => Ok(
            ToolReply {
                is_error: true,
                text: "The human operator declined to answer.".to_owned(),
            },
        ),
        Err(_) => Err(ToolError { message: "Answer channel closed unexpectedly".to_owned() }),
    }
}

/// Declares `rmcp::model::CallToolResult`, the protocol's form of a tool's reply.
#[verifier::external_type_specification]
#[verifier::external_body]
pub struct ExCallToolResult(CallToolResult);

/// Declares `rmcp::model::ErrorData`, the protocol's form of an error.
#[verifier::external_type_specification]
#[verifier::external_body]
pub struct ExErrorData(ErrorData);

/// The successful tool result whose only content is a text.
pub uninterp spec fn success_result(text: Seq<char>) -> CallToolResult;

/// The failed tool result whose only content is a text.
pub uninterp spec fn failure_result(text: Seq<char>) -> CallToolResult;

/// The internal error with a message and no data.
pub uninterp spec fn internal_error_data(message: Seq<char>) -> ErrorData;

/// `rmcp::model::CallToolResult::success` on one `Content::text`: the result that is
/// marked as no error and holds that text alone, the same for the same text.
#[verifier::external_body]
fn success(text: String) -> (result: CallToolResult)
    ensures
        result == success_result(text@),
{
    CallToolResult::success(vec![Content::text(text)])
}

/// `rmcp::model::CallToolResult::error` on one `Content::text`: the result that is
/// marked as an error and holds that text alone, the same for the same text.
#[verifier::external_body]
fn failure(text: String) -> (result: CallToolResult)
    ensures
        result == failure_result(text@),
{
    CallToolResult::error(vec![Content::text(text)])
}

/// `rmcp::model::ErrorData::internal_error` without data: the error with the code for
/// internal errors and that message, the same for the same message.
#[verifier::external_body]
fn internal_error(message: String) -> (error: ErrorData)
    ensures
        error == internal_error_data(message@),
{
    ErrorData::internal_error(message, None)
}

/// What the agent is told, in the protocol's form.
pub open spec fn protocol_model(told: Result<ReplyModel, Seq<char>>) -> Result<
    CallToolResult,
    ErrorData,
> {
    match told {
        Ok(reply) => Ok(
            if reply.is_error {
                failure_result(reply.text)
            } else {
                success_result(reply.text)
            },
        ),
        Err(message) => Err(internal_error_data(message)),
    }
}

/// Puts what the agent is told into the protocol's form.
pub fn protocol_result(told: Result<ToolReply, ToolError>) -> (result: Result<
    CallToolResult,
    ErrorData,
>)
    ensures
        result == protocol_model(told_model(told)),
{
    match told {
        Ok(reply) => Ok(
            if reply.is_error {
                failure(reply.text)
            } else {
                success(reply.text)
            },
        ),
        Err(error) => Err(internal_error(error.message)),
    }
}

/// Whether the tool call goes on once the question was put into the window's queue, in
/// the protocol's form.
pub fn enqueue_result<E>(sent: Result<(), E>) -> (result: Result<(), ErrorData>)
    ensures
        sent is Ok ==> result is Ok,
        sent is Err ==> result == Err::<(), ErrorData>(internal_error_data("UI unavailable"@)),
{
    match queued(sent) {
        Ok(()) => Ok(()),
        Err(error) => Err(internal_error(error.message)),
    }
}

/// The result of the tool call once the agent's end of the slot yields `received`.
pub fn call_result(received: Result<Option<String>, oneshot::error::RecvError>) -> (result: Result<
    CallToolResult,
    ErrorData,
>)
    ensures
        result == protocol_model(reply_model(received_model(received))),
{
    protocol_result(reply(received))
}

/// How the server introduces itself to a client.
#[derive(Debug, PartialEq, Eq)]
pub struct ServerDescription {
    /// The protocol version that is announced.
    pub protocol_version: String,
    /// The server offers tools, and nothing else.
    pub tools: bool,
    pub name: String,
    pub version: String,
    pub instructions: String,
}

/// The introduction of the server that goes by `name` in release `version`.
pub fn get_info(name: &str, version: &str) -> (info: ServerDescription)
    ensures
        info.protocol_version@ == "2025-03-26"@,
        info.tools,
        info.name@ == name@,
        info.version@ == version@,
        info.instructions@ == "Ask the human operator a question and wait for their reply."@,
{
    ServerDescription {
        protocol_version: "2025-03-26".to_owned(),
        tools: true,
        name: name.to_owned(),
        version: version.to_owned(),
        instructions: "Ask the human operator a question and wait for their reply.".to_owned(),
    }
}

} // verus!
