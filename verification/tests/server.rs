use ask_human::mcp_server::{
    ask_human, call_result, enqueue_result, get_info, protocol_result, queued, reply,
    QuestionRequest, ToolError, ToolReply,
};
use ask_human::slot::{delivery_outcome, AnswerSlot};
use rmcp::model::ErrorCode;
use std::sync::{Arc, Mutex};

#[test]
fn an_answer_reaches_the_agent() {
    let (mut slot, rx) = AnswerSlot::open();
    assert_eq!(slot.answer("yes".to_string()), Ok(()));
    assert_eq!(rx.into_receiver().blocking_recv().unwrap(), Some("yes".to_string()));
}

#[test]
fn a_refusal_reaches_the_agent() {
    let (mut slot, rx) = AnswerSlot::open();
    slot.decline();
    assert_eq!(rx.into_receiver().blocking_recv().unwrap(), None);
}

#[test]
fn only_the_first_answer_counts() {
    let (mut slot, rx) = AnswerSlot::open();
    assert_eq!(slot.answer("first".to_string()), Ok(()));
    assert_eq!(slot.answer("second".to_string()), Err("Already answered".to_string()));
    slot.decline();
    assert_eq!(rx.into_receiver().blocking_recv().unwrap(), Some("first".to_string()));
}

#[test]
fn a_declined_question_takes_no_answer() {
    let (mut slot, rx) = AnswerSlot::open();
    slot.decline();
    assert_eq!(slot.answer("late".to_string()), Err("Already answered".to_string()));
    assert_eq!(rx.into_receiver().blocking_recv().unwrap(), None);
}

#[test]
fn an_agent_that_left_closes_the_channel() {
    let (mut slot, rx) = AnswerSlot::open();
    drop(rx);
    assert_eq!(slot.answer("yes".to_string()), Err("Channel closed".to_string()));
    assert_eq!(slot.answer("yes".to_string()), Err("Already answered".to_string()));
}

#[test]
fn a_slot_that_goes_away_ends_the_wait() {
    let (slot, rx) = AnswerSlot::open();
    drop(slot);
    assert!(rx.into_receiver().blocking_recv().is_err());
}

#[test]
fn delivery_outcomes_are_named() {
    assert_eq!(delivery_outcome(Some(Ok::<(), ()>(()))), Ok(()));
    assert_eq!(delivery_outcome(Some(Err::<(), ()>(()))), Err("Channel closed".to_string()));
    assert_eq!(delivery_outcome(None::<Result<(), ()>>), Err("Already answered".to_string()));
}

#[test]
fn a_question_gets_a_random_uuid() {
    let (slot, _rx) = AnswerSlot::open();
    let slot = Arc::new(Mutex::new(slot));
    let request = ask_human("Deploy?".to_string(), Some("staging".to_string()), slot.clone());
    assert_eq!(request.question, "Deploy?");
    assert_eq!(request.context, Some("staging".to_string()));
    assert!(Arc::ptr_eq(&request.answer_tx, &slot));
    let id = uuid::Uuid::parse_str(&request.id).unwrap();
    assert_eq!(id.get_version_num(), 4);
    assert_eq!(id.get_variant(), uuid::Variant::RFC4122);
    assert_eq!(id.to_string(), request.id);
    let other = ask_human("Deploy?".to_string(), None, slot);
    assert_ne!(request.id, other.id);
}

#[test]
fn a_copied_request_shares_the_slot() {
    let (slot, rx) = AnswerSlot::open();
    let request = QuestionRequest::new(
        "q1".to_string(),
        "Deploy?".to_string(),
        None,
        Arc::new(Mutex::new(slot)),
    );
    let copy = request.clone();
    assert_eq!(copy.id, "q1");
    assert_eq!(copy.question, "Deploy?");
    assert_eq!(copy.context, None);
    assert!(Arc::ptr_eq(&request.answer_tx, &copy.answer_tx));
    assert_eq!(copy.answer_tx.lock().unwrap().answer("a".to_string()), Ok(()));
    let again = request.answer_tx.lock().unwrap().answer("b".to_string());
    assert_eq!(again, Err("Already answered".to_string()));
    assert_eq!(rx.into_receiver().blocking_recv().unwrap(), Some("a".to_string()));
}

#[test]
fn replies_follow_what_arrives() {
    assert_eq!(
        reply(Ok::<_, ()>(Some("yes".to_string()))),
        Ok(ToolReply { is_error: false, text: "yes".to_string() })
    );
    assert_eq!(
        reply(Ok::<_, ()>(None)),
        Ok(ToolReply {
            is_error: true,
            text: "The human operator declined to answer.".to_string()
        })
    );
    assert_eq!(
        reply(Err::<Option<String>, ()>(())),
        Err(ToolError { message: "Answer channel closed unexpectedly".to_string() })
    );
}

#[test]
fn a_window_that_is_gone_is_reported() {
    assert_eq!(queued(Ok::<(), ()>(())), Ok(()));
    assert_eq!(queued(Err::<(), ()>(())), Err(ToolError { message: "UI unavailable".to_string() }));
    assert!(enqueue_result(Ok::<(), ()>(())).is_ok());
    let error = enqueue_result(Err::<(), ()>(())).unwrap_err();
    assert_eq!(error.code, ErrorCode::INTERNAL_ERROR);
    assert_eq!(error.message, "UI unavailable");
    assert!(error.data.is_none());
}

#[test]
fn an_answer_is_a_successful_tool_result() {
    let (mut slot, rx) = AnswerSlot::open();
    assert_eq!(slot.answer("yes".to_string()), Ok(()));
    let result = call_result(rx.into_receiver().blocking_recv()).unwrap();
    assert_eq!(result.is_error, Some(false));
    assert_eq!(result.content.len(), 1);
    assert_eq!(result.content[0].as_text().unwrap().text, "yes");
    assert!(result.structured_content.is_none());
}

#[test]
fn a_refusal_is_a_failed_tool_result() {
    let (mut slot, rx) = AnswerSlot::open();
    slot.decline();
    let result = call_result(rx.into_receiver().blocking_recv()).unwrap();
    assert_eq!(result.is_error, Some(true));
    assert_eq!(result.content.len(), 1);
    assert_eq!(
        result.content[0].as_text().unwrap().text,
        "The human operator declined to answer."
    );
}

#[test]
fn a_lost_slot_is_an_internal_error() {
    let (slot, rx) = AnswerSlot::open();
    drop(slot);
    let error = call_result(rx.into_receiver().blocking_recv()).unwrap_err();
    assert_eq!(error.code, ErrorCode::INTERNAL_ERROR);
    assert_eq!(error.message, "Answer channel closed unexpectedly");
    assert!(error.data.is_none());
}

#[test]
fn replies_are_put_into_the_protocol() {
    let told = Ok(ToolReply { is_error: true, text: "no".to_string() });
    let result = protocol_result(told).unwrap();
    assert_eq!(result.is_error, Some(true));
    assert_eq!(result.content[0].as_text().unwrap().text, "no");
    let error = protocol_result(Err(ToolError { message: "broken".to_string() })).unwrap_err();
    assert_eq!(error.message, "broken");
}

#[test]
fn the_server_introduces_itself() {
    let info = get_info("ask-human", "0.1.0");
    assert_eq!(info.protocol_version, "2025-03-26");
    assert!(info.tools);
    assert_eq!(info.name, "ask-human");
    assert_eq!(info.version, "0.1.0");
    assert_eq!(info.instructions, "Ask the human operator a question and wait for their reply.");
}

#[test]
fn all_copies_of_a_request_answer_once() {
    let (slot, rx) = AnswerSlot::open();
    let request = QuestionRequest::new(
        "q1".to_string(),
        "Deploy?".to_string(),
        None,
        Arc::new(Mutex::new(slot)),
    );
    let first = request.clone();
    let second = first.clone();
    drop(request);
    assert_eq!(second.answer_tx.lock().unwrap().answer("yes".to_string()), Ok(()));
    let again = first.answer_tx.lock().unwrap().answer("no".to_string());
    assert_eq!(again, Err("Already answered".to_string()));
    first.answer_tx.lock().unwrap().decline();
    assert_eq!(rx.into_receiver().blocking_recv().unwrap(), Some("yes".to_string()));
}
