use ask_human::app::{deliver, due, Action, App, CardState, Flags, Message, QuestionQueue};
use ask_human::channel::AnswerReceiver;
use ask_human::feed::{feed_step, FeedEvent, FeedStep};
use ask_human::mcp_server::{ask_human, call_result, QuestionRequest};
use ask_human::screen::{AnswerForm, CardBody, CardView, Content, FormPart, Tone};
use ask_human::slot::AnswerSlot;
use std::sync::{Arc, Mutex};

fn window() -> App {
    let queue: QuestionQueue = Arc::new(Mutex::new(None));
    App::new(Flags { question_rx: queue, port: 3000 })
}

fn request(id: &str, question: &str) -> (QuestionRequest, AnswerReceiver) {
    let (slot, rx) = AnswerSlot::open();
    let slot = Arc::new(Mutex::new(slot));
    (QuestionRequest::new(id.to_string(), question.to_string(), None, slot), rx)
}

fn ask(app: &mut App, id: &str, question: &str) -> AnswerReceiver {
    let (request, rx) = request(id, question);
    assert!(matches!(app.update(Message::NewQuestion(request)), Action::Idle));
    rx
}

fn type_in(app: &mut App, id: &str, value: &str) {
    let action = app.update(Message::AnswerChanged(id.to_string(), value.to_string()));
    assert!(matches!(action, Action::Idle));
}

fn ids(app: &App) -> Vec<&str> {
    app.questions.iter().map(|card| card.id.as_str()).collect()
}

fn cards(app: &App) -> Vec<CardView> {
    match app.view().content {
        Content::Cards(cards) => cards,
        Content::Waiting { .. } => panic!("no cards on display"),
    }
}

fn form(card: CardView) -> AnswerForm {
    match card.body {
        CardBody::Form(form) => form,
        CardBody::Confirmation(_) => panic!("no form on display"),
    }
}

/// Does what the window asks for, as far as slots go, and feeds the outcome back.
fn perform(app: &mut App, action: Action) -> Action {
    match action {
        Action::Deliver { id, slot, answer } => {
            let message = deliver(id, &mut slot.lock().unwrap(), answer);
            app.update(message)
        }
        Action::Decline { slot } => {
            slot.lock().unwrap().decline();
            Action::Idle
        }
        other => other,
    }
}

#[test]
fn the_title_names_the_port() {
    assert_eq!(window().title(), "AskHuman  —  MCP on :3000");
}

#[test]
fn the_empty_window_waits() {
    let screen = window().view();
    match screen.content {
        Content::Waiting { heading, notice, endpoint } => {
            assert_eq!((heading.text.as_str(), heading.size), ("AskHuman", 28));
            assert_eq!(
                (notice.text.as_str(), notice.size),
                ("Waiting for questions from AI agents…", 15)
            );
            assert_eq!(
                (endpoint.text.as_str(), endpoint.size, endpoint.tone),
                ("MCP endpoint:  http://127.0.0.1:3000/mcp", 12, Tone::Hint)
            );
        }
        Content::Cards(_) => panic!("cards in an empty window"),
    }
}

#[test]
fn the_status_bar_always_shows_the_endpoint() {
    let mut app = window();
    let _rx = ask(&mut app, "a", "A?");
    for message in [
        Message::Submit("a".to_string()),
        Message::Submitted("a".to_string(), Ok(())),
        Message::Remove("a".to_string()),
        Message::Reject("b".to_string()),
    ] {
        app.update(message);
        let status = app.view().status;
        assert_eq!(status.text, "MCP endpoint:  http://127.0.0.1:3000/mcp");
        assert_eq!((status.size, status.tone), (11, Tone::Status));
    }
}

#[test]
fn questions_are_shown_together_in_order() {
    let mut app = window();
    let _a = ask(&mut app, "a", "A?");
    let _b = ask(&mut app, "b", "B?");
    let shown = cards(&app);
    assert_eq!(shown.len(), 2);
    assert_eq!(shown[0].question.text, "A?");
    assert_eq!(shown[1].question.text, "B?");
    for (card, id) in shown.into_iter().zip(["a", "b"]) {
        assert_eq!((card.question.size, card.question.tone), (15, Tone::Plain));
        assert_eq!((card.close.label.text.as_str(), card.close.label.size), ("✕", 13));
        assert!(matches!(&card.close.on_press, Some(Message::Reject(r)) if r == id));
        assert_eq!(card.border, Tone::IdleBorder);
        let form = form(card);
        assert_eq!(form.placeholder, "Type your answer here…");
        assert_eq!(form.submit, "Submit Answer");
        assert_eq!(form.value, "");
        assert!(form.context.is_none());
        assert!(form.error.is_none());
    }
}

#[test]
fn the_context_is_shown() {
    let mut app = window();
    let (mut request, _rx) = request("a", "A?");
    request.context = Some("staging passed".to_string());
    app.update(Message::NewQuestion(request));
    let context = form(cards(&app).remove(0)).context.unwrap();
    assert_eq!(
        (context.text.as_str(), context.size, context.tone),
        ("staging passed", 12, Tone::Context)
    );
}

#[test]
fn the_form_sends_messages_of_its_card() {
    let mut app = window();
    let _rx = ask(&mut app, "a", "A?");
    let form = form(cards(&app).remove(0));
    let typed = form.on_input("x".to_string());
    assert!(matches!(typed, Message::AnswerChanged(id, value) if id == "a" && value == "x"));
    assert!(matches!(form.on_submit(), Message::Submit(id) if id == "a"));
}

#[test]
fn a_question_is_answered_confirmed_and_removed() {
    let mut app = window();
    let rx = ask(&mut app, "a", "A?");
    type_in(&mut app, "a", "  go on \n");
    let action = app.update(Message::Submit("a".to_string()));
    match &action {
        Action::Deliver { id, answer, .. } => {
            assert_eq!(id, "a");
            assert_eq!(answer, "go on");
        }
        _ => panic!("nothing to deliver"),
    }
    match perform(&mut app, action) {
        Action::RemoveLater { id, delay_ms } => {
            assert_eq!(id, "a");
            assert_eq!(delay_ms, 1500);
        }
        _ => panic!("nothing to remove"),
    }
    let result = call_result(rx.into_receiver().blocking_recv()).unwrap();
    assert_eq!(result.is_error, Some(false));
    assert_eq!(result.content[0].as_text().unwrap().text, "go on");

    let card = cards(&app).remove(0);
    assert!(card.close.on_press.is_none());
    assert_eq!(card.close.label.text, "✕");
    assert_eq!(card.border, Tone::Success);
    match card.body {
        CardBody::Confirmation(note) => assert_eq!(
            (note.text.as_str(), note.size, note.tone),
            ("✓  Answer submitted successfully!", 14, Tone::Success)
        ),
        CardBody::Form(_) => panic!("a form on a confirmed card"),
    }
    app.update(due("a".to_string()));
    assert!(app.questions.is_empty());
}

#[test]
fn a_blank_answer_is_refused_and_can_be_retried() {
    let mut app = window();
    let rx = ask(&mut app, "a", "A?");
    type_in(&mut app, "a", " \t ");
    assert!(matches!(app.update(Message::Submit("a".to_string())), Action::Idle));
    let card = cards(&app).remove(0);
    assert_eq!(card.border, Tone::FailureBorder);
    let form = form(card);
    let tip = form.error.unwrap();
    assert_eq!(
        (tip.text.as_str(), tip.size, tip.tone),
        ("Please enter an answer before submitting.", 12, Tone::Failure)
    );
    assert_eq!(form.value, " \t ");

    type_in(&mut app, "a", "yes");
    let action = app.update(Message::Submit("a".to_string()));
    perform(&mut app, action);
    assert_eq!(rx.into_receiver().blocking_recv().unwrap(), Some("yes".to_string()));
    assert!(matches!(app.questions[0].state, CardState::Success));
}

#[test]
fn a_failed_submission_shows_why() {
    let mut app = window();
    let rx = ask(&mut app, "a", "A?");
    drop(rx);
    type_in(&mut app, "a", "yes");
    let action = app.update(Message::Submit("a".to_string()));
    assert!(matches!(perform(&mut app, action), Action::Idle));
    let form = form(cards(&app).remove(0));
    assert_eq!(form.error.unwrap().text, "Channel closed");
    assert_eq!(form.value, "yes");
    let action = app.update(Message::Submit("a".to_string()));
    perform(&mut app, action);
    assert!(matches!(&app.questions[0].state, CardState::Error(e) if e == "Already answered"));
}

#[test]
fn a_rejected_question_is_declined() {
    let mut app = window();
    let _a = ask(&mut app, "a", "A?");
    let rx = ask(&mut app, "b", "B?");
    let slot = app.questions[1].answer_tx.clone();
    let action = app.update(Message::Reject("b".to_string()));
    assert!(matches!(&action, Action::Decline { slot: s } if Arc::ptr_eq(s, &slot)));
    perform(&mut app, action);
    assert_eq!(ids(&app), ["a"]);
    let result = call_result(rx.into_receiver().blocking_recv()).unwrap();
    assert_eq!(result.is_error, Some(true));
    assert_eq!(
        result.content[0].as_text().unwrap().text,
        "The human operator declined to answer."
    );
}

#[test]
fn two_submissions_answer_once() {
    let mut app = window();
    let rx = ask(&mut app, "a", "A?");
    type_in(&mut app, "a", "one");
    let first = app.update(Message::Submit("a".to_string()));
    type_in(&mut app, "a", "two");
    let second = app.update(Message::Submit("a".to_string()));
    perform(&mut app, first);
    perform(&mut app, second);
    assert_eq!(rx.into_receiver().blocking_recv().unwrap(), Some("one".to_string()));
    assert!(matches!(&app.questions[0].state, CardState::Error(e) if e == "Already answered"));
}

#[test]
fn a_confirmed_card_ignores_typing() {
    let mut app = window();
    let _rx = ask(&mut app, "a", "A?");
    type_in(&mut app, "a", "yes");
    app.update(Message::Submitted("a".to_string(), Ok(())));
    type_in(&mut app, "a", "no");
    assert_eq!(app.questions[0].answer_input, "yes");
}

#[test]
fn messages_leave_other_cards_alone() {
    let mut app = window();
    let _a = ask(&mut app, "a", "A?");
    let _b = ask(&mut app, "b", "B?");
    let _c = ask(&mut app, "c", "C?");
    type_in(&mut app, "b", "x");
    app.update(Message::Submitted("b".to_string(), Err("late".to_string())));
    assert_eq!(app.questions[0].answer_input, "");
    assert!(matches!(app.questions[0].state, CardState::Active));
    assert_eq!(app.questions[1].answer_input, "x");
    assert!(matches!(app.questions[2].state, CardState::Active));
    app.update(Message::Remove("b".to_string()));
    assert_eq!(ids(&app), ["a", "c"]);
    app.update(Message::Remove("b".to_string()));
    assert_eq!(ids(&app), ["a", "c"]);
}

#[test]
fn the_first_card_with_an_id_is_meant_and_removal_takes_all() {
    let mut app = window();
    let _1 = ask(&mut app, "a", "first");
    let _2 = ask(&mut app, "b", "other");
    let _3 = ask(&mut app, "a", "second");
    type_in(&mut app, "a", "x");
    assert_eq!(app.questions[0].answer_input, "x");
    assert_eq!(app.questions[2].answer_input, "");
    app.update(Message::Reject("a".to_string()));
    assert_eq!(ids(&app), ["b", "a"]);
    let _4 = ask(&mut app, "a", "third");
    app.update(Message::Remove("a".to_string()));
    assert_eq!(ids(&app), ["b"]);
}

#[test]
fn unknown_ids_change_nothing() {
    let mut app = window();
    let _rx = ask(&mut app, "a", "A?");
    let id = || "zzz".to_string();
    assert!(matches!(app.update(Message::Submit(id())), Action::Idle));
    assert!(matches!(app.update(Message::Reject(id())), Action::Idle));
    assert!(matches!(app.update(Message::Remove(id())), Action::Idle));
    assert!(matches!(app.update(Message::AnswerChanged(id(), id())), Action::Idle));
    assert!(matches!(app.update(Message::Submitted(id(), Err(id()))), Action::Idle));
    let later = app.update(Message::Submitted(id(), Ok(())));
    assert!(matches!(later, Action::RemoveLater { id, .. } if id == "zzz"));
    assert_eq!(ids(&app), ["a"]);
    assert!(matches!(app.questions[0].state, CardState::Active));
}

#[test]
fn messages_are_copied_whole() {
    let (request, _rx) = request("a", "A?");
    let slot = request.answer_tx.clone();
    match Message::NewQuestion(request).clone() {
        Message::NewQuestion(copy) => {
            assert_eq!(copy.question, "A?");
            assert!(Arc::ptr_eq(&copy.answer_tx, &slot));
        }
        _ => panic!("another message"),
    }
    let failed = Message::Submitted("a".to_string(), Err("e".to_string()));
    assert!(matches!(failed.clone(), Message::Submitted(id, Err(e)) if id == "a" && e == "e"));
}

#[test]
fn the_feed_turns_questions_into_messages() {
    assert!(matches!(feed_step(FeedEvent::Started { queue: true }), FeedStep::Receive));
    assert!(matches!(feed_step(FeedEvent::Started { queue: false }), FeedStep::Park));
    assert!(matches!(feed_step(FeedEvent::Received(None)), FeedStep::Park));
    assert!(matches!(feed_step(FeedEvent::Emitted), FeedStep::Receive));
    let (request, _rx) = request("a", "A?");
    match feed_step(FeedEvent::Received(Some(request))) {
        FeedStep::Emit(Message::NewQuestion(request)) => assert_eq!(request.id, "a"),
        _ => panic!("the question is lost"),
    }
}

#[test]
fn the_subscription_is_the_window_queue() {
    let app = window();
    assert!(Arc::ptr_eq(&app.subscription(), &app.question_rx));
}

#[test]
fn questions_keep_their_texts_and_ids() {
    let mut app = window();
    let _a = ask(&mut app, "a", "A?");
    let _b = ask(&mut app, "b", "B?");
    let slot = app.questions[0].answer_tx.clone();
    for message in [
        Message::AnswerChanged("a".to_string(), "x".to_string()),
        Message::Submit("a".to_string()),
        Message::Submitted("a".to_string(), Err("late".to_string())),
        Message::Submitted("a".to_string(), Ok(())),
    ] {
        app.update(message);
        assert_eq!(ids(&app), ["a", "b"]);
        assert_eq!(app.questions[0].question, "A?");
        assert_eq!(app.questions[0].context, None);
        assert!(Arc::ptr_eq(&app.questions[0].answer_tx, &slot));
    }
}

#[test]
fn a_rejection_undoes_an_arrival() {
    let mut app = window();
    let _a = ask(&mut app, "a", "A?");
    let _b = ask(&mut app, "b", "B?");
    app.update(Message::Reject("b".to_string()));
    assert_eq!(ids(&app), ["a"]);
    assert_eq!(app.questions[0].question, "A?");
}

#[test]
fn delivering_reports_the_outcome() {
    let (mut slot, rx) = AnswerSlot::open();
    let sent = deliver("a".to_string(), &mut slot, "yes".to_string());
    assert!(matches!(sent, Message::Submitted(id, Ok(())) if id == "a"));
    let again = deliver("a".to_string(), &mut slot, "no".to_string());
    assert!(matches!(again, Message::Submitted(_, Err(e)) if e == "Already answered"));
    assert_eq!(rx.into_receiver().blocking_recv().unwrap(), Some("yes".to_string()));
    let (mut slot, rx) = AnswerSlot::open();
    drop(rx);
    let lost = deliver("b".to_string(), &mut slot, "yes".to_string());
    assert!(matches!(lost, Message::Submitted(id, Err(e)) if id == "b" && e == "Channel closed"));
}

#[test]
fn a_rejected_question_does_not_send_what_was_typed() {
    let mut app = window();
    let (slot, rx) = AnswerSlot::open();
    let request = ask_human(
        "Should I proceed with the deployment?".to_string(),
        Some("The staging tests all passed. Production traffic is ~10k req/s.".to_string()),
        Arc::new(Mutex::new(slot)),
    );
    let id = request.id.clone();
    app.update(Message::NewQuestion(request));
    type_in(&mut app, &id, "yes");
    let action = app.update(Message::Reject(id));
    perform(&mut app, action);
    assert!(app.questions.is_empty());
    let result = call_result(rx.into_receiver().blocking_recv()).unwrap();
    assert_eq!(result.is_error, Some(true));
    assert_eq!(result.content.len(), 1);
    assert_eq!(
        result.content[0].as_text().unwrap().text,
        "The human operator declined to answer."
    );
}

#[test]
fn rejecting_after_the_agent_left_is_ignored() {
    let mut app = window();
    let rx = ask(&mut app, "a", "A?");
    drop(rx);
    let action = app.update(Message::Reject("a".to_string()));
    assert!(matches!(perform(&mut app, action), Action::Idle));
    assert!(app.questions.is_empty());
}

#[test]
fn the_error_tip_stands_above_the_answer_box() {
    let mut app = window();
    let (mut request, _rx) = request("a", "A?");
    request.context = Some("why".to_string());
    app.update(Message::NewQuestion(request));
    let plain = form(cards(&app).remove(0)).parts();
    assert_eq!(plain.len(), 3);
    assert!(matches!(&plain[0], FormPart::Context(label) if label.text == "why"));
    assert!(matches!(&plain[1], FormPart::Input { value, .. } if value.is_empty()));
    assert!(matches!(&plain[2], FormPart::Submit(text) if text == "Submit Answer"));
    app.update(Message::Submitted("a".to_string(), Err("late".to_string())));
    let failed = form(cards(&app).remove(0)).parts();
    assert_eq!(failed.len(), 4);
    assert!(matches!(&failed[0], FormPart::Context(_)));
    assert!(
        matches!(&failed[1], FormPart::Error(label) if label.text == "late" && label.tone == Tone::Failure)
    );
    assert!(matches!(&failed[2], FormPart::Input { .. }));
    assert!(matches!(&failed[3], FormPart::Submit(_)));
}

#[test]
fn a_reader_announces_every_question_in_order() {
    let mut pending = vec![request("a", "A?").0, request("b", "B?").0];
    let mut announced: Vec<String> = Vec::new();
    let mut step = feed_step(FeedEvent::Started { queue: true });
    loop {
        step = match step {
            FeedStep::Receive => {
                let next = if pending.is_empty() { None } else { Some(pending.remove(0)) };
                feed_step(FeedEvent::Received(next))
            }
            FeedStep::Emit(Message::NewQuestion(request)) => {
                announced.push(request.id);
                feed_step(FeedEvent::Emitted)
            }
            FeedStep::Emit(_) => panic!("another message"),
            FeedStep::Park => break,
        };
    }
    assert_eq!(announced, ["a", "b"]);
}
