//! What each call gives, said of its arguments and results alone: texts, ports, slots,
//! replies and the reader of the queue.

use crate::app::{deliver, due, App, Flags, Message, QuestionQueue};
use crate::channel::AnswerReceiver;
use crate::endpoint::{banner, bind_address, bind_failure, endpoint_url, resolve_port};
use crate::feed::{feed_step, FeedEvent, FeedStep};
use crate::mcp_server::{
    ask_human, call_result, enqueue_result, failure_result, get_info, internal_error_data,
    protocol_result, queued, reply, success_result, QuestionRequest, ServerDescription, ToolError,
    ToolReply,
};
use crate::slot::{delivery_outcome, AnswerSlot, SharedSlot};
use crate::text::{
    all_digits, decimal, decimal_text, digit, digits_value, is_digit, is_white_space, parse_port,
    port_of, trim, trimmed, unsigned_part, white_space,
};
use rmcp::model::{CallToolResult, ErrorData};
use tokio::sync::oneshot;
use vstd::prelude::*;

verus! {

/// `n` zeros.
pub open spec fn zeros(n: nat) -> Seq<char> {
    Seq::new(n, |i: int| '0')
}

/// `s` writes the port: a plus sign at most, any number of zeros, and the port in decimal
/// notation.
pub open spec fn writes(s: Seq<char>, plus: bool, lead: nat, port: u16) -> bool {
    s == (if plus {
        seq!['+']
    } else {
        Seq::empty()
    }) + zeros(lead) + decimal(port as nat)
}

/// `t` is the part of `s` from one place up to another, with white space before and after
/// it, and none at its ends.
pub open spec fn strips(s: Seq<char>, t: Seq<char>, from: int, to: int) -> bool {
    &&& 0 <= from <= to <= s.len()
    &&& t == s.subrange(from, to)
    &&& forall|i: int| 0 <= i < from ==> is_white_space(#[trigger] s[i])
    &&& forall|i: int| to <= i < s.len() ==> is_white_space(#[trigger] s[i])
    &&& from < to ==> !is_white_space(s[from]) && !is_white_space(s[to - 1])
}

/// `t` is what is left of `s` when the white space at its two ends is taken off.
pub open spec fn stripped(s: Seq<char>, t: Seq<char>) -> bool {
    exists|from: int, to: int| strips(s, t, from, to)
}

/// Two optional strings hold the same text, or none.
pub open spec fn same_text(a: Option<String>, b: Option<String>) -> bool {
    match (a, b) {
        (Some(x), Some(y)) => x@ == y@,
        (None, None) => true,
        _ => false,
    }
}

/// Two requests have the same texts and lead to the same slot.
pub open spec fn same_request(a: QuestionRequest, b: QuestionRequest) -> bool {
    a.id@ == b.id@ && a.question@ == b.question@ && same_text(a.context, b.context) && a.answer_tx
        == b.answer_tx
}

proof fn lemma_decimal_digits(n: nat)
    ensures
        decimal(n).len() > 0,
        all_digits(decimal(n)),
        digits_value(decimal(n)) == n,
        n > 0 ==> decimal(n)[0] != '0',
    decreases n,
{
    if n < 10 {
        let s = seq![digit(n)];
        assert(s.drop_last() =~= Seq::<char>::empty());
        assert(digits_value(s.drop_last()) == 0);
    } else {
        lemma_decimal_digits(n / 10);
        let s = decimal(n / 10);
        assert(s.push(digit(n % 10)).drop_last() =~= s);
    }
}

proof fn lemma_leading_zeros(lead: nat, t: Seq<char>)
    ensures
        digits_value(zeros(lead) + t) == digits_value(t),
    decreases lead + t.len(),
{
    let s = zeros(lead) + t;
    if t.len() > 0 {
        assert(s.drop_last() =~= zeros(lead) + t.drop_last());
        lemma_leading_zeros(lead, t.drop_last());
    } else if lead > 0 {
        assert(s.drop_last() =~= zeros((lead - 1) as nat) + t);
        lemma_leading_zeros((lead - 1) as nat, t);
        assert(s.last() == '0');
    } else {
        assert(s =~= t);
    }
}

/// Digits are zeros in front of the number that they write.
proof fn lemma_digits_write(s: Seq<char>) -> (lead: nat)
    requires
        s.len() > 0,
        all_digits(s),
    ensures
        digits_value(s) >= 0,
        s == zeros(lead) + decimal(digits_value(s) as nat),
    decreases s.len(),
{
    let rest = s.drop_last();
    let d = s.last() as int - 48;
    assert(is_digit(s[s.len() - 1]));
    if s.len() == 1 {
        assert(rest =~= Seq::<char>::empty());
        assert(digits_value(rest) == 0);
        assert(s =~= zeros(0) + decimal(d as nat));
        0
    } else {
        assert forall|i: int| 0 <= i < rest.len() implies is_digit(#[trigger] rest[i]) by {
            assert(rest[i] == s[i]);
        }
        let lead = lemma_digits_write(rest);
        let v = digits_value(rest) as nat;
        assert(s =~= rest.push(s.last()));
        if v == 0 {
            assert(decimal(0) =~= seq!['0']);
            assert(rest =~= zeros(lead + 1));
            assert(s =~= zeros(lead + 1) + decimal(d as nat));
            lead + 1
        } else {
            let n = (v * 10 + d) as nat;
            assert(n / 10 == v && n % 10 == d as nat);
            assert(decimal(n) == decimal(v).push(digit(d as nat)));
            assert(s =~= zeros(lead) + decimal(n));
            lead
        }
    }
}

proof fn lemma_written_port_is_read(s: Seq<char>, plus: bool, lead: nat, port: u16)
    requires
        writes(s, plus, lead, port),
    ensures
        port_of(s) == Some(port),
{
    let digits = zeros(lead) + decimal(port as nat);
    lemma_decimal_digits(port as nat);
    lemma_leading_zeros(lead, decimal(port as nat));
    assert forall|i: int| 0 <= i < digits.len() implies is_digit(#[trigger] digits[i]) by {
        if i >= lead {
            assert(digits[i] == decimal(port as nat)[i - lead]);
        }
    }
    assert(is_digit(digits[0]));
    if plus {
        assert(s.drop_first() =~= digits);
    } else {
        assert(s =~= digits);
    }
}

proof fn lemma_read_port_is_written(s: Seq<char>, port: u16)
    requires
        port_of(s) == Some(port),
    ensures
        exists|plus: bool, lead: nat| writes(s, plus, lead, port),
{
    let digits = unsigned_part(s);
    let lead = lemma_digits_write(digits);
    if s.len() > 0 && s[0] == '+' {
        assert(s =~= seq!['+'] + s.drop_first());
        assert(digits == s.drop_first());
        assert(s =~= seq!['+'] + zeros(lead) + decimal(port as nat));
        assert(writes(s, true, lead, port));
    } else {
        assert(s =~= Seq::<char>::empty() + zeros(lead) + decimal(port as nat));
        assert(writes(s, false, lead, port));
    }
}

/// A port is written with one digit for each power of ten, without zeros in front; two
/// ports written alike are the same port.
pub proof fn law_ports_are_written_in_decimal(n: u16, text: String, m: u16, other: String)
    requires
        call_ensures(decimal_text, (n,), text),
        call_ensures(decimal_text, (m,), other),
    ensures
        forall|i: int| 0 <= i < text@.len() ==> '0' <= #[trigger] text@[i] <= '9',
        text@.len() > 0,
        text@.len() > 1 ==> text@[0] != '0',
        n < 10 ==> text@.len() == 1 && text@[0] as int == 48 + n,
        n >= 10 && m == n / 10 ==> text@.drop_last() == other@ && text@.last() as int == 48 + n
            % 10,
        text@ == other@ ==> n == m,
{
    lemma_decimal_digits(n as nat);
    lemma_decimal_digits(m as nat);
    assert forall|i: int| 0 <= i < text@.len() implies '0' <= #[trigger] text@[i] <= '9' by {
        assert(is_digit(text@[i]));
    }
    if n >= 10 {
        let s = decimal(n as nat / 10);
        assert(s.push(digit(n as nat % 10)).drop_last() =~= s);
    }
}

/// A text is read as a port exactly where it writes that port.
pub proof fn law_ports_are_read_as_written(s: &str, port: Option<u16>, n: u16)
    requires
        call_ensures(parse_port, (s,), port),
    ensures
        port == Some(n) <==> exists|plus: bool, lead: nat| writes(s@, plus, lead, n),
{
    if port == Some(n) {
        lemma_read_port_is_written(s@, n);
    }
    if exists|plus: bool, lead: nat| writes(s@, plus, lead, n) {
        let (plus, lead) = choose|plus: bool, lead: nat| writes(s@, plus, lead, n);
        lemma_written_port_is_read(s@, plus, lead, n);
    }
}

/// The port in use is the one that the setting writes; a setting that writes none, and no
/// setting, leave it at 3000.
pub proof fn law_the_setting_selects_the_port(setting: Option<String>, port: u16, n: u16)
    requires
        call_ensures(resolve_port, (setting,), port),
    ensures
        setting is None ==> port == 3000,
        setting is Some && (exists|plus: bool, lead: nat| writes(setting->0@, plus, lead, n))
            ==> port == n,
        setting is Some && port != 3000 ==> exists|plus: bool, lead: nat|
            writes(setting->0@, plus, lead, port),
{
    if setting is Some {
        let s = setting->0@;
        if exists|plus: bool, lead: nat| writes(s, plus, lead, n) {
            let (plus, lead) = choose|plus: bool, lead: nat| writes(s, plus, lead, n);
            lemma_written_port_is_read(s, plus, lead, n);
        }
        if port != 3000 {
            lemma_read_port_is_written(s, port);
        }
    }
}

/// The server listens at the loopback address and the port that it is given: the port can
/// be read back from the address, and different ports have different addresses.
pub proof fn law_the_address_names_the_port(port: u16, address: String, q: u16, other: String)
    requires
        call_ensures(bind_address, (port,), address),
        call_ensures(bind_address, (q,), other),
    ensures
        address@ == "127.0.0.1:"@ + decimal(port as nat),
        "127.0.0.1:"@.len() == 10,
        address@.take(10) == "127.0.0.1:"@,
        port_of(address@.skip(10)) == Some(port),
        address@ == other@ ==> port == q,
{
    reveal_strlit("127.0.0.1:");
    let head = "127.0.0.1:"@;
    assert(address@.take(10) =~= head);
    assert(address@.skip(10) =~= decimal(port as nat));
    assert(other@.skip(10) =~= decimal(q as nat));
    assert(decimal(port as nat) =~= Seq::<char>::empty() + zeros(0) + decimal(port as nat));
    lemma_written_port_is_read(decimal(port as nat), false, 0, port);
    lemma_decimal_digits(port as nat);
    lemma_decimal_digits(q as nat);
}

/// The URL for clients and the line at the start name the address that the server listens
/// at; different ports have different URLs and lines.
pub proof fn law_the_url_names_the_port(
    port: u16,
    address: String,
    url: String,
    line: String,
    q: u16,
    other_url: String,
    other_line: String,
)
    requires
        call_ensures(bind_address, (port,), address),
        call_ensures(endpoint_url, (port,), url),
        call_ensures(banner, (port,), line),
        call_ensures(endpoint_url, (q,), other_url),
        call_ensures(banner, (q,), other_line),
    ensures
        url@ == "http://"@ + address@ + "/mcp"@,
        url@ == "http://"@ + ("127.0.0.1:"@ + decimal(port as nat)) + "/mcp"@,
        line@ == "AskHuman MCP server  →  "@ + url@,
        url@ == other_url@ ==> port == q,
        line@ == other_line@ ==> port == q,
{
    let head = "http://"@ + "127.0.0.1:"@;
    let tail = "/mcp"@;
    let a = decimal(port as nat);
    let b = decimal(q as nat);
    assert(url@ =~= head + a + tail);
    assert(other_url@ =~= head + b + tail);
    lemma_decimal_digits(port as nat);
    lemma_decimal_digits(q as nat);
    if line@ == other_line@ {
        let start = "AskHuman MCP server  →  "@;
        assert(line@.skip(start.len() as int) =~= url@);
        assert(other_line@.skip(start.len() as int) =~= other_url@);
    }
    if url@ == other_url@ {
        assert(a.len() == b.len());
        assert(url@.subrange(head.len() as int, (head.len() + a.len()) as int) =~= a);
        assert(other_url@.subrange(head.len() as int, (head.len() + b.len()) as int) =~= b);
    }
}

/// A failure to listen is reported with the address and the reason.
pub proof fn law_bind_failures_are_reported(address: &str, error: &str, line: String)
    requires
        call_ensures(bind_failure, (address, error), line),
    ensures
        line@ == "Failed to bind "@ + address@ + ": "@ + error@,
{
}

proof fn lemma_trimmed_strips(s: Seq<char>) -> (ends: (int, int))
    ensures
        strips(s, trimmed(s), ends.0, ends.1),
    decreases s.len(),
{
    if s.len() > 0 && is_white_space(s.first()) {
        let rest = s.drop_first();
        let (a, b) = lemma_trimmed_strips(rest);
        assert(s.subrange(a + 1, b + 1) =~= rest.subrange(a, b));
        assert forall|i: int| 0 <= i < a + 1 implies is_white_space(#[trigger] s[i]) by {
            if i > 0 {
                assert(s[i] == rest[i - 1]);
            }
        }
        assert forall|i: int| b + 1 <= i < s.len() implies is_white_space(#[trigger] s[i]) by {
            assert(s[i] == rest[i - 1]);
        }
        (a + 1, b + 1)
    } else if s.len() > 0 && is_white_space(s.last()) {
        let rest = s.drop_last();
        let (a, b) = lemma_trimmed_strips(rest);
        assert(s.subrange(a, b) =~= rest.subrange(a, b));
        assert forall|i: int| 0 <= i < a implies is_white_space(#[trigger] s[i]) by {
            assert(s[i] == rest[i]);
        }
        assert forall|i: int| b <= i < s.len() implies is_white_space(#[trigger] s[i]) by {
            if i < s.len() - 1 {
                assert(s[i] == rest[i]);
            }
        }
        (a, b)
    } else {
        assert(s.subrange(0, s.len() as int) =~= s);
        (0, s.len() as int)
    }
}

pub(crate) proof fn lemma_trimmed_is_stripped(s: Seq<char>)
    ensures
        stripped(s, trimmed(s)),
{
    let (a, b) = lemma_trimmed_strips(s);
    assert(strips(s, trimmed(s), a, b));
}

/// What is left of a text by taking off white space is one text, and it is empty exactly
/// where the text holds nothing but white space.
pub(crate) proof fn lemma_stripped_is_one(s: Seq<char>, t: Seq<char>)
    requires
        stripped(s, t),
    ensures
        t == trimmed(s),
        t.len() == 0 <==> forall|i: int| 0 <= i < s.len() ==> is_white_space(#[trigger] s[i]),
{
    let (a, b) = choose|from: int, to: int| strips(s, t, from, to);
    let (c, d) = lemma_trimmed_strips(s);
    if a < b {
        assert(!is_white_space(s[a]) && !is_white_space(s[b - 1]));
        assert(c <= a && b <= d);
        assert(!is_white_space(s[c]) && !is_white_space(s[d - 1]));
        assert(a <= c && d <= b);
    } else {
        assert forall|i: int| 0 <= i < s.len() implies is_white_space(#[trigger] s[i]) by {
            if i < a {
                assert(is_white_space(s[i]));
            }
        }
        if c < d {
            assert(is_white_space(s[c]));
        }
        assert(t =~= trimmed(s));
    }
}

/// Trimming gives the one text that is left when the white space at both ends is taken
/// off.
pub proof fn law_trimming_strips(s: &str, kept: String, t: Seq<char>)
    requires
        call_ensures(trim, (s,), kept),
    ensures
        stripped(s@, kept@),
        stripped(s@, t) ==> t == kept@,
        kept@.len() == 0 <==> forall|i: int| 0 <= i < s@.len() ==> is_white_space(#[trigger] s@[i]),
{
    lemma_trimmed_is_stripped(s@);
    lemma_stripped_is_one(s@, kept@);
    if stripped(s@, t) {
        lemma_stripped_is_one(s@, t);
    }
}

/// The characters that count as white space, by number.
pub proof fn law_white_space_characters(c: char, yes: bool)
    requires
        call_ensures(white_space, (c,), yes),
    ensures
        yes == is_white_space(c),
        yes <==> (9 <= c as int <= 13 || c as int == 32 || c as int == 133 || c as int == 160
            || c as int == 5760 || 8192 <= c as int <= 8202 || c as int == 8232 || c as int == 8233
            || c as int == 8239 || c as int == 8287 || c as int == 12288),
{
}

/// A request carries the id, the texts and the slot that it is made with.
pub proof fn law_requests_carry_what_they_are_made_with(
    id: String,
    question: String,
    context: Option<String>,
    answer_tx: SharedSlot,
    made: QuestionRequest,
    asked: QuestionRequest,
)
    requires
        call_ensures(QuestionRequest::new, (id, question, context, answer_tx), made),
        call_ensures(ask_human, (question, context, answer_tx), asked),
    ensures
        made.id@ == id@,
        made.question@ == question@,
        same_text(made.context, context),
        made.answer_tx == answer_tx,
        asked.question@ == question@,
        same_text(asked.context, context),
        asked.answer_tx == answer_tx,
        asked.id@.len() == 36,
        forall|i: int|
            0 <= i < 36 ==> if i == 8 || i == 13 || i == 18 || i == 23 {
                #[trigger] asked.id@[i] == '-'
            } else {
                '0' <= asked.id@[i] <= '9' || 'a' <= asked.id@[i] <= 'f'
            },
        asked.id@[14] == '4',
        asked.id@[19] == '8' || asked.id@[19] == '9' || asked.id@[19] == 'a' || asked.id@[19] == 'b',
{
}

/// A copied request has the same texts and leads to the same slot.
pub proof fn law_copied_requests_are_the_same(request: &QuestionRequest, copy: QuestionRequest)
    requires
        call_ensures(QuestionRequest::clone, (request,), copy),
    ensures
        same_request(*request, copy),
{
}

/// A copied message is the same message.
pub proof fn law_copied_messages_are_the_same(message: &Message, copy: Message)
    requires
        call_ensures(Message::clone, (message,), copy),
    ensures
        match *message {
            Message::NewQuestion(a) => copy matches Message::NewQuestion(b) && same_request(a, b),
            Message::AnswerChanged(id, value) => copy matches Message::AnswerChanged(i, v) && i@
                == id@ && v@ == value@,
            Message::Submit(id) => copy matches Message::Submit(i) && i@ == id@,
            Message::Submitted(id, Ok(())) => copy matches Message::Submitted(i, Ok(())) && i@
                == id@,
            Message::Submitted(id, Err(e)) => copy matches Message::Submitted(i, Err(f)) && i@
                == id@ && f@ == e@,
            Message::Reject(id) => copy matches Message::Reject(i) && i@ == id@,
            Message::Remove(id) => copy matches Message::Remove(i) && i@ == id@,
        },
{
}

/// A tool call goes on exactly where the window's queue took the question, and else breaks
/// off with one message.
pub proof fn law_queueing_decides<E>(
    sent: Result<(), E>,
    outcome: Result<(), ToolError>,
    result: Result<(), ErrorData>,
)
    requires
        call_ensures(queued::<E>, (sent,), outcome),
        call_ensures(enqueue_result::<E>, (sent,), result),
    ensures
        outcome is Ok <==> sent is Ok,
        sent is Err ==> outcome->Err_0.message@ == "UI unavailable"@,
        result is Ok <==> sent is Ok,
        sent is Err ==> result->Err_0 == internal_error_data("UI unavailable"@),
{
}

/// The agent is told the answer word for word, or of the refusal, or of a lost slot.
pub proof fn law_replies_tell_what_arrived<E>(
    received: Result<Option<String>, E>,
    told: Result<ToolReply, ToolError>,
)
    requires
        call_ensures(reply::<E>, (received,), told),
    ensures
        match received {
            Ok(Some(answer)) => told is Ok && !told->Ok_0.is_error && told->Ok_0.text@ == answer@,
            Ok(None) => told is Ok && told->Ok_0.is_error && told->Ok_0.text@
                == "The human operator declined to answer."@,
            Err(_) => told is Err && told->Err_0.message@ == "Answer channel closed unexpectedly"@,
        },
{
}

/// In the protocol, a reply is a result with the reply's text, successful exactly where the
/// reply is no error, and a broken-off call is an internal error with its message.
pub proof fn law_the_protocol_tells_the_same(
    told: Result<ToolReply, ToolError>,
    result: Result<CallToolResult, ErrorData>,
)
    requires
        call_ensures(protocol_result, (told,), result),
    ensures
        match told {
            Ok(reply) => if reply.is_error {
                result == Ok::<CallToolResult, ErrorData>(failure_result(reply.text@))
            } else {
                result == Ok::<CallToolResult, ErrorData>(success_result(reply.text@))
            },
            Err(error) => result == Err::<CallToolResult, ErrorData>(
                internal_error_data(error.message@),
            ),
        },
{
}

/// The tool call ends with the answer word for word, with the refusal, or with an internal
/// error where the slot was lost.
pub proof fn law_tool_calls_end_with_what_arrived(
    received: Result<Option<String>, oneshot::error::RecvError>,
    result: Result<CallToolResult, ErrorData>,
)
    requires
        call_ensures(call_result, (received,), result),
    ensures
        match received {
            Ok(Some(answer)) => result == Ok::<CallToolResult, ErrorData>(success_result(answer@)),
            Ok(None) => result == Ok::<CallToolResult, ErrorData>(
                failure_result("The human operator declined to answer."@),
            ),
            Err(_) => result == Err::<CallToolResult, ErrorData>(
                internal_error_data("Answer channel closed unexpectedly"@),
            ),
        },
{
}

/// The server introduces itself by the name and release that it is given, with tools.
pub proof fn law_the_server_goes_by_its_name(name: &str, version: &str, info: ServerDescription)
    requires
        call_ensures(get_info, (name, version), info),
    ensures
        info.name@ == name@,
        info.version@ == version@,
        info.tools,
        info.protocol_version@ == "2025-03-26"@,
        info.instructions@ == "Ask the human operator a question and wait for their reply."@,
{
}

/// A new slot is open, and its agent waits at the other end of its channel.
pub proof fn law_new_slots_are_open(ends: (AnswerSlot, AnswerReceiver))
    requires
        call_ensures(AnswerSlot::open, (), ends),
    ensures
        ends.0@.open,
        ends.0@.handed is None,
        ends.0@.accepted is None,
        ends.0@.channel == ends.1.channel(),
{
}

/// Answering hands the text, word for word, to the channel of an open slot, and reports
/// success exactly where the channel took it. A closed slot is left as it is.
pub proof fn law_answers_are_handed_over(
    slot: &mut AnswerSlot,
    text: String,
    outcome: Result<(), String>,
)
    requires
        call_ensures(AnswerSlot::answer, (slot, text), outcome),
    ensures
        !final(slot)@.open,
        final(slot)@.channel == old(slot)@.channel,
        old(slot)@.open ==> {
            &&& final(slot)@.handed == Some(Some(text@))
            &&& outcome is Ok <==> final(slot)@.accepted is Some
            &&& outcome is Ok ==> final(slot)@.accepted == Some(Some(text@))
            &&& outcome is Err ==> outcome->Err_0@ == "Channel closed"@
        },
        !old(slot)@.open ==> {
            &&& final(slot)@ == old(slot)@
            &&& outcome is Err
            &&& outcome->Err_0@ == "Already answered"@
        },
{
}

/// Declining hands a refusal to the channel of an open slot. A closed slot is left as it
/// is.
pub proof fn law_refusals_are_handed_over(slot: &mut AnswerSlot)
    requires
        call_ensures(AnswerSlot::decline, (slot,), ()),
    ensures
        !final(slot)@.open,
        final(slot)@.channel == old(slot)@.channel,
        old(slot)@.open ==> {
            &&& final(slot)@.handed == Some(None::<Seq<char>>)
            &&& final(slot)@.accepted is Some ==> final(slot)@.accepted == Some(None::<Seq<char>>)
        },
        !old(slot)@.open ==> final(slot)@ == old(slot)@,
{
}

/// The operator is told of success, of a channel that was closed, or of an answer that went
/// out before.
pub proof fn law_outcomes_are_told<R, B>(
    sent: Option<Result<R, B>>,
    outcome: Result<(), String>,
)
    requires
        call_ensures(delivery_outcome::<R, B>, (sent,), outcome),
    ensures
        match sent {
            Some(Ok(_)) => outcome is Ok,
            Some(Err(_)) => outcome is Err && outcome->Err_0@ == "Channel closed"@,
            None => outcome is Err && outcome->Err_0@ == "Already answered"@,
        },
{
}

/// A delivery hands the answer over and reports on the card that it was for.
pub proof fn law_deliveries_are_reported(
    id: String,
    slot: &mut AnswerSlot,
    answer: String,
    message: Message,
)
    requires
        call_ensures(deliver, (id, slot, answer), message),
    ensures
        message is Submitted,
        message->Submitted_0@ == id@,
        !final(slot)@.open,
        old(slot)@.open ==> {
            &&& final(slot)@.handed == Some(Some(answer@))
            &&& message->Submitted_1 is Ok <==> final(slot)@.accepted is Some
            &&& message->Submitted_1 is Err ==> message->Submitted_1->Err_0@ == "Channel closed"@
        },
        !old(slot)@.open ==> {
            &&& final(slot)@ == old(slot)@
            &&& message->Submitted_1 is Err
            &&& message->Submitted_1->Err_0@ == "Already answered"@
        },
{
}

/// A removal that is due is about the card that it was set for.
pub proof fn law_due_removals_name_their_card(id: String, message: Message)
    requires
        call_ensures(due, (id,), message),
    ensures
        message matches Message::Remove(about) && about@ == id@,
{
}

/// The reader waits where it has a queue, announces the question that it got, goes on
/// waiting after that, and parks where there is no queue or it ended.
pub proof fn law_the_reader_announces_what_it_gets(event: FeedEvent, step: FeedStep)
    requires
        call_ensures(feed_step, (event,), step),
    ensures
        match event {
            FeedEvent::Started { queue } => if queue {
                step is Receive
            } else {
                step is Park
            },
            FeedEvent::Received(Some(request)) => step matches FeedStep::Emit(
                Message::NewQuestion(announced),
            ) && same_request(request, announced),
            FeedEvent::Received(None) => step is Park,
            FeedEvent::Emitted => step is Receive,
        },
{
}

/// A new window is empty and keeps the queue and the port that it is started with; its
/// queue is the one that its reader gets.
pub proof fn law_new_windows_are_empty(flags: Flags, app: App, queue: QuestionQueue)
    requires
        call_ensures(App::new, (flags,), app),
        call_ensures(App::subscription, (&app,), queue),
    ensures
        app.questions@.len() == 0,
        app.port == flags.port,
        app.question_rx == flags.question_rx,
        queue == flags.question_rx,
{
    assert(app.model().questions.len() == app.questions@.len());
}

/// The title names the window's port; windows on different ports have different titles.
pub proof fn law_the_title_names_the_port(app: &App, title: String, b: &App, other: String)
    requires
        call_ensures(App::title, (app,), title),
        call_ensures(App::title, (b,), other),
    ensures
        title@ == "AskHuman  —  MCP on :"@ + decimal(app.port as nat),
        title@ == other@ ==> app.port == b.port,
{
    let head = "AskHuman  —  MCP on :"@;
    lemma_decimal_digits(app.port as nat);
    lemma_decimal_digits(b.port as nat);
    assert(title@.skip(head.len() as int) =~= decimal(app.port as nat));
    assert(other@.skip(head.len() as int) =~= decimal(b.port as nat));
}

} // verus!
