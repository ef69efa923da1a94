//! The fetching of one range of a resource, step by step.
//!
//! A task says what is to be done next, and is told how that went.
use crate::http::{
    copy_headers, header_fields, reason_phrase, status_as_number, status_line, status_number,
    status_text, value_text, value_to_str,
};
use crate::probe::{can_be_sent, condition_text, content_range_text, IfRange};
use crate::request::{custom_fields, custom_fits, range_fields, range_headers};
use crate::text::{
    begins_with, contains, decimal, decimal_text, holds_text, law_beginning_is_a_prefix,
    law_held_text_begins_somewhere, law_part_occurs, starts_with,
};
use reqwest::header::{HeaderMap, HeaderValue};
use reqwest::StatusCode;
use vstd::prelude::*;

verus! {

/// How far a task has come: what it waits for.
#[derive(Debug, Clone, Copy, PartialEq, Eq)]
pub enum RangeStage {
    Waiting,
    Requesting,
    Opening,
    Seeking,
    Streaming,
    Flushing,
    Finished,
}

/// How the step went that a task asked for.
#[derive(Debug)]
pub enum RangeEvent {
    /// It is done.
    Done,
    /// It failed, with that message.
    Failed(String),
    /// The server replied, with that status code and that `Content-Range` header.
    Replied { status: StatusCode, content_range: Option<HeaderValue> },
    /// That many bytes of the body came, and were written.
    Wrote(u64),
    /// Bytes of the body came, and could not be written.
    WriteFailed,
    /// The body has ended.
    Ended,
    /// Nothing of the body came in time.
    TimedOut,
}

/// What a task wants done next.
#[derive(Debug)]
pub enum RangeAction {
    /// Wait until one more range may be fetched.
    Acquire,
    /// Send a request with these headers.
    Request(HeaderMap),
    /// Open the file for writing.
    Open,
    /// Go to that position in the file.
    Seek(u64),
    /// Wait for bytes of the body, and write them.
    Read,
    /// See that all that was written is in the file.
    Flush,
    /// Nothing more: the range is there, or the fetching failed with that message.
    Finish(Result<(), String>),
}

/// The state of a task.
pub struct RangeState {
    pub start: u64,
    pub end: u64,
    pub condition: Option<Seq<char>>,
    pub custom: Map<Seq<char>, Seq<Seq<u8>>>,
    pub stage: RangeStage,
    pub written: u64,
}

/// What a task wants done next, by its contents. `Finish` holds the message of a
/// failure, if it is one.
pub enum RangeStep {
    Acquire,
    Request(Map<Seq<char>, Seq<Seq<u8>>>),
    Open,
    Seek(u64),
    Read,
    Flush,
    Finish(Option<Seq<char>>),
}

impl View for RangeAction {
    type V = RangeStep;

    open spec fn view(&self) -> RangeStep {
        match self {
            RangeAction::Acquire => RangeStep::Acquire,
            RangeAction::Request(headers) => RangeStep::Request(header_fields(*headers)),
            RangeAction::Open => RangeStep::Open,
            RangeAction::Seek(position) => RangeStep::Seek(*position),
            RangeAction::Read => RangeStep::Read,
            RangeAction::Flush => RangeStep::Flush,
            RangeAction::Finish(Ok(_)) => RangeStep::Finish(None),
            RangeAction::Finish(Err(message)) => RangeStep::Finish(Some(message@)),
        }
    }
}

/// The text of a range: its first and its last byte.
pub open spec fn span_text(start: u64, end: u64) -> Seq<char> {
    decimal(start as nat) + "-"@ + decimal(end as nat)
}

/// The text of a `Content-Range` header; nothing where it is not visible ASCII.
pub open spec fn content_range_of(value: HeaderValue) -> Seq<char> {
    match value_text(value) {
        Some(text) => text,
        None => ""@,
    }
}

/// A `Content-Range` header names the range from `start` to `end`, as far as that is
/// looked at.
pub open spec fn names_range(text: Seq<char>, start: u64, end: u64) -> bool {
    begins_with(text, "bytes "@) && holds_text(text, decimal(start as nat) + "-"@) && holds_text(
        text,
        "-"@ + decimal(end as nat),
    )
}

impl RangeState {
    /// The state of a task that has not begun.
    pub open spec fn is_new(self) -> bool {
        self.stage == RangeStage::Waiting && self.written == 0 && self.start <= self.end
            < u64::MAX
    }

    /// How many bytes the range has.
    pub open spec fn expected(self) -> int {
        self.end - self.start + 1
    }

    /// The same task, waiting for something else.
    pub open spec fn at(self, stage: RangeStage) -> RangeState {
        RangeState { stage, ..self }
    }

    /// An event can follow what the task last asked for.
    pub open spec fn awaits(self, event: RangeEvent) -> bool {
        match self.stage {
            RangeStage::Waiting | RangeStage::Opening | RangeStage::Seeking
            | RangeStage::Flushing => event is Done || event is Failed,
            RangeStage::Requesting => event is Replied || event is Failed,
            RangeStage::Streaming => match event {
                RangeEvent::Wrote(count) => self.written + count <= u64::MAX,
                RangeEvent::Failed(_) | RangeEvent::WriteFailed | RangeEvent::Ended
                | RangeEvent::TimedOut => true,
                _ => false,
            },
            RangeStage::Finished => false,
        }
    }

    /// The task has failed with that message.
    pub open spec fn failed(self, message: Seq<char>) -> (RangeState, RangeStep) {
        (self.at(RangeStage::Finished), RangeStep::Finish(Some(message)))
    }

    /// What follows the reply of the server.
    pub open spec fn replied(
        self,
        status: StatusCode,
        content_range: Option<HeaderValue>,
    ) -> (RangeState, RangeStep) {
        if status_number(status) != 206 {
            self.failed(
                "server did not return 206 for range "@ + span_text(self.start, self.end)
                    + " (got "@ + status_line(status) + ")"@,
            )
        } else {
            match content_range {
                Some(value) if !names_range(content_range_of(value), self.start, self.end) =>
                self.failed("unexpected Content-Range: "@ + content_range_of(value)),
                _ => (self.at(RangeStage::Opening), RangeStep::Open),
            }
        }
    }

    /// What follows the end of the body.
    pub open spec fn ended(self) -> (RangeState, RangeStep) {
        if self.written != self.expected() {
            self.failed(
                "short write for range "@ + span_text(self.start, self.end) + ": wrote "@ + decimal(
                    self.written as nat,
                ) + ", expected "@ + decimal(self.expected() as nat),
            )
        } else {
            (self.at(RangeStage::Flushing), RangeStep::Flush)
        }
    }

    /// The state after an event, and what is wanted next.
    pub open spec fn after(self, event: RangeEvent) -> (RangeState, RangeStep) {
        match self.stage {
            RangeStage::Waiting => match event {
                RangeEvent::Done => (
                    self.at(RangeStage::Requesting),
                    RangeStep::Request(
                        range_fields(self.custom, self.start, self.end, self.condition),
                    ),
                ),
                _ => self.failed("semaphore closed"@),
            },
            RangeStage::Requesting => match event {
                RangeEvent::Replied { status, content_range } => self.replied(
                    status,
                    content_range,
                ),
                _ => self.failed("range request failed"@),
            },
            RangeStage::Opening => match event {
                RangeEvent::Done => (self.at(RangeStage::Seeking), RangeStep::Seek(self.start)),
                _ => self.failed("open tmp for ranged write failed"@),
            },
            RangeStage::Seeking => match event {
                RangeEvent::Done => (self.at(RangeStage::Streaming), RangeStep::Read),
                _ => self.failed("seek failed"@),
            },
            RangeStage::Streaming => match event {
                RangeEvent::Wrote(count) => (
                    RangeState { written: (self.written + count) as u64, ..self },
                    RangeStep::Read,
                ),
                RangeEvent::WriteFailed => self.failed("write_all failed"@),
                RangeEvent::Failed(message) => self.failed(message@),
                RangeEvent::Ended => self.ended(),
                _ => self.failed(
                    "timeout while reading range "@ + span_text(self.start, self.end),
                ),
            },
            RangeStage::Flushing => match event {
                RangeEvent::Done => (self.at(RangeStage::Finished), RangeStep::Finish(None)),
                _ => self.failed("flush failed"@),
            },
            RangeStage::Finished => (self, RangeStep::Finish(None)),
        }
    }
}

/// The fetching of one range of a resource.
#[derive(Debug)]
pub struct RangeTask {
    start: u64,
    end: u64,
    condition: Option<IfRange>,
    headers: Option<HeaderMap>,
    stage: RangeStage,
    written: u64,
}

impl View for RangeTask {
    type V = RangeState;

    closed spec fn view(&self) -> RangeState {
        RangeState {
            start: self.start,
            end: self.end,
            condition: condition_text(self.condition),
            custom: custom_fields(self.headers),
            stage: self.stage,
            written: self.written,
        }
    }
}

/// Whether a `Content-Range` header names the range from `start` to `end`.
pub fn range_is_named(text: &str, start: u64, end: u64) -> (r: bool)
    ensures
        r == names_range(text@, start, end),
{
    let mut first = decimal_text(start);
    first.append("-");
    let mut last = "-".to_owned();
    last.append(decimal_text(end).as_str());
    starts_with(text, "bytes ") && contains(text, first.as_str()) && contains(text, last.as_str())
}

/// The text of a range, put behind another text.
fn append_span(text: &mut String, start: u64, end: u64)
    ensures
        final(text)@ == old(text)@ + span_text(start, end),
{
    let mut span = decimal_text(start);
    span.append("-");
    span.append(decimal_text(end).as_str());
    text.append(span.as_str());
}

impl RangeTask {
    #[verifier::type_invariant]
    pub closed spec fn well_formed(self) -> bool {
        self.start <= self.end < u64::MAX && custom_fits(self.headers) && can_be_sent(
            self.condition,
        )
    }

    /// The task of fetching the bytes from `start` to `end`.
    pub(crate) fn new(
        start: u64,
        end: u64,
        condition: Option<IfRange>,
        headers: &Option<HeaderMap>,
    ) -> (r: Self)
        requires
            start <= end < u64::MAX,
            custom_fits(*headers),
            can_be_sent(condition),
        ensures
            r@ == (RangeState {
                start,
                end,
                condition: condition_text(condition),
                custom: custom_fields(*headers),
                stage: RangeStage::Waiting,
                written: 0,
            }),
    {
        RangeTask {
            start,
            end,
            condition,
            headers: match headers {
                Some(map) => Some(copy_headers(map)),
                None => None,
            },
            stage: RangeStage::Waiting,
            written: 0,
        }
    }

    /// The first byte of the range.
    pub fn start(&self) -> (r: u64)
        ensures
            r == self@.start,
    {
        self.start
    }

    /// The last byte of the range.
    pub fn end(&self) -> (r: u64)
        ensures
            r == self@.end,
    {
        self.end
    }

    /// What the task begins with.
    pub fn first_action(&self) -> (r: RangeAction)
        ensures
            r@ == RangeStep::Acquire,
    {
        RangeAction::Acquire
    }

    /// Whether an event can follow what the task last asked for.
    pub fn awaits(&self, event: &RangeEvent) -> (r: bool)
        ensures
            r == self@.awaits(*event),
    {
        match self.stage {
            RangeStage::Waiting | RangeStage::Opening | RangeStage::Seeking
            | RangeStage::Flushing => match event {
                RangeEvent::Done | RangeEvent::Failed(_) => true,
                _ => false,
            },
            RangeStage::Requesting => match event {
                RangeEvent::Replied { status: _, content_range: _ } | RangeEvent::Failed(_) => true,
                _ => false,
            },
            RangeStage::Streaming => match event {
                RangeEvent::Wrote(count) => *count <= u64::MAX - self.written,
                RangeEvent::Failed(_) | RangeEvent::WriteFailed | RangeEvent::Ended
                | RangeEvent::TimedOut => true,
                _ => false,
            },
            RangeStage::Finished => false,
        }
    }

    /// Ends the task with a failure.
    fn fail(&mut self, message: &str) -> (r: RangeAction)
        ensures
            (final(self)@, r@) == old(self)@.failed(message@),
    {
        proof {
            use_type_invariant(&*self);
        }
        self.stage = RangeStage::Finished;
        RangeAction::Finish(Err(message.to_owned()))
    }

    /// Asks for the next step.
    fn go_on(&mut self, stage: RangeStage, action: RangeAction) -> (r: RangeAction)
        ensures
            final(self)@ == old(self)@.at(stage),
            r == action,
    {
        proof {
            use_type_invariant(&*self);
        }
        self.stage = stage;
        action
    }

    /// Takes the reply of the server.
    fn on_reply(&mut self, status: StatusCode, content_range: Option<HeaderValue>) -> (r:
        RangeAction)
        ensures
            (final(self)@, r@) == old(self)@.replied(status, content_range),
    {
        if status_as_number(&status) != 206 {
            let mut message = "server did not return 206 for range ".to_owned();
            append_span(&mut message, self.start, self.end);
            message.append(" (got ");
            message.append(status_text(&status).as_str());
            message.append(")");
            return self.fail(message.as_str());
        }
        if let Some(value) = &content_range {
            let text = match value_to_str(value) {
                Some(text) => text,
                None => "",
            };
            if !range_is_named(text, self.start, self.end) {
                let mut message = "unexpected Content-Range: ".to_owned();
                message.append(text);
                return self.fail(message.as_str());
            }
        }
        self.go_on(RangeStage::Opening, RangeAction::Open)
    }

    /// Takes the end of the body.
    fn on_end(&mut self) -> (r: RangeAction)
        ensures
            (final(self)@, r@) == old(self)@.ended(),
    {
        proof {
            use_type_invariant(&*self);
        }
        let expected: u64 = self.end - self.start + 1;
        if self.written != expected {
            let mut message = "short write for range ".to_owned();
            append_span(&mut message, self.start, self.end);
            message.append(": wrote ");
            message.append(decimal_text(self.written).as_str());
            message.append(", expected ");
            message.append(decimal_text(expected).as_str());
            return self.fail(message.as_str());
        }
        self.go_on(RangeStage::Flushing, RangeAction::Flush)
    }

    /// Takes what came of the body.
    fn on_body(&mut self, event: RangeEvent) -> (r: RangeAction)
        requires
            old(self)@.stage == RangeStage::Streaming,
            old(self)@.awaits(event),
        ensures
            (final(self)@, r@) == old(self)@.after(event),
    {
        match event {
            RangeEvent::Wrote(count) => {
                proof {
                    use_type_invariant(&*self);
                }
                self.written = self.written + count;
                RangeAction::Read
            },
            RangeEvent::WriteFailed => self.fail("write_all failed"),
            RangeEvent::Failed(message) => self.fail(message.as_str()),
            RangeEvent::Ended => self.on_end(),
            _ => {
                let mut message = "timeout while reading range ".to_owned();
                append_span(&mut message, self.start, self.end);
                self.fail(message.as_str())
            },
        }
    }

    /// Takes an event, and says what is wanted next.
    pub fn step(&mut self, event: RangeEvent) -> (r: RangeAction)
        requires
            old(self)@.awaits(event),
        ensures
            (final(self)@, r@) == old(self)@.after(event),
    {
        match self.stage {
            RangeStage::Waiting => match event {
                RangeEvent::Done => {
                    proof {
                        use_type_invariant(&*self);
                    }
                    let condition = match &self.condition {
                        Some(condition) => Some(condition.value()),
                        None => None,
                    };
                    let headers = range_headers(&self.headers, self.start, self.end, condition);
                    self.go_on(RangeStage::Requesting, RangeAction::Request(headers))
                },
                _ => self.fail("semaphore closed"),
            },
            RangeStage::Requesting => match event {
                RangeEvent::Replied { status, content_range } => self.on_reply(
                    status,
                    content_range,
                ),
                _ => self.fail("range request failed"),
            },
            RangeStage::Opening => match event {
                RangeEvent::Done => {
                    let start: u64 = self.start;
                    self.go_on(RangeStage::Seeking, RangeAction::Seek(start))
                },
                _ => self.fail("open tmp for ranged write failed"),
            },
            RangeStage::Seeking => match event {
                RangeEvent::Done => self.go_on(RangeStage::Streaming, RangeAction::Read),
                _ => self.fail("seek failed"),
            },
            RangeStage::Streaming => self.on_body(event),
            RangeStage::Flushing => match event {
                RangeEvent::Done => self.go_on(RangeStage::Finished, RangeAction::Finish(Ok(()))),
                _ => self.fail("flush failed"),
            },
            RangeStage::Finished => RangeAction::Finish(Ok(())),
        }
    }
}

/// The state after a row of events.
pub open spec fn run(state: RangeState, events: Seq<RangeEvent>) -> RangeState
    decreases events.len(),
{
    if events.len() == 0 {
        state
    } else {
        run(state, events.drop_last()).after(events.last()).0
    }
}

/// What is wanted after a row of events.
pub open spec fn last_step(state: RangeState, events: Seq<RangeEvent>) -> RangeStep {
    if events.len() == 0 {
        RangeStep::Acquire
    } else {
        run(state, events.drop_last()).after(events.last()).1
    }
}

/// A row of events each of which can follow what the task had asked for.
pub open spec fn is_history(state: RangeState, events: Seq<RangeEvent>) -> bool
    decreases events.len(),
{
    events.len() == 0 || (is_history(state, events.drop_last()) && run(
        state,
        events.drop_last(),
    ).awaits(events.last()))
}

/// How many bytes a row of events says were written.
pub open spec fn bytes_written(events: Seq<RangeEvent>) -> int
    decreases events.len(),
{
    if events.len() == 0 {
        0
    } else {
        bytes_written(events.drop_last()) + match events.last() {
            RangeEvent::Wrote(count) => count as int,
            _ => 0,
        }
    }
}

/// The server sends the range from `start` to `end`: a part, and under no other name.
pub open spec fn sends_range(event: RangeEvent, start: u64, end: u64) -> bool {
    event matches RangeEvent::Replied { status, content_range } && status_number(status) == 206 && (
    content_range matches Some(value) ==> names_range(content_range_of(value), start, end))
}

/// A stage that comes after the reply of the server, while nothing has failed.
pub open spec fn is_behind_reply(stage: RangeStage) -> bool {
    stage == RangeStage::Opening || stage == RangeStage::Seeking || stage == RangeStage::Streaming
        || stage == RangeStage::Flushing
}

/// What every history of a task keeps.
proof fn lemma_history(state: RangeState, events: Seq<RangeEvent>)
    requires
        state.is_new(),
        is_history(state, events),
    ensures
        run(state, events).start == state.start,
        run(state, events).end == state.end,
        run(state, events).written == bytes_written(events),
        is_behind_reply(run(state, events).stage) || last_step(state, events) == RangeStep::Finish(
            None,
        ) ==> exists|i: int|
            0 <= i < events.len() && sends_range(#[trigger] events[i], state.start, state.end),
        run(state, events).stage == RangeStage::Flushing || last_step(state, events)
            == RangeStep::Finish(None) ==> run(state, events).written == state.expected(),
        last_step(state, events) is Finish <==> run(state, events).stage == RangeStage::Finished,
    decreases events.len(),
{
    if events.len() > 0 {
        let before = events.drop_last();
        lemma_history(state, before);
        if is_behind_reply(run(state, before).stage) {
            let i = choose|i: int|
                0 <= i < before.len() && sends_range(#[trigger] before[i], state.start, state.end);
            assert(events[i] == before[i]);
        } else if sends_range(events.last(), state.start, state.end) {
            assert(sends_range(events[events.len() - 1], state.start, state.end));
        }
    }
}

/// A range that is reported to be there is complete: the server sent that range, and
/// just as many bytes were written as it has.
pub proof fn law_finished_range_is_complete(state: RangeState, events: Seq<RangeEvent>)
    requires
        state.is_new(),
        is_history(state, events),
        last_step(state, events) == RangeStep::Finish(None),
    ensures
        bytes_written(events) == state.expected(),
        exists|i: int|
            0 <= i < events.len() && sends_range(#[trigger] events[i], state.start, state.end),
{
    lemma_history(state, events);
}

/// Nothing is written before the server has sent the range that was asked for.
pub proof fn law_range_is_sent_before_writing(state: RangeState, events: Seq<RangeEvent>)
    requires
        state.is_new(),
        is_history(state, events),
        last_step(state, events) is Open || last_step(state, events) is Seek || last_step(
            state,
            events,
        ) is Read || last_step(state, events) is Flush,
    ensures
        exists|i: int|
            0 <= i < events.len() && sends_range(#[trigger] events[i], state.start, state.end),
        last_step(state, events) matches RangeStep::Seek(position) ==> position == state.start,
{
    lemma_history(state, events);
    lemma_history(state, events.drop_last());
}

/// A task that has finished takes no more events.
pub proof fn law_finish_is_final(state: RangeState, events: Seq<RangeEvent>, event: RangeEvent)
    requires
        state.is_new(),
        is_history(state, events),
        last_step(state, events) is Finish,
    ensures
        !run(state, events).awaits(event),
{
    lemma_history(state, events);
}

/// The events of a body that comes in pieces of these sizes.
pub open spec fn body_events(sizes: Seq<u64>) -> Seq<RangeEvent> {
    Seq::new(sizes.len(), |i: int| RangeEvent::Wrote(sizes[i]))
}

/// How many bytes pieces of these sizes have together.
pub open spec fn size_of_all(sizes: Seq<u64>) -> int
    decreases sizes.len(),
{
    if sizes.len() == 0 {
        0
    } else {
        size_of_all(sizes.drop_last()) + sizes.last()
    }
}

/// The events of a fetching in which nothing goes wrong.
pub open spec fn smooth_events(reply: RangeEvent, sizes: Seq<u64>) -> Seq<RangeEvent> {
    seq![RangeEvent::Done, reply, RangeEvent::Done, RangeEvent::Done] + body_events(sizes) + seq![
        RangeEvent::Ended,
        RangeEvent::Done,
    ]
}

/// The state while the body comes in.
proof fn lemma_body_comes(state: RangeState, reply: RangeEvent, sizes: Seq<u64>)
    requires
        state.is_new(),
        sends_range(reply, state.start, state.end),
        size_of_all(sizes) <= u64::MAX,
    ensures
        ({
            let events = seq![RangeEvent::Done, reply, RangeEvent::Done, RangeEvent::Done]
                + body_events(sizes);
            is_history(state, events) && run(state, events) == (RangeState {
                stage: RangeStage::Streaming,
                written: size_of_all(sizes) as u64,
                ..state
            }) && size_of_all(sizes) >= 0
        }),
    decreases sizes.len(),
{
    let opening = seq![RangeEvent::Done, reply, RangeEvent::Done, RangeEvent::Done];
    let events = opening + body_events(sizes);
    if sizes.len() == 0 {
        assert(events =~= opening);
        let e3 = opening.drop_last();
        let e2 = e3.drop_last();
        let e1 = e2.drop_last();
        assert(e3 =~= seq![RangeEvent::Done, reply, RangeEvent::Done]);
        assert(e2 =~= seq![RangeEvent::Done, reply]);
        assert(e1 =~= seq![RangeEvent::Done]);
        assert(e1.drop_last() =~= Seq::<RangeEvent>::empty());
        assert(is_history(state, e1.drop_last()));
        assert(is_history(state, e1) && run(state, e1) == state.at(RangeStage::Requesting));
        assert(is_history(state, e2) && run(state, e2) == state.at(RangeStage::Opening));
        assert(is_history(state, e3) && run(state, e3) == state.at(RangeStage::Seeking));
    } else {
        lemma_size_grows(sizes);
        lemma_body_comes(state, reply, sizes.drop_last());
        assert(events.drop_last() =~= opening + body_events(sizes.drop_last()));
        assert(events.last() == RangeEvent::Wrote(sizes.last()));
    }
}

/// A piece more makes no body smaller.
pub proof fn lemma_size_grows(sizes: Seq<u64>)
    ensures
        size_of_all(sizes) >= 0,
        sizes.len() > 0 ==> 0 <= size_of_all(sizes.drop_last()) <= size_of_all(sizes),
    decreases sizes.len(),
{
    if sizes.len() > 0 {
        lemma_size_grows(sizes.drop_last());
    }
}

/// A range of which the server sends just as many bytes as it has, in whatever pieces,
/// is reported to be there when nothing else goes wrong.
pub proof fn law_complete_body_succeeds(state: RangeState, reply: RangeEvent, sizes: Seq<u64>)
    requires
        state.is_new(),
        sends_range(reply, state.start, state.end),
        size_of_all(sizes) == state.expected(),
    ensures
        is_history(state, smooth_events(reply, sizes)),
        last_step(state, smooth_events(reply, sizes)) == RangeStep::Finish(None),
{
    lemma_body_comes(state, reply, sizes);
    let events = smooth_events(reply, sizes);
    let body = seq![RangeEvent::Done, reply, RangeEvent::Done, RangeEvent::Done] + body_events(
        sizes,
    );
    assert(events.drop_last() =~= body.push(RangeEvent::Ended));
    assert(events.drop_last().drop_last() =~= body);
    assert(events.last() == RangeEvent::Done);
    assert(run(state, body).awaits(RangeEvent::Ended));
    assert(is_history(state, events.drop_last()));
    assert(run(state, events.drop_last()).stage == RangeStage::Flushing);
}

/// The header by which a server names the range that it sends is taken as a name of
/// that range.
pub proof fn law_content_range_is_accepted(start: u64, end: u64, total: u64)
    ensures
        names_range(content_range_text(start, end, total), start, end),
{
    let first = decimal(start as nat);
    let last = decimal(end as nat);
    let rest = "/"@ + decimal(total as nat);
    let text = content_range_text(start, end, total);
    assert(text =~= Seq::<char>::empty() + "bytes "@ + (first + "-"@ + last + rest));
    law_part_occurs(Seq::empty(), "bytes "@, first + "-"@ + last + rest);
    assert(text =~= "bytes "@ + (first + "-"@) + (last + rest));
    law_part_occurs("bytes "@, first + "-"@, last + rest);
    assert(text =~= ("bytes "@ + first) + ("-"@ + last) + rest);
    law_part_occurs("bytes "@ + first, "-"@ + last, rest);
}

/// A `Content-Range` header names a range just when its text begins with `bytes `, and
/// holds somewhere the first byte before a hyphen and somewhere the last byte behind one.
pub proof fn law_named_range_has_its_ends(text: Seq<char>, start: u64, end: u64)
    ensures
        names_range(text, start, end) <==> "bytes "@.is_prefix_of(text) && (exists|i: int|
            0 <= i <= text.len() && (decimal(start as nat) + "-"@).is_prefix_of(
                #[trigger] text.skip(i),
            )) && (exists|i: int|
            0 <= i <= text.len() && ("-"@ + decimal(end as nat)).is_prefix_of(
                #[trigger] text.skip(i),
            )),
{
    law_beginning_is_a_prefix(text, "bytes "@);
    law_held_text_begins_somewhere(text, decimal(start as nat) + "-"@);
    law_held_text_begins_somewhere(text, "-"@ + decimal(end as nat));
}

/// Where a task that has not finished stands, by the events that it took.
proof fn lemma_stage(state: RangeState, events: Seq<RangeEvent>)
    requires
        state.is_new(),
        is_history(state, events),
    ensures
        ({
            let now = run(state, events);
            &&& now.start == state.start && now.end == state.end
            &&& now.custom == state.custom && now.condition == state.condition
            &&& now.written == bytes_written(events)
            &&& now.stage != RangeStage::Finished ==> now.stage == (if events.len() == 0 {
                RangeStage::Waiting
            } else if events.len() == 1 {
                RangeStage::Requesting
            } else if events.len() == 2 {
                RangeStage::Opening
            } else if events.len() == 3 {
                RangeStage::Seeking
            } else if events.last() is Ended {
                RangeStage::Flushing
            } else {
                RangeStage::Streaming
            })
        }),
    decreases events.len(),
{
    if events.len() > 0 {
        lemma_stage(state, events.drop_last());
    }
}

/// What a task wants until the body comes in: to wait for its turn; to send a request for
/// its range; on a reply with the status 206 that names no other range, to open the file
/// and to go to the first byte of the range. Whatever else comes ends the task, with a
/// message that tells why.
pub proof fn law_task_asks_for_its_range(state: RangeState, events: Seq<RangeEvent>)
    requires
        state.is_new(),
        is_history(state, events),
        events.len() <= 4,
    ensures
        ({
            let n = events.len();
            let last = events.last();
            let step = last_step(state, events);
            &&& n == 0 ==> step == RangeStep::Acquire
            &&& n == 1 && last is Done ==> step == RangeStep::Request(
                range_fields(state.custom, state.start, state.end, state.condition),
            )
            &&& n == 1 && last !is Done ==> step == RangeStep::Finish(Some("semaphore closed"@))
            &&& n == 2 && last !is Replied ==> step == RangeStep::Finish(
                Some("range request failed"@),
            )
            &&& n == 3 && last is Done ==> step == RangeStep::Seek(state.start)
            &&& n == 3 && last !is Done ==> step == RangeStep::Finish(
                Some("open tmp for ranged write failed"@),
            )
            &&& n == 4 && last is Done ==> step == RangeStep::Read
            &&& n == 4 && last !is Done ==> step == RangeStep::Finish(Some("seek failed"@))
        }),
{
    if events.len() > 0 {
        lemma_stage(state, events.drop_last());
    }
}

/// What follows the reply of the server: the file is opened just where the status is 206
/// and a `Content-Range` header, if there is one, names the range. Any other status, and
/// any other range, ends the task and is told.
pub proof fn law_only_the_range_is_taken(
    state: RangeState,
    events: Seq<RangeEvent>,
    status: StatusCode,
    content_range: Option<HeaderValue>,
)
    requires
        state.is_new(),
        is_history(state, events),
        events.len() > 0,
        events.last() == (RangeEvent::Replied { status, content_range }),
    ensures
        ({
            let step = last_step(state, events);
            let number = status_number(status);
            let text = if content_range is Some && value_text(content_range->0) is Some {
                value_text(content_range->0)->0
            } else {
                ""@
            };
            if number != 206 {
                step == RangeStep::Finish(
                    Some(
                        "server did not return 206 for range "@ + (decimal(state.start as nat)
                            + "-"@ + decimal(state.end as nat)) + " (got "@ + (decimal(
                            number as nat,
                        ) + seq![' '] + reason_phrase(number)) + ")"@,
                    ),
                )
            } else if content_range is Some && !names_range(text, state.start, state.end) {
                step == RangeStep::Finish(Some("unexpected Content-Range: "@ + text))
            } else {
                step == RangeStep::Open
            }
        }),
{
    lemma_stage(state, events.drop_last());
}

/// What a task wants while the body comes in: each piece that was written is followed by
/// the next; the end of the body by a flush just where as many bytes were written as the
/// range has, and the range is there once that is done. Whatever else comes ends the
/// task, with a message that tells why.
pub proof fn law_task_writes_its_range(state: RangeState, events: Seq<RangeEvent>)
    requires
        state.is_new(),
        is_history(state, events),
        events.len() > 4,
    ensures
        ({
            let last = events.last();
            let step = last_step(state, events);
            let span = decimal(state.start as nat) + "-"@ + decimal(state.end as nat);
            let length = state.end - state.start + 1;
            &&& last is Wrote ==> step == RangeStep::Read
            &&& last is WriteFailed ==> step == RangeStep::Finish(Some("write_all failed"@))
            &&& last is TimedOut ==> step == RangeStep::Finish(
                Some("timeout while reading range "@ + span),
            )
            &&& last is Ended && bytes_written(events) == length ==> step == RangeStep::Flush
            &&& last is Ended && bytes_written(events) != length ==> step == RangeStep::Finish(
                Some(
                    "short write for range "@ + span + ": wrote "@ + decimal(
                        bytes_written(events) as nat,
                    ) + ", expected "@ + decimal(length as nat),
                ),
            )
            &&& last is Done ==> step == RangeStep::Finish(None)
            &&& last matches RangeEvent::Failed(message) ==> step == RangeStep::Finish(
                Some(
                    if events[events.len() - 2] is Ended {
                        "flush failed"@
                    } else {
                        message@
                    },
                ),
            )
        }),
{
    lemma_stage(state, events.drop_last());
    assert(events.drop_last().last() == events[events.len() - 2]);
}

/// What can follow what a task wants: that it is done or failed; a reply to a request;
/// of the body a piece, its end, a failure or nothing in time; and nothing behind the end.
pub proof fn law_task_awaits_what_it_asked_for(
    state: RangeState,
    events: Seq<RangeEvent>,
    event: RangeEvent,
)
    requires
        state.is_new(),
        is_history(state, events),
    ensures
        run(state, events).awaits(event) <==> match last_step(state, events) {
            RangeStep::Acquire | RangeStep::Open | RangeStep::Seek(_) | RangeStep::Flush => event
                is Done || event is Failed,
            RangeStep::Request(_) => event is Replied || event is Failed,
            RangeStep::Read => (event is Wrote && bytes_written(events) + event->Wrote_0
                <= u64::MAX) || event is Failed || event is WriteFailed || event is Ended
                || event is TimedOut,
            RangeStep::Finish(_) => false,
        },
{
    lemma_stage(state, events);
    if events.len() > 0 {
        lemma_stage(state, events.drop_last());
    }
}

/// What a task wants shows as what it is.
pub proof fn law_range_actions_show_what_they_are(
    headers: HeaderMap,
    position: u64,
    message: String,
)
    ensures
        RangeAction::Acquire@ == RangeStep::Acquire,
        RangeAction::Request(headers)@ == RangeStep::Request(header_fields(headers)),
        RangeAction::Open@ == RangeStep::Open,
        RangeAction::Seek(position)@ == RangeStep::Seek(position),
        RangeAction::Read@ == RangeStep::Read,
        RangeAction::Flush@ == RangeStep::Flush,
        RangeAction::Finish(Ok(()))@ == RangeStep::Finish(None),
        RangeAction::Finish(Err(message))@ == RangeStep::Finish(Some(message@)),
{
}

} // verus!
