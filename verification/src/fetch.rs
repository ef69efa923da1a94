//! The fetching of one resource, step by step.
//!
//! A fetch says what is to be done next, and is told how that went.
use crate::chunks::{
    bytes_in, count_ranges, law_each_byte_in_one_range, law_ranges_are_contiguous,
    law_ranges_hold_all_bytes, permits, permits_for, ranges_of, split_ranges,
};
use crate::http::{
    copy_headers, header_fields, is_success, reason_phrase, status_code, status_line,
    status_number, status_text, succeeded,
};
use crate::probe::{can_be_sent, condition_text, IfRange, Probe};
use crate::range_task::{
    self, law_finished_range_is_complete, lemma_size_grows, size_of_all, RangeEvent, RangeStage,
    RangeState, RangeStep, RangeTask,
};
use crate::request::{custom_fields, custom_fits, whole_fields, whole_headers};
use crate::resource::{Resource, Status, Summary};
use crate::text::decimal;
use reqwest::header::HeaderMap;
use reqwest::StatusCode;
use vstd::prelude::*;

verus! {

/// How far a fetch has come: what it waits for.
#[derive(Debug, Clone, Copy, PartialEq, Eq)]
pub enum FetchStage {
    /// The directory of the file.
    Directory,
    /// What the server says of the resource.
    Probing,
    /// The length of a file that is already there.
    Inspecting,
    /// The file to write to, for the resource as a whole.
    OpeningWhole,
    /// The reply of the server.
    Requesting,
    /// The body of the reply.
    Streaming,
    /// The end of all writing.
    Flushing,
    /// The file under its final name, for the resource as a whole.
    RenamingWhole,
    /// The file to write to, for the resource in ranges.
    OpeningParts,
    /// The file in its full length.
    Sizing,
    /// All ranges.
    Gathering,
    /// The file under its final name, for the resource in ranges.
    RenamingParts,
    /// Nothing.
    Finished,
}

/// How the step went that a fetch asked for.
#[derive(Debug)]
pub enum FetchEvent {
    /// It is done.
    Done,
    /// It failed, with that message.
    Failed(String),
    /// The server was probed.
    Probed(Probe),
    /// The length of the file that is already there, if there is one.
    Found(Option<u64>),
    /// The server replied, with that status code.
    Replied(StatusCode),
    /// That many bytes of the body came, and were written.
    Wrote(u64),
    /// The body has ended.
    Ended,
    /// Nothing of the body came in time.
    TimedOut,
    /// Each range, in order, was fetched or failed with a message.
    Gathered(Vec<Result<(), String>>),
}

/// What becomes of the progress bar of a fetch in the end.
#[derive(Debug, Clone, Copy, PartialEq, Eq)]
pub enum BarEnd {
    /// It is left as it is.
    Left,
    /// It is finished, and stays.
    Finished,
    /// It is finished, and goes.
    Cleared,
}

/// How a fetch ends.
#[derive(Debug)]
pub struct Ending {
    pub summary: Summary,
    pub bar: BarEnd,
    /// The bar over all downloads goes one further.
    pub counted: bool,
}

/// What a fetch wants done next.
#[derive(Debug)]
pub enum FetchAction {
    /// Make the directory that the file is to be in.
    CreateDirectory,
    /// Probe the server.
    Probe,
    /// Show a bar of that length, and look what length the file has, if it is there.
    Inspect(u64),
    /// Make the file to write to, empty.
    Open,
    /// Send a request with these headers.
    Request(HeaderMap),
    /// Wait for bytes of the body, and write them.
    Read,
    /// See that all that was written is in the file.
    Flush,
    /// Give the file that length.
    SetLength(u64),
    /// Do these tasks, so many at a time.
    Gather { tasks: Vec<RangeTask>, permits: usize },
    /// Give the file its final name.
    Rename,
    /// Nothing more.
    Finish(Ending),
}

/// How a download ended, by its contents.
pub enum Outcome {
    NotStarted,
    Failed(Seq<char>),
    Skipped(Seq<char>),
    Success,
}

/// How a fetch ends, by its contents.
pub struct EndState {
    pub resource: Resource,
    pub code: u16,
    pub size: u64,
    pub outcome: Outcome,
    pub bar: BarEnd,
    pub counted: bool,
}

/// What a fetch wants done next, by its contents.
pub enum FetchStep {
    CreateDirectory,
    Probe,
    Inspect(u64),
    Open,
    Request(Map<Seq<char>, Seq<Seq<u8>>>),
    Read,
    Flush,
    SetLength(u64),
    Gather(Seq<RangeState>, usize),
    Rename,
    Finish(EndState),
}

impl View for Status {
    type V = Outcome;

    open spec fn view(&self) -> Outcome {
        match self {
            Status::NotStarted => Outcome::NotStarted,
            Status::Fail(message) => Outcome::Failed(message@),
            Status::Skipped(message) => Outcome::Skipped(message@),
            Status::Success => Outcome::Success,
        }
    }
}

impl View for Ending {
    type V = EndState;

    open spec fn view(&self) -> EndState {
        EndState {
            resource: self.summary.resource(),
            code: status_number(self.summary.code()),
            size: self.summary.bytes(),
            outcome: self.summary.outcome()@,
            bar: self.bar,
            counted: self.counted,
        }
    }
}

/// The states of a row of tasks.
pub open spec fn task_states(tasks: Seq<RangeTask>) -> Seq<RangeState> {
    Seq::new(tasks.len(), |i: int| tasks[i]@)
}

impl View for FetchAction {
    type V = FetchStep;

    open spec fn view(&self) -> FetchStep {
        match self {
            FetchAction::CreateDirectory => FetchStep::CreateDirectory,
            FetchAction::Probe => FetchStep::Probe,
            FetchAction::Inspect(total) => FetchStep::Inspect(*total),
            FetchAction::Open => FetchStep::Open,
            FetchAction::Request(headers) => FetchStep::Request(header_fields(*headers)),
            FetchAction::Read => FetchStep::Read,
            FetchAction::Flush => FetchStep::Flush,
            FetchAction::SetLength(total) => FetchStep::SetLength(*total),
            FetchAction::Gather { tasks, permits } => FetchStep::Gather(
                task_states(tasks@),
                *permits,
            ),
            FetchAction::Rename => FetchStep::Rename,
            FetchAction::Finish(ending) => FetchStep::Finish(ending@),
        }
    }
}

/// The message of the first range that failed, if one did.
pub open spec fn first_failure(results: Seq<Result<(), String>>) -> Option<Seq<char>>
    decreases results.len(),
{
    if results.len() == 0 {
        None
    } else {
        match results[0] {
            Err(message) => Some(message@),
            Ok(_) => first_failure(results.skip(1)),
        }
    }
}

/// The state of a fetch.
pub struct FetchState {
    pub resource: Resource,
    pub custom: Map<Seq<char>, Seq<Seq<u8>>>,
    pub chunk: u64,
    pub allowed: usize,
    pub clear: bool,
    pub stage: FetchStage,
    pub total: u64,
    pub ranged: bool,
    pub condition: Option<Seq<char>>,
    pub written: u64,
}

impl FetchState {
    /// The state of a fetch that has not begun.
    pub open spec fn is_new(self) -> bool {
        self.stage == FetchStage::Directory && self.total == 0 && !self.ranged && self.condition
            is None && self.written == 0
    }

    /// The same fetch, waiting for something else.
    pub open spec fn at(self, stage: FetchStage) -> FetchState {
        FetchState { stage, ..self }
    }

    /// The bar in the end, where it is finished.
    pub open spec fn bar_end(self) -> BarEnd {
        if self.clear {
            BarEnd::Cleared
        } else {
            BarEnd::Finished
        }
    }

    /// An event can follow what the fetch last asked for. Nothing is split into ranges
    /// of no bytes, and each range has one result.
    pub open spec fn awaits(self, event: FetchEvent) -> bool {
        match self.stage {
            FetchStage::Directory | FetchStage::OpeningWhole | FetchStage::Flushing
            | FetchStage::RenamingWhole | FetchStage::OpeningParts | FetchStage::RenamingParts =>
            event is Done || event is Failed,
            FetchStage::Probing => event is Probed || event is Failed,
            FetchStage::Inspecting => event is Found,
            FetchStage::Requesting => event is Replied || event is Failed,
            FetchStage::Streaming => match event {
                FetchEvent::Wrote(count) => self.written + count <= u64::MAX,
                FetchEvent::Failed(_) | FetchEvent::Ended | FetchEvent::TimedOut => true,
                _ => false,
            },
            FetchStage::Sizing => (event is Done && self.chunk > 0) || event is Failed,
            FetchStage::Gathering => match event {
                FetchEvent::Gathered(results) => self.chunk > 0 && results@.len() == ranges_of(
                    self.total,
                    self.chunk,
                ).len(),
                FetchEvent::Failed(_) => true,
                _ => false,
            },
            FetchStage::Finished => false,
        }
    }

    /// The fetch has ended in that way.
    pub open spec fn finished(
        self,
        code: u16,
        size: u64,
        outcome: Outcome,
        bar: BarEnd,
        counted: bool,
    ) -> (FetchState, FetchStep) {
        (
            self.at(FetchStage::Finished),
            FetchStep::Finish(
                EndState { resource: self.resource, code, size, outcome, bar, counted },
            ),
        )
    }

    /// The fetch has failed with that message.
    pub open spec fn failed(self, message: Seq<char>, bar: BarEnd) -> (FetchState, FetchStep) {
        self.finished(400, 0, Outcome::Failed(message), bar, false)
    }

    /// The fetch has succeeded; the resource has that many bytes.
    pub open spec fn succeeded(self, size: u64) -> (FetchState, FetchStep) {
        self.finished(200, size, Outcome::Success, self.bar_end(), true)
    }

    /// What follows once it is known whether the file is already there.
    pub open spec fn inspected(self, found: Option<u64>) -> (FetchState, FetchStep) {
        if found == Some(self.total) && self.total > 0 {
            self.finished(
                400,
                0,
                Outcome::Skipped("the file was already fully downloaded"@),
                self.bar_end(),
                true,
            )
        } else if !self.ranged || self.total == 0 {
            (self.at(FetchStage::OpeningWhole), FetchStep::Open)
        } else {
            (self.at(FetchStage::OpeningParts), FetchStep::Open)
        }
    }

    /// The task of fetching one range, before it has begun.
    pub open spec fn task(self, range: (u64, u64)) -> RangeState {
        RangeState {
            start: range.0,
            end: range.1,
            condition: self.condition,
            custom: self.custom,
            stage: RangeStage::Waiting,
            written: 0,
        }
    }

    /// The tasks that the resource is fetched by.
    pub open spec fn tasks(self) -> Seq<RangeState> {
        Seq::new(
            ranges_of(self.total, self.chunk).len(),
            |i: int| self.task(ranges_of(self.total, self.chunk)[i]),
        )
    }

    /// The state after an event, and what is wanted next. Of an event that is not
    /// awaited nothing is meant by it.
    pub open spec fn after(self, event: FetchEvent) -> (FetchState, FetchStep) {
        match (self.stage, event) {
            (FetchStage::Gathering, FetchEvent::Failed(message)) => self.failed(
                "join error: "@ + message@,
                self.bar_end(),
            ),
            (_, FetchEvent::Failed(message)) => self.failed(message@, BarEnd::Left),
            (FetchStage::Directory, _) => (self.at(FetchStage::Probing), FetchStep::Probe),
            (FetchStage::Probing, FetchEvent::Probed(probe)) => (
                FetchState {
                    stage: FetchStage::Inspecting,
                    total: probe.total(),
                    ranged: probe.ranged(),
                    condition: condition_text(probe.condition()),
                    ..self
                },
                FetchStep::Inspect(probe.total()),
            ),
            (FetchStage::Inspecting, FetchEvent::Found(found)) => self.inspected(found),
            (FetchStage::OpeningWhole, _) => (
                self.at(FetchStage::Requesting),
                FetchStep::Request(whole_fields(self.custom)),
            ),
            (FetchStage::Requesting, FetchEvent::Replied(status)) => if is_success(status) {
                (self.at(FetchStage::Streaming), FetchStep::Read)
            } else {
                self.failed("HTTP "@ + status_line(status), BarEnd::Left)
            },
            (FetchStage::Streaming, FetchEvent::Wrote(count)) => (
                FetchState { written: (self.written + count) as u64, ..self },
                FetchStep::Read,
            ),
            (FetchStage::Streaming, FetchEvent::Ended) => (
                self.at(FetchStage::Flushing),
                FetchStep::Flush,
            ),
            (FetchStage::Streaming, _) => self.failed(
                "timeout while streaming body"@,
                BarEnd::Left,
            ),
            (FetchStage::Flushing, _) => (self.at(FetchStage::RenamingWhole), FetchStep::Rename),
            (FetchStage::RenamingWhole, _) => self.succeeded(self.written),
            (FetchStage::OpeningParts, _) => (
                self.at(FetchStage::Sizing),
                FetchStep::SetLength(self.total),
            ),
            (FetchStage::Sizing, _) => (
                self.at(FetchStage::Gathering),
                FetchStep::Gather(
                    self.tasks(),
                    permits_for(self.allowed, self.tasks().len()) as usize,
                ),
            ),
            (FetchStage::Gathering, FetchEvent::Gathered(results)) => match first_failure(
                results@,
            ) {
                Some(message) => self.failed(message, self.bar_end()),
                None => (self.at(FetchStage::RenamingParts), FetchStep::Rename),
            },
            (FetchStage::RenamingParts, _) => self.succeeded(self.total),
            _ => (self, arbitrary()),
        }
    }
}

/// The fetching of one resource.
#[derive(Debug)]
pub struct Fetch {
    resource: Resource,
    headers: Option<HeaderMap>,
    chunk_size: u64,
    concurrent_chunk: usize,
    clear: bool,
    stage: FetchStage,
    total: u64,
    ranged: bool,
    condition: Option<IfRange>,
    written: u64,
}

impl View for Fetch {
    type V = FetchState;

    closed spec fn view(&self) -> FetchState {
        FetchState {
            resource: self.resource,
            custom: custom_fields(self.headers),
            chunk: self.chunk_size,
            allowed: self.concurrent_chunk,
            clear: self.clear,
            stage: self.stage,
            total: self.total,
            ranged: self.ranged,
            condition: condition_text(self.condition),
            written: self.written,
        }
    }
}

/// The message of the first range that failed, if one did.
pub fn first_error(results: &Vec<Result<(), String>>) -> (r: Option<String>)
    ensures
        match r {
            Some(message) => first_failure(results@) == Some(message@),
            None => first_failure(results@) is None,
        },
{
    let mut i: usize = 0;
    assert(results@.skip(0) =~= results@);
    while i < results.len()
        invariant
            i <= results@.len(),
            first_failure(results@) == first_failure(results@.skip(i as int)),
        decreases results.len() - i,
    {
        proof {
            assert(results@.skip(i as int)[0] == results@[i as int]);
            assert(results@.skip(i as int).skip(1) =~= results@.skip(i + 1));
        }
        if let Err(message) = &results[i] {
            return Some(message.clone());
        }
        i = i + 1;
    }
    None
}

impl Fetch {
    #[verifier::type_invariant]
    pub closed spec fn well_formed(self) -> bool {
        custom_fits(self.headers) && can_be_sent(self.condition)
    }

    /// The fetching of a resource.
    pub(crate) fn new(
        resource: &Resource,
        headers: &Option<HeaderMap>,
        chunk_size: u64,
        concurrent_chunk: usize,
        clear: bool,
    ) -> (r: Self)
        requires
            custom_fits(*headers),
        ensures
            r@.is_new(),
            r@.resource == *resource,
            r@.custom == custom_fields(*headers),
            r@.chunk == chunk_size,
            r@.allowed == concurrent_chunk,
            r@.clear == clear,
    {
        Fetch {
            resource: resource.clone(),
            headers: match headers {
                Some(map) => Some(copy_headers(map)),
                None => None,
            },
            chunk_size,
            concurrent_chunk,
            clear,
            stage: FetchStage::Directory,
            total: 0,
            ranged: false,
            condition: None,
            written: 0,
        }
    }

    /// Whether an event can follow what the fetch last asked for.
    pub fn awaits(&self, event: &FetchEvent) -> (r: bool)
        ensures
            r == self@.awaits(*event),
    {
        match self.stage {
            FetchStage::Directory | FetchStage::OpeningWhole | FetchStage::Flushing
            | FetchStage::RenamingWhole | FetchStage::OpeningParts | FetchStage::RenamingParts =>
            match event {
                FetchEvent::Done | FetchEvent::Failed(_) => true,
                _ => false,
            },
            FetchStage::Probing => match event {
                FetchEvent::Probed(_) | FetchEvent::Failed(_) => true,
                _ => false,
            },
            FetchStage::Inspecting => match event {
                FetchEvent::Found(_) => true,
                _ => false,
            },
            FetchStage::Requesting => match event {
                FetchEvent::Replied(_) | FetchEvent::Failed(_) => true,
                _ => false,
            },
            FetchStage::Streaming => match event {
                FetchEvent::Wrote(count) => *count <= u64::MAX - self.written,
                FetchEvent::Failed(_) | FetchEvent::Ended | FetchEvent::TimedOut => true,
                _ => false,
            },
            FetchStage::Sizing => match event {
                FetchEvent::Done => self.chunk_size > 0,
                FetchEvent::Failed(_) => true,
                _ => false,
            },
            FetchStage::Gathering => match event {
                FetchEvent::Gathered(results) => self.chunk_size > 0 && results.len() as u64
                    == count_ranges(self.total, self.chunk_size),
                FetchEvent::Failed(_) => true,
                _ => false,
            },
            FetchStage::Finished => false,
        }
    }

    /// The bar in the end, where it is finished.
    fn bar_end(&self) -> (r: BarEnd)
        ensures
            r == self@.bar_end(),
    {
        if self.clear {
            BarEnd::Cleared
        } else {
            BarEnd::Finished
        }
    }

    /// Asks for the next step.
    fn go_on(&mut self, stage: FetchStage, action: FetchAction) -> (r: FetchAction)
        ensures
            final(self)@ == old(self)@.at(stage),
            r == action,
    {
        proof {
            use_type_invariant(&*self);
        }
        self.stage = stage;
        action
    }

    /// Ends the fetch with a failure.
    fn fail(&mut self, message: &str, bar: BarEnd) -> (r: FetchAction)
        ensures
            (final(self)@, r@) == old(self)@.failed(message@, bar),
    {
        let summary = Summary::new(self.resource.clone(), status_code(400), 0).fail(message);
        self.go_on(
            FetchStage::Finished,
            FetchAction::Finish(Ending { summary, bar, counted: false }),
        )
    }

    /// Ends the fetch with success.
    fn succeed(&mut self, size: u64) -> (r: FetchAction)
        ensures
            (final(self)@, r@) == old(self)@.succeeded(size),
    {
        let summary = Summary::new(self.resource.clone(), status_code(200), size).with_status(
            Status::Success,
        );
        let bar = self.bar_end();
        self.go_on(
            FetchStage::Finished,
            FetchAction::Finish(Ending { summary, bar, counted: true }),
        )
    }

    /// Takes what the server says of the resource.
    fn on_probe(&mut self, probe: Probe) -> (r: FetchAction)
        requires
            old(self)@.stage == FetchStage::Probing,
        ensures
            (final(self)@, r@) == old(self)@.after(FetchEvent::Probed(probe)),
    {
        proof {
            use_type_invariant(&*self);
        }
        self.total = probe.total_size();
        self.ranged = probe.supports_ranges();
        self.condition = probe.if_range();
        self.go_on(FetchStage::Inspecting, FetchAction::Inspect(probe.total_size()))
    }

    /// Takes the length of the file that is already there.
    fn on_found(&mut self, found: Option<u64>) -> (r: FetchAction)
        ensures
            (final(self)@, r@) == old(self)@.inspected(found),
    {
        if let Some(length) = found {
            if length == self.total && self.total > 0 {
                let summary = Summary::new(
                    self.resource.clone(),
                    status_code(400),
                    0,
                ).with_status(Status::Skipped("the file was already fully downloaded".to_owned()));
                let bar = self.bar_end();
                return self.go_on(
                    FetchStage::Finished,
                    FetchAction::Finish(Ending { summary, bar, counted: true }),
                );
            }
        }
        if !self.ranged || self.total == 0 {
            self.go_on(FetchStage::OpeningWhole, FetchAction::Open)
        } else {
            self.go_on(FetchStage::OpeningParts, FetchAction::Open)
        }
    }

    /// Takes the reply of the server.
    fn on_reply(&mut self, status: StatusCode) -> (r: FetchAction)
        requires
            old(self)@.stage == FetchStage::Requesting,
        ensures
            (final(self)@, r@) == old(self)@.after(FetchEvent::Replied(status)),
    {
        if succeeded(&status) {
            self.go_on(FetchStage::Streaming, FetchAction::Read)
        } else {
            let mut message = "HTTP ".to_owned();
            message.append(status_text(&status).as_str());
            self.fail(message.as_str(), BarEnd::Left)
        }
    }

    /// The tasks that the resource is fetched by.
    fn make_tasks(&self) -> (r: Vec<RangeTask>)
        requires
            self@.chunk > 0,
        ensures
            task_states(r@) == self@.tasks(),
    {
        proof {
            use_type_invariant(self);
            law_ranges_are_contiguous(self.total, self.chunk_size);
        }
        let ranges = split_ranges(self.total, self.chunk_size);
        let mut tasks: Vec<RangeTask> = Vec::new();
        let mut i: usize = 0;
        while i < ranges.len()
            invariant
                self.chunk_size > 0,
                custom_fits(self.headers),
                can_be_sent(self.condition),
                ranges@ == ranges_of(self.total, self.chunk_size),
                forall|j: int|
                    #![trigger ranges@[j]]
                    0 <= j < ranges@.len() ==> ranges@[j].0 <= ranges@[j].1 < self.total,
                i <= ranges@.len(),
                tasks@.len() == i,
                forall|j: int| 0 <= j < i ==> #[trigger] tasks@[j]@ == self@.task(ranges@[j]),
            decreases ranges.len() - i,
        {
            let (start, end): (u64, u64) = ranges[i];
            let condition = match &self.condition {
                Some(condition) => Some(condition.clone()),
                None => None,
            };
            assert(ranges@[i as int].0 <= ranges@[i as int].1 < self.total);
            tasks.push(RangeTask::new(start, end, condition, &self.headers));
            i = i + 1;
        }
        assert(task_states(tasks@) =~= self@.tasks());
        tasks
    }

    /// Takes what became of the ranges.
    fn on_gathered(&mut self, results: Vec<Result<(), String>>) -> (r: FetchAction)
        requires
            old(self)@.stage == FetchStage::Gathering,
        ensures
            (final(self)@, r@) == old(self)@.after(FetchEvent::Gathered(results)),
    {
        match first_error(&results) {
            Some(message) => {
                let bar = self.bar_end();
                self.fail(message.as_str(), bar)
            },
            None => self.go_on(FetchStage::RenamingParts, FetchAction::Rename),
        }
    }

    /// Takes the news that what was asked for is done.
    fn on_done(&mut self) -> (r: FetchAction)
        requires
            old(self)@.awaits(FetchEvent::Done),
        ensures
            (final(self)@, r@) == old(self)@.after(FetchEvent::Done),
    {
        match self.stage {
            FetchStage::Directory => self.go_on(FetchStage::Probing, FetchAction::Probe),
            FetchStage::OpeningWhole => {
                proof {
                    use_type_invariant(&*self);
                }
                let headers = whole_headers(&self.headers);
                self.go_on(FetchStage::Requesting, FetchAction::Request(headers))
            },
            FetchStage::Flushing => self.go_on(FetchStage::RenamingWhole, FetchAction::Rename),
            FetchStage::RenamingWhole => {
                let size: u64 = self.written;
                self.succeed(size)
            },
            FetchStage::OpeningParts => {
                let total: u64 = self.total;
                self.go_on(FetchStage::Sizing, FetchAction::SetLength(total))
            },
            FetchStage::Sizing => {
                let tasks = self.make_tasks();
                assert(task_states(tasks@).len() == tasks@.len());
                let permits: usize = permits(self.concurrent_chunk, tasks.len());
                self.go_on(FetchStage::Gathering, FetchAction::Gather { tasks, permits })
            },
            _ => {
                let size: u64 = self.total;
                self.succeed(size)
            },
        }
    }

    /// Takes the news that what was asked for failed.
    fn on_failure(&mut self, message: String) -> (r: FetchAction)
        requires
            old(self)@.awaits(FetchEvent::Failed(message)),
        ensures
            (final(self)@, r@) == old(self)@.after(FetchEvent::Failed(message)),
    {
        match self.stage {
            FetchStage::Gathering => {
                let mut text = "join error: ".to_owned();
                text.append(message.as_str());
                let bar = self.bar_end();
                self.fail(text.as_str(), bar)
            },
            _ => self.fail(message.as_str(), BarEnd::Left),
        }
    }

    /// Takes an event, and says what is wanted next.
    pub fn step(&mut self, event: FetchEvent) -> (r: FetchAction)
        requires
            old(self)@.awaits(event),
        ensures
            (final(self)@, r@) == old(self)@.after(event),
    {
        match event {
            FetchEvent::Done => self.on_done(),
            FetchEvent::Failed(message) => self.on_failure(message),
            FetchEvent::Probed(probe) => self.on_probe(probe),
            FetchEvent::Found(found) => self.on_found(found),
            FetchEvent::Replied(status) => self.on_reply(status),
            FetchEvent::Wrote(count) => {
                proof {
                    use_type_invariant(&*self);
                }
                self.written = self.written + count;
                FetchAction::Read
            },
            FetchEvent::Ended => self.go_on(FetchStage::Flushing, FetchAction::Flush),
            FetchEvent::TimedOut => self.fail("timeout while streaming body", BarEnd::Left),
            FetchEvent::Gathered(results) => self.on_gathered(results),
        }
    }
}

/// The state after a row of events.
pub open spec fn run(state: FetchState, events: Seq<FetchEvent>) -> FetchState
    decreases events.len(),
{
    if events.len() == 0 {
        state
    } else {
        run(state, events.drop_last()).after(events.last()).0
    }
}

/// What is wanted after a row of events.
pub open spec fn last_step(state: FetchState, events: Seq<FetchEvent>) -> FetchStep {
    if events.len() == 0 {
        FetchStep::CreateDirectory
    } else {
        run(state, events.drop_last()).after(events.last()).1
    }
}

/// A row of events each of which can follow what the fetch had asked for.
pub open spec fn is_history(state: FetchState, events: Seq<FetchEvent>) -> bool
    decreases events.len(),
{
    events.len() == 0 || (is_history(state, events.drop_last()) && run(
        state,
        events.drop_last(),
    ).awaits(events.last()))
}

/// How many bytes a row of events says were written.
pub open spec fn bytes_written(events: Seq<FetchEvent>) -> int
    decreases events.len(),
{
    if events.len() == 0 {
        0
    } else {
        bytes_written(events.drop_last()) + match events.last() {
            FetchEvent::Wrote(count) => count as int,
            _ => 0,
        }
    }
}

/// A fetch ends in success.
pub open spec fn ends_in_success(step: FetchStep) -> bool {
    step matches FetchStep::Finish(end) && end.outcome is Success
}

/// A stage of the way on which a resource comes in ranges.
pub open spec fn is_ranged_stage(stage: FetchStage) -> bool {
    stage == FetchStage::OpeningParts || stage == FetchStage::Sizing || stage
        == FetchStage::Gathering || stage == FetchStage::RenamingParts
}

/// A stage of the way on which a resource comes as a whole.
pub open spec fn is_whole_stage(stage: FetchStage) -> bool {
    stage == FetchStage::OpeningWhole || stage == FetchStage::Requesting || stage
        == FetchStage::Streaming || stage == FetchStage::Flushing || stage
        == FetchStage::RenamingWhole
}

/// What every history of a fetch keeps.
proof fn lemma_history(state: FetchState, events: Seq<FetchEvent>)
    requires
        state.is_new(),
        is_history(state, events),
    ensures
        ({
            let now = run(state, events);
            let step = last_step(state, events);
            &&& now.resource == state.resource
            &&& now.custom == state.custom
            &&& now.chunk == state.chunk
            &&& now.allowed == state.allowed
            &&& now.clear == state.clear
            &&& now.written == bytes_written(events)
            &&& step is Finish <==> now.stage == FetchStage::Finished
            &&& step is Gather <==> now.stage == FetchStage::Gathering
            &&& step is Rename <==> now.stage == FetchStage::RenamingWhole || now.stage
                == FetchStage::RenamingParts
            &&& now.stage == FetchStage::Directory <==> events.len() == 0
            &&& now.stage == FetchStage::Probing ==> events.len() == 1
            &&& events.len() >= 2 && (events[1] is Probed) ==> now.total == events[1]->Probed_0.total()
                && now.ranged == events[1]->Probed_0.ranged() && now.condition == condition_text(
                events[1]->Probed_0.condition(),
            )
            &&& now.stage != FetchStage::Directory && now.stage != FetchStage::Probing && now.stage
                != FetchStage::Finished ==> events.len() >= 2 && events[1] is Probed
            &&& is_ranged_stage(now.stage) ==> now.ranged && now.total > 0
            &&& is_whole_stage(now.stage) ==> !(now.ranged && now.total > 0)
        }),
    decreases events.len(),
{
    if events.len() > 0 {
        lemma_history(state, events.drop_last());
        if events.len() > 2 {
            assert(events[1] == events.drop_last()[1]);
        }
    }
}

/// The beginning of a history is a history.
proof fn lemma_history_prefix(state: FetchState, events: Seq<FetchEvent>, n: int)
    requires
        is_history(state, events),
        0 <= n <= events.len(),
    ensures
        is_history(state, events.take(n)),
        n < events.len() ==> run(state, events.take(n)).awaits(events[n]),
    decreases events.len(),
{
    if n == events.len() {
        assert(events.take(n) =~= events);
    } else {
        lemma_history_prefix(state, events.drop_last(), n);
        assert(events.drop_last().take(n) =~= events.take(n));
        if n == events.len() - 1 {
            assert(events.take(n) =~= events.drop_last());
        } else {
            assert(events.drop_last()[n] == events[n]);
        }
    }
}

/// A download succeeds just when the file has been given its final name.
pub proof fn law_success_is_a_rename(state: FetchState, events: Seq<FetchEvent>)
    requires
        state.is_new(),
        is_history(state, events),
        events.len() > 0,
    ensures
        ends_in_success(last_step(state, events)) <==> (last_step(state, events.drop_last())
            is Rename && events.last() is Done),
{
    lemma_history(state, events);
    lemma_history(state, events.drop_last());
}

/// No range failed just when each result is a success.
pub proof fn law_no_failure_means_all_there(results: Seq<Result<(), String>>)
    ensures
        first_failure(results) is None <==> forall|i: int|
            0 <= i < results.len() ==> #[trigger] results[i] is Ok,
    decreases results.len(),
{
    if results.len() > 0 {
        law_no_failure_means_all_there(results.skip(1));
        assert forall|i: int| 1 <= i < results.len() implies #[trigger] results[i]
            == results.skip(1)[i - 1] by {}
        if first_failure(results) is None {
            assert forall|i: int| 0 <= i < results.len() implies #[trigger] results[i] is Ok by {
                if i > 0 {
                    assert(results.skip(1)[i - 1] is Ok);
                }
            }
        } else if results[0] is Ok {
            let j = choose|j: int|
                0 <= j < results.skip(1).len() && !(#[trigger] results.skip(1)[j] is Ok);
            assert(!(results[j + 1] is Ok));
        }
    }
}

/// The file is given its final name only when all of the resource is in it: when the
/// body has ended and has been flushed, or when each of the tasks has fetched its range.
pub proof fn law_rename_comes_last(state: FetchState, events: Seq<FetchEvent>)
    requires
        state.is_new(),
        is_history(state, events),
        last_step(state, events) is Rename,
    ensures
        events.last() matches FetchEvent::Gathered(results) ==> (last_step(
            state,
            events.drop_last(),
        ) matches FetchStep::Gather(tasks, _) && tasks.len() == results@.len()) && (forall|i: int|
            0 <= i < results@.len() ==> #[trigger] results@[i] is Ok),
        events.last() !is Gathered ==> events.len() >= 2 && events.last() is Done && events[
            events.len() - 2
        ] is Ended,
{
    lemma_history(state, events);
    let before = events.drop_last();
    lemma_history(state, before);
    if let FetchEvent::Gathered(results) = events.last() {
        law_no_failure_means_all_there(results@);
        law_tasks_cover_the_resource(state, before);
    } else {
        assert(run(state, before).stage == FetchStage::Flushing);
        assert(is_history(state, before) && before.len() > 0);
        lemma_history(state, before.drop_last());
        assert(before.last() == events[events.len() - 2]);
    }
}

/// The size of a download that succeeded is what was written, where the resource came
/// as a whole, and what the server gave as its length, where it came in ranges.
pub proof fn law_size_is_what_was_written(state: FetchState, events: Seq<FetchEvent>)
    requires
        state.is_new(),
        is_history(state, events),
        ends_in_success(last_step(state, events)),
    ensures
        events.len() >= 3 && events[1] is Probed,
        events[events.len() - 2] is Gathered ==> last_step(state, events)->Finish_0.size
            == events[1]->Probed_0.total(),
        events[events.len() - 2] !is Gathered ==> last_step(state, events)->Finish_0.size
            == bytes_written(events),
        last_step(state, events)->Finish_0.resource == state.resource,
        last_step(state, events)->Finish_0.code == 200,
{
    let before = events.drop_last();
    law_success_is_a_rename(state, events);
    lemma_history(state, events);
    lemma_history(state, before);
    assert(is_history(state, before) && before.len() > 0);
    lemma_history(state, before.drop_last());
    assert(before.last() == events[events.len() - 2]);
    assert(before[1] == events[1]);
}

/// A download that did not succeed puts no file under the final name: each time the
/// file was to be given it, that failed.
pub proof fn law_failure_leaves_no_file(state: FetchState, events: Seq<FetchEvent>, n: int)
    requires
        state.is_new(),
        is_history(state, events),
        last_step(state, events) is Finish,
        !ends_in_success(last_step(state, events)),
        0 <= n < events.len(),
        last_step(state, events.take(n)) is Rename,
    ensures
        events[n] is Failed,
{
    lemma_history_prefix(state, events, n);
    lemma_history(state, events.take(n));
    if events[n] is Done {
        let longer = events.take(n + 1);
        assert(longer.drop_last() =~= events.take(n));
        lemma_history_prefix(state, events, n + 1);
        lemma_history(state, longer);
        assert(run(state, longer).stage == FetchStage::Finished);
        if n + 1 < events.len() {
            assert(!run(state, longer).awaits(events[n + 1]));
        } else {
            assert(longer =~= events);
        }
    }
}

/// A download is skipped just when the file is already there with the length, not
/// nothing, that the server gives for the resource.
pub proof fn law_skipped_when_complete(state: FetchState, events: Seq<FetchEvent>)
    requires
        state.is_new(),
        is_history(state, events),
        events.len() > 0,
    ensures
        (last_step(state, events) matches FetchStep::Finish(end) && end.outcome is Skipped) <==> (
        events.len() >= 3 && events[1] is Probed && events.last() == FetchEvent::Found(
            Some(events[1]->Probed_0.total()),
        ) && events[1]->Probed_0.total() > 0),
{
    let before = events.drop_last();
    lemma_history(state, events);
    lemma_history(state, before);
    if before.len() >= 2 {
        assert(before[1] == events[1]);
    }
}

/// Downloads that succeed or are skipped are counted, and no others; their bars are
/// finished, and cleared if that is wanted.
pub proof fn law_counted_when_there(state: FetchState, events: Seq<FetchEvent>)
    requires
        state.is_new(),
        is_history(state, events),
        last_step(state, events) is Finish,
    ensures
        ({
            let end = last_step(state, events)->Finish_0;
            &&& end.resource == state.resource
            &&& end.outcome !is NotStarted
            &&& end.counted <==> end.outcome is Success || end.outcome is Skipped
            &&& end.counted ==> end.bar == state.bar_end()
            &&& end.outcome !is Success ==> end.code == 400 && end.size == 0
        }),
{
    lemma_history(state, events);
    lemma_history(state, events.drop_last());
}

/// A fetch that has finished takes no more events.
pub proof fn law_finish_is_final(state: FetchState, events: Seq<FetchEvent>, event: FetchEvent)
    requires
        state.is_new(),
        is_history(state, events),
        last_step(state, events) is Finish,
    ensures
        !run(state, events).awaits(event),
{
    lemma_history(state, events);
}

/// A resource is fetched in ranges only where the server hands them out and gives the
/// length, and as a whole only where it does not.
pub proof fn law_ranges_only_where_offered(state: FetchState, events: Seq<FetchEvent>)
    requires
        state.is_new(),
        is_history(state, events),
    ensures
        last_step(state, events) is Gather || last_step(state, events) is SetLength
            ==> events.len() >= 2 && events[1] is Probed && comes_in_ranges(events[1]->Probed_0),
        last_step(state, events) is Request || last_step(state, events) is Read || last_step(
            state,
            events,
        ) is Flush ==> events.len() >= 2 && events[1] is Probed && !comes_in_ranges(
            events[1]->Probed_0,
        ),
{
    lemma_history(state, events);
    if events.len() > 0 {
        lemma_history(state, events.drop_last());
    }
}

/// The tasks that a resource is fetched by are new, one for each of the ranges that
/// its bytes are split into, with the caller's headers and the condition that the
/// server gave; at least one of them runs at a time.
pub proof fn law_tasks_cover_the_resource(state: FetchState, events: Seq<FetchEvent>)
    requires
        state.is_new(),
        is_history(state, events),
        last_step(state, events) is Gather,
    ensures
        events.len() >= 2 && events[1] is Probed,
        ({
            let ranges = ranges_of(events[1]->Probed_0.total(), state.chunk);
            let tasks = last_step(state, events)->Gather_0;
            &&& state.chunk > 0
            &&& tasks.len() == ranges.len()
            &&& forall|i: int|
                #![trigger tasks[i]]
                0 <= i < tasks.len() ==> tasks[i].is_new() && (tasks[i].start, tasks[i].end)
                    == ranges[i] && tasks[i].custom == state.custom && tasks[i].condition
                    == condition_text(events[1]->Probed_0.condition())
            &&& last_step(state, events)->Gather_1 == permits_for(state.allowed, tasks.len())
            &&& last_step(state, events)->Gather_1 >= 1
        }),
{
    let before = events.drop_last();
    lemma_history(state, events);
    lemma_history(state, before);
    assert(before[1] == events[1]);
    let total = events[1]->Probed_0.total();
    law_ranges_are_contiguous(total, state.chunk);
    let ranges = ranges_of(total, state.chunk);
    let tasks = last_step(state, events)->Gather_0;
    assert forall|i: int| #![trigger tasks[i]] 0 <= i < tasks.len() implies tasks[i].is_new() && (
    tasks[i].start, tasks[i].end) == ranges[i] && tasks[i].custom == state.custom
        && tasks[i].condition == condition_text(events[1]->Probed_0.condition()) by {
        assert(ranges[i].0 <= ranges[i].1 < total);
    }
}

/// How many bytes the histories of tasks say were written.
pub open spec fn bytes_of_all(histories: Seq<Seq<RangeEvent>>) -> int
    decreases histories.len(),
{
    if histories.len() == 0 {
        0
    } else {
        bytes_of_all(histories.drop_last()) + range_task::bytes_written(histories.last())
    }
}

/// A task came to its end, and the range is there.
pub open spec fn is_complete(task: RangeState, history: Seq<RangeEvent>) -> bool {
    range_task::is_history(task, history) && range_task::last_step(task, history)
        == RangeStep::Finish(None)
}

/// A task wrote the byte at that position: it writes on from the first byte of its
/// range.
pub open spec fn writes_byte(task: RangeState, history: Seq<RangeEvent>, byte: u64) -> bool {
    task.start <= byte < task.start + range_task::bytes_written(history)
}

/// Tasks that are complete wrote as many bytes as their ranges have.
proof fn lemma_bytes_of_all(
    tasks: Seq<RangeState>,
    ranges: Seq<(u64, u64)>,
    histories: Seq<Seq<RangeEvent>>,
)
    requires
        tasks.len() == ranges.len() == histories.len(),
        forall|i: int|
            #![trigger tasks[i]]
            0 <= i < tasks.len() ==> tasks[i].is_new() && (tasks[i].start, tasks[i].end)
                == ranges[i] && is_complete(tasks[i], histories[i]),
    ensures
        bytes_of_all(histories) == bytes_in(ranges),
    decreases tasks.len(),
{
    if tasks.len() > 0 {
        let shorter = tasks.drop_last();
        assert forall|i: int|
            #![trigger shorter[i]]
            0 <= i < shorter.len() implies shorter[i].is_new() && (shorter[i].start, shorter[i].end)
            == ranges.drop_last()[i] && is_complete(shorter[i], histories.drop_last()[i]) by {
            assert(shorter[i] == tasks[i]);
        }
        lemma_bytes_of_all(shorter, ranges.drop_last(), histories.drop_last());
        assert(tasks.last() == tasks[tasks.len() - 1]);
        law_finished_range_is_complete(tasks.last(), histories.last());
    }
}

/// When every task is complete, each has written as many bytes as its range has, and
/// all of them together as many as the server gives for the resource.
pub proof fn law_complete_tasks_fill_the_file(
    state: FetchState,
    events: Seq<FetchEvent>,
    histories: Seq<Seq<RangeEvent>>,
)
    requires
        state.is_new(),
        is_history(state, events),
        last_step(state, events) is Gather,
        histories.len() == last_step(state, events)->Gather_0.len(),
        forall|i: int|
            #![trigger histories[i]]
            0 <= i < histories.len() ==> is_complete(
                last_step(state, events)->Gather_0[i],
                histories[i],
            ),
    ensures
        bytes_of_all(histories) == events[1]->Probed_0.total(),
        forall|i: int|
            #![trigger histories[i]]
            0 <= i < histories.len() ==> range_task::bytes_written(histories[i])
                == last_step(state, events)->Gather_0[i].expected(),
{
    law_tasks_cover_the_resource(state, events);
    let total = events[1]->Probed_0.total();
    let tasks = last_step(state, events)->Gather_0;
    let ranges = ranges_of(total, state.chunk);
    assert forall|i: int| #![trigger tasks[i]] 0 <= i < tasks.len() implies tasks[i].is_new() && (
    tasks[i].start, tasks[i].end) == ranges[i] && is_complete(tasks[i], histories[i]) by {
        let _ = histories[i];
    }
    lemma_bytes_of_all(tasks, ranges, histories);
    law_ranges_hold_all_bytes(total, state.chunk);
    assert forall|i: int| #![trigger histories[i]] 0 <= i < histories.len() implies
        range_task::bytes_written(histories[i]) == tasks[i].expected() by {
        law_finished_range_is_complete(tasks[i], histories[i]);
    }
}

/// When every task is complete, every byte of the file has been written by exactly one
/// of them: each writes on from the first byte of its range.
pub proof fn law_complete_tasks_write_each_byte_once(
    state: FetchState,
    events: Seq<FetchEvent>,
    histories: Seq<Seq<RangeEvent>>,
    byte: u64,
)
    requires
        state.is_new(),
        is_history(state, events),
        last_step(state, events) is Gather,
        histories.len() == last_step(state, events)->Gather_0.len(),
        forall|i: int|
            #![trigger histories[i]]
            0 <= i < histories.len() ==> is_complete(
                last_step(state, events)->Gather_0[i],
                histories[i],
            ),
        byte < events[1]->Probed_0.total(),
    ensures
        exists|i: int|
            0 <= i < histories.len() && writes_byte(
                last_step(state, events)->Gather_0[i],
                #[trigger] histories[i],
                byte,
            ),
        forall|i: int, j: int|
            0 <= i < histories.len() && 0 <= j < histories.len() && writes_byte(
                last_step(state, events)->Gather_0[i],
                #[trigger] histories[i],
                byte,
            ) && writes_byte(
                last_step(state, events)->Gather_0[j],
                #[trigger] histories[j],
                byte,
            ) ==> i == j,
{
    law_tasks_cover_the_resource(state, events);
    law_complete_tasks_fill_the_file(state, events, histories);
    let total = events[1]->Probed_0.total();
    let ranges = ranges_of(total, state.chunk);
    let tasks = last_step(state, events)->Gather_0;
    law_each_byte_in_one_range(total, state.chunk, byte);
    assert forall|i: int| 0 <= i < histories.len() implies writes_byte(
        tasks[i],
        #[trigger] histories[i],
        byte,
    ) == (ranges[i].0 <= byte <= ranges[i].1) by {
        let _ = tasks[i];
    }
    let k = choose|i: int| 0 <= i < ranges.len() && #[trigger] ranges[i].0 <= byte <= ranges[i].1;
    assert(writes_byte(tasks[k], histories[k], byte));
}

/// A file of that length is there that spares the download.
pub open spec fn spares_download(probe: Probe, found: Option<u64>) -> bool {
    found == Some(probe.total()) && probe.total() > 0
}

/// A resource comes in ranges: the server hands them out, and the length is known.
pub open spec fn comes_in_ranges(probe: Probe) -> bool {
    probe.ranged() && probe.total() > 0
}

/// The events of a body that comes in pieces of these sizes.
pub open spec fn body_events(sizes: Seq<u64>) -> Seq<FetchEvent> {
    Seq::new(sizes.len(), |i: int| FetchEvent::Wrote(sizes[i]))
}

/// The events up to the body of a resource that comes as a whole.
pub open spec fn opening_events(
    probe: Probe,
    found: Option<u64>,
    status: StatusCode,
) -> Seq<FetchEvent> {
    seq![
        FetchEvent::Done,
        FetchEvent::Probed(probe),
        FetchEvent::Found(found),
        FetchEvent::Done,
        FetchEvent::Replied(status),
    ]
}

/// One event more.
proof fn lemma_one_more(state: FetchState, events: Seq<FetchEvent>, event: FetchEvent)
    requires
        is_history(state, events),
        run(state, events).awaits(event),
    ensures
        is_history(state, events.push(event)),
        run(state, events.push(event)) == run(state, events).after(event).0,
        last_step(state, events.push(event)) == run(state, events).after(event).1,
{
    assert(events.push(event).drop_last() =~= events);
}

/// The state once a resource has been probed and the file has been looked for.
proof fn lemma_inspected(state: FetchState, probe: Probe, found: Option<u64>)
    requires
        state.is_new(),
    ensures
        ({
            let events = seq![FetchEvent::Done, FetchEvent::Probed(probe), FetchEvent::Found(found)];
            let known = FetchState {
                stage: FetchStage::Inspecting,
                total: probe.total(),
                ranged: probe.ranged(),
                condition: condition_text(probe.condition()),
                ..state
            };
            is_history(state, events) && run(state, events) == known.inspected(found).0
                && last_step(state, events) == known.inspected(found).1
        }),
{
    let e0 = Seq::<FetchEvent>::empty();
    lemma_one_more(state, e0, FetchEvent::Done);
    let e1 = e0.push(FetchEvent::Done);
    lemma_one_more(state, e1, FetchEvent::Probed(probe));
    let e2 = e1.push(FetchEvent::Probed(probe));
    lemma_one_more(state, e2, FetchEvent::Found(found));
    assert(e2.push(FetchEvent::Found(found)) =~= seq![
        FetchEvent::Done,
        FetchEvent::Probed(probe),
        FetchEvent::Found(found),
    ]);
}

/// The state while the body of a resource comes in.
proof fn lemma_body_comes(
    state: FetchState,
    probe: Probe,
    found: Option<u64>,
    status: StatusCode,
    sizes: Seq<u64>,
)
    requires
        state.is_new(),
        !spares_download(probe, found),
        !comes_in_ranges(probe),
        is_success(status),
        size_of_all(sizes) <= u64::MAX,
    ensures
        ({
            let events = opening_events(probe, found, status) + body_events(sizes);
            is_history(state, events) && run(state, events) == (FetchState {
                stage: FetchStage::Streaming,
                total: probe.total(),
                ranged: probe.ranged(),
                condition: condition_text(probe.condition()),
                written: size_of_all(sizes) as u64,
                ..state
            })
        }),
    decreases sizes.len(),
{
    let opening = opening_events(probe, found, status);
    if sizes.len() == 0 {
        lemma_inspected(state, probe, found);
        let e3 = seq![FetchEvent::Done, FetchEvent::Probed(probe), FetchEvent::Found(found)];
        lemma_one_more(state, e3, FetchEvent::Done);
        lemma_one_more(state, e3.push(FetchEvent::Done), FetchEvent::Replied(status));
        assert(e3.push(FetchEvent::Done).push(FetchEvent::Replied(status)) =~= opening
            + body_events(sizes));
    } else {
        lemma_size_grows(sizes);
        lemma_body_comes(state, probe, found, status, sizes.drop_last());
        let before = opening + body_events(sizes.drop_last());
        lemma_one_more(state, before, FetchEvent::Wrote(sizes.last()));
        assert(before.push(FetchEvent::Wrote(sizes.last())) =~= opening + body_events(sizes));
    }
}

/// A resource that comes as a whole is downloaded with success when nothing goes
/// wrong, in whatever pieces its body comes.
pub proof fn law_whole_download_succeeds(
    state: FetchState,
    probe: Probe,
    found: Option<u64>,
    status: StatusCode,
    sizes: Seq<u64>,
)
    requires
        state.is_new(),
        !spares_download(probe, found),
        !comes_in_ranges(probe),
        is_success(status),
        size_of_all(sizes) <= u64::MAX,
    ensures
        ({
            let events = opening_events(probe, found, status) + body_events(sizes) + seq![
                FetchEvent::Ended,
                FetchEvent::Done,
                FetchEvent::Done,
            ];
            is_history(state, events) && ends_in_success(last_step(state, events)) && last_step(
                state,
                events,
            )->Finish_0.size == size_of_all(sizes)
        }),
{
    lemma_size_grows(sizes);
    lemma_body_comes(state, probe, found, status, sizes);
    let body = opening_events(probe, found, status) + body_events(sizes);
    lemma_one_more(state, body, FetchEvent::Ended);
    let e1 = body.push(FetchEvent::Ended);
    lemma_one_more(state, e1, FetchEvent::Done);
    let e2 = e1.push(FetchEvent::Done);
    lemma_one_more(state, e2, FetchEvent::Done);
    assert(e2.push(FetchEvent::Done) =~= body + seq![
        FetchEvent::Ended,
        FetchEvent::Done,
        FetchEvent::Done,
    ]);
}

/// A resource that comes in ranges is downloaded with success, and with the length
/// that the server gives, when every range is fetched and nothing else goes wrong.
pub proof fn law_ranged_download_succeeds(
    state: FetchState,
    probe: Probe,
    found: Option<u64>,
    results: Vec<Result<(), String>>,
)
    requires
        state.is_new(),
        state.chunk > 0,
        !spares_download(probe, found),
        comes_in_ranges(probe),
        results@.len() == ranges_of(probe.total(), state.chunk).len(),
        first_failure(results@) is None,
    ensures
        ({
            let events = seq![
                FetchEvent::Done,
                FetchEvent::Probed(probe),
                FetchEvent::Found(found),
                FetchEvent::Done,
                FetchEvent::Done,
                FetchEvent::Gathered(results),
                FetchEvent::Done,
            ];
            is_history(state, events) && ends_in_success(last_step(state, events)) && last_step(
                state,
                events,
            )->Finish_0.size == probe.total()
        }),
{
    lemma_inspected(state, probe, found);
    let e3 = seq![FetchEvent::Done, FetchEvent::Probed(probe), FetchEvent::Found(found)];
    lemma_one_more(state, e3, FetchEvent::Done);
    let e4 = e3.push(FetchEvent::Done);
    lemma_one_more(state, e4, FetchEvent::Done);
    let e5 = e4.push(FetchEvent::Done);
    lemma_one_more(state, e5, FetchEvent::Gathered(results));
    let e6 = e5.push(FetchEvent::Gathered(results));
    lemma_one_more(state, e6, FetchEvent::Done);
    assert(e6.push(FetchEvent::Done) =~= seq![
        FetchEvent::Done,
        FetchEvent::Probed(probe),
        FetchEvent::Found(found),
        FetchEvent::Done,
        FetchEvent::Done,
        FetchEvent::Gathered(results),
        FetchEvent::Done,
    ]);
}

/// The message of the first range that failed is that of a failure before which there is
/// none.
pub proof fn law_first_failure_is_told(results: Seq<Result<(), String>>, n: int)
    requires
        0 <= n < results.len(),
        results[n] is Err,
        forall|i: int| 0 <= i < n ==> #[trigger] results[i] is Ok,
    ensures
        first_failure(results) == Some(results[n]->Err_0@),
    decreases n,
{
    if n > 0 {
        assert(results[0] is Ok);
        assert(results.skip(1)[n - 1] == results[n]);
        assert forall|i: int| 0 <= i < n - 1 implies #[trigger] results.skip(1)[i] is Ok by {
            assert(results.skip(1)[i] == results[i + 1]);
        }
        law_first_failure_is_told(results.skip(1), n - 1);
    }
}

/// The end of a fetch that failed: a bad request of no bytes, that is not counted.
pub open spec fn failure_end(resource: Resource, message: Seq<char>, bar: BarEnd) -> FetchStep {
    FetchStep::Finish(
        EndState {
            resource,
            code: 400,
            size: 0,
            outcome: Outcome::Failed(message),
            bar,
            counted: false,
        },
    )
}

/// The end of a fetch that succeeded: it is counted.
pub open spec fn success_end(resource: Resource, size: u64, bar: BarEnd) -> FetchStep {
    FetchStep::Finish(
        EndState { resource, code: 200, size, outcome: Outcome::Success, bar, counted: true },
    )
}

/// A bar that is finished goes if that is wanted, and stays if not.
pub open spec fn finished_bar(clear: bool) -> BarEnd {
    if clear {
        BarEnd::Cleared
    } else {
        BarEnd::Finished
    }
}

/// Where a fetch that has not finished stands, by the events that it took.
proof fn lemma_stage(state: FetchState, events: Seq<FetchEvent>)
    requires
        state.is_new(),
        is_history(state, events),
        run(state, events).stage != FetchStage::Finished,
    ensures
        events.len() >= 2 ==> events[1] is Probed,
        run(state, events).stage == (if events.len() == 0 {
            FetchStage::Directory
        } else if events.len() == 1 {
            FetchStage::Probing
        } else if events.len() == 2 {
            FetchStage::Inspecting
        } else if comes_in_ranges(events[1]->Probed_0) {
            if events.len() == 3 {
                FetchStage::OpeningParts
            } else if events.len() == 4 {
                FetchStage::Sizing
            } else if events.len() == 5 {
                FetchStage::Gathering
            } else {
                FetchStage::RenamingParts
            }
        } else {
            if events.len() == 3 {
                FetchStage::OpeningWhole
            } else if events.len() == 4 {
                FetchStage::Requesting
            } else if events.last() is Ended {
                FetchStage::Flushing
            } else if events.last() is Done {
                FetchStage::RenamingWhole
            } else {
                FetchStage::Streaming
            }
        }),
        comes_in_ranges(events[1]->Probed_0) ==> events.len() <= 6,
        events.len() > 4 && !comes_in_ranges(events[1]->Probed_0) && events.last() is Done
            ==> events[events.len() - 2] is Ended,
    decreases events.len(),
{
    lemma_history(state, events);
    if events.len() > 0 {
        let before = events.drop_last();
        lemma_history(state, before);
        lemma_stage(state, before);
        if before.len() >= 2 {
            assert(before[1] == events[1]);
        }
        if before.len() > 0 {
            assert(before.last() == events[events.len() - 2]);
        }
    }
}

/// What a fetch wants first: the directory, then a probe, then a bar of the length that
/// the probe gives and a look at the file. Where that has just this length, which is not
/// nothing, the download is skipped; else the file to write to is opened.
pub proof fn law_fetch_begins_with_a_probe(state: FetchState, events: Seq<FetchEvent>)
    requires
        state.is_new(),
        is_history(state, events),
        events.len() <= 3,
    ensures
        ({
            let n = events.len();
            let last = events.last();
            let step = last_step(state, events);
            &&& n == 0 ==> step == FetchStep::CreateDirectory
            &&& n == 1 && last is Done ==> step == FetchStep::Probe
            &&& n == 2 && last is Probed ==> step == FetchStep::Inspect(last->Probed_0.total())
            &&& n == 3 ==> events[1] is Probed && last is Found
            &&& n == 3 && events[1]->Probed_0.total() > 0 && last->Found_0 == Some(
                events[1]->Probed_0.total(),
            ) ==> step == FetchStep::Finish(
                EndState {
                    resource: state.resource,
                    code: 400,
                    size: 0,
                    outcome: Outcome::Skipped("the file was already fully downloaded"@),
                    bar: finished_bar(state.clear),
                    counted: true,
                },
            )
            &&& n == 3 && !(events[1]->Probed_0.total() > 0 && last->Found_0 == Some(
                events[1]->Probed_0.total(),
            )) ==> step == FetchStep::Open
        }),
{
    lemma_history(state, events);
    if events.len() > 0 {
        let before = events.drop_last();
        lemma_history(state, before);
        lemma_stage(state, before);
        if before.len() >= 2 {
            assert(before[1] == events[1]);
        }
    }
}

/// What a fetch of a whole resource wants once the file is open: a request; on a reply
/// with a status in the two hundreds the body, piece by piece; at its end a flush, and
/// then the final name, with which it has succeeded with as many bytes as were written.
/// Any other status, or nothing of the body in time, ends it as a failure.
pub proof fn law_whole_resource_is_saved(state: FetchState, events: Seq<FetchEvent>)
    requires
        state.is_new(),
        is_history(state, events),
        events.len() >= 4,
        !comes_in_ranges(events[1]->Probed_0),
    ensures
        ({
            let n = events.len();
            let last = events.last();
            let step = last_step(state, events);
            &&& n == 4 && last is Done ==> step == FetchStep::Request(whole_fields(state.custom))
            &&& last matches FetchEvent::Replied(status) ==> n == 5 && step == (if 200
                <= status_number(status) < 300 {
                FetchStep::Read
            } else {
                failure_end(
                    state.resource,
                    "HTTP "@ + (decimal(status_number(status) as nat) + seq![' '] + reason_phrase(
                        status_number(status),
                    )),
                    BarEnd::Left,
                )
            })
            &&& last is Wrote ==> step == FetchStep::Read
            &&& last is TimedOut ==> step == failure_end(
                state.resource,
                "timeout while streaming body"@,
                BarEnd::Left,
            )
            &&& last is Ended ==> step == FetchStep::Flush
            &&& n > 4 && last is Done && events[n - 2] is Ended ==> step == FetchStep::Rename
            &&& n > 4 && last is Done && events[n - 2] !is Ended ==> step == success_end(
                state.resource,
                bytes_written(events) as u64,
                finished_bar(state.clear),
            )
            &&& last !is Probed && last !is Found && last !is Gathered
        }),
{
    let before = events.drop_last();
    lemma_history(state, events);
    lemma_history(state, before);
    lemma_stage(state, before);
    assert(before[1] == events[1]);
    assert(before.last() == events[events.len() - 2]);
}

/// What a fetch in ranges wants once the file is open: that the file gets the length of
/// the resource; then the tasks; then, if each of them has its range, the final name, with
/// which it has succeeded with that length. The first range that failed ends it.
pub proof fn law_ranged_resource_is_saved(state: FetchState, events: Seq<FetchEvent>)
    requires
        state.is_new(),
        is_history(state, events),
        events.len() >= 4,
        comes_in_ranges(events[1]->Probed_0),
    ensures
        ({
            let n = events.len();
            let last = events.last();
            let step = last_step(state, events);
            let total = events[1]->Probed_0.total();
            &&& n <= 7
            &&& n == 4 && last is Done ==> step == FetchStep::SetLength(total)
            &&& n == 5 && last is Done ==> step is Gather
            &&& n == 6 ==> last is Gathered || last is Failed
            &&& last matches FetchEvent::Gathered(results) ==> n == 6 && step == (
            if first_failure(results@) is None {
                FetchStep::Rename
            } else {
                failure_end(
                    state.resource,
                    first_failure(results@)->0,
                    finished_bar(state.clear),
                )
            })
            &&& n == 7 && last is Done ==> step == success_end(
                state.resource,
                total,
                finished_bar(state.clear),
            )
            &&& last is Done || last is Failed || last is Gathered
        }),
{
    let before = events.drop_last();
    lemma_history(state, events);
    lemma_history(state, before);
    lemma_stage(state, before);
    assert(before[1] == events[1]);
}

/// Whatever fails ends the fetch as a failure, with the message of what failed; where
/// that was the gathering of the ranges, the message says so and the bar is finished.
pub proof fn law_failures_end_the_fetch(
    state: FetchState,
    events: Seq<FetchEvent>,
    message: String,
)
    requires
        state.is_new(),
        is_history(state, events),
        events.len() > 0,
        events.last() == FetchEvent::Failed(message),
    ensures
        last_step(state, events) == (if last_step(state, events.drop_last()) is Gather {
            failure_end(
                state.resource,
                "join error: "@ + message@,
                finished_bar(state.clear),
            )
        } else {
            failure_end(state.resource, message@, BarEnd::Left)
        }),
{
    lemma_history(state, events);
    lemma_history(state, events.drop_last());
}

/// What can follow what a fetch wants: that it is done or failed; what a probe or a look
/// at the file found; a reply to a request; of the body a piece, its end, a failure or
/// nothing in time; one result for each task; and nothing behind the end.
pub proof fn law_fetch_awaits_what_it_asked_for(
    state: FetchState,
    events: Seq<FetchEvent>,
    event: FetchEvent,
)
    requires
        state.is_new(),
        is_history(state, events),
    ensures
        run(state, events).awaits(event) <==> match last_step(state, events) {
            FetchStep::CreateDirectory | FetchStep::Open | FetchStep::Flush | FetchStep::Rename =>
            event is Done || event is Failed,
            FetchStep::Probe => event is Probed || event is Failed,
            FetchStep::Inspect(_) => event is Found,
            FetchStep::Request(_) => event is Replied || event is Failed,
            FetchStep::Read => (event is Wrote && bytes_written(events) + event->Wrote_0
                <= u64::MAX) || event is Failed || event is Ended || event is TimedOut,
            FetchStep::SetLength(_) => (event is Done && state.chunk > 0) || event is Failed,
            FetchStep::Gather(tasks, _) => (event is Gathered && event->Gathered_0@.len()
                == tasks.len()) || event is Failed,
            FetchStep::Finish(_) => false,
        },
{
    lemma_history(state, events);
    if events.len() > 0 {
        lemma_history(state, events.drop_last());
        if last_step(state, events) is Gather {
            law_tasks_cover_the_resource(state, events);
        }
    }
}

/// The file that ranges are written to gets the length that the server gives for the
/// resource, and that is the size that is reported when it has its final name.
pub proof fn law_file_has_the_length_of_the_resource(
    state: FetchState,
    events: Seq<FetchEvent>,
    n: int,
)
    requires
        state.is_new(),
        is_history(state, events),
        0 <= n <= events.len(),
        last_step(state, events.take(n)) is SetLength,
    ensures
        events.len() >= 2 && events[1] is Probed,
        last_step(state, events.take(n))->SetLength_0 == events[1]->Probed_0.total(),
        ends_in_success(last_step(state, events)) ==> last_step(state, events)->Finish_0.size
            == last_step(state, events.take(n))->SetLength_0,
{
    let early = events.take(n);
    lemma_history_prefix(state, events, n);
    lemma_history(state, early);
    assert(n > 0);
    lemma_history(state, early.drop_last());
    assert(run(state, early).stage == FetchStage::Sizing);
    lemma_stage(state, early);
    lemma_history(state, events);
    assert(early[1] == events[1]);
    assert(comes_in_ranges(events[1]->Probed_0));
    law_ranged_resource_is_saved(state, early);
    if ends_in_success(last_step(state, events)) {
        law_ranged_resource_is_saved(state, events);
        lemma_history(state, events.drop_last());
        lemma_stage(state, events.drop_last());
    }
}

/// Of a resource that comes as a whole nothing is read, flushed or given the final name
/// unless the server replied with a status in the two hundreds.
pub proof fn law_only_good_replies_are_saved(state: FetchState, events: Seq<FetchEvent>)
    requires
        state.is_new(),
        is_history(state, events),
        last_step(state, events) is Read || last_step(state, events) is Flush || (last_step(
            state,
            events,
        ) is Rename && events.last() !is Gathered),
    ensures
        events.len() >= 5,
        events[4] is Replied,
        200 <= status_number(events[4]->Replied_0) < 300,
{
    lemma_history(state, events);
    lemma_history(state, events.drop_last());
    lemma_stage(state, events);
    let early = events.take(5);
    lemma_history_prefix(state, events, 5);
    lemma_history_prefix(state, events, 4);
    lemma_history(state, early);
    lemma_history(state, events.take(4));
    assert(early.drop_last() =~= events.take(4));
    assert(early[1] == events[1]);
    assert(early.last() == events[4]);
    assert(run(state, events.take(4)).stage != FetchStage::Finished);
    lemma_stage(state, events.take(4));
    assert(events.take(4)[1] == events[1]);
    assert(events[4] is Replied);
    law_whole_resource_is_saved(state, early);
    if !(200 <= status_number(events[4]->Replied_0) < 300) {
        assert(run(state, early).stage == FetchStage::Finished);
        if events.len() > 5 {
            lemma_history_prefix(state, events, 5);
            assert(!run(state, early).awaits(events[5]));
        } else {
            assert(early =~= events);
        }
    }
}

/// What a fetch wants, and how it ends, shows as what it is.
pub proof fn law_fetch_actions_show_what_they_are(
    number: u64,
    headers: HeaderMap,
    tasks: Vec<RangeTask>,
    permits: usize,
    ending: Ending,
    i: int,
)
    ensures
        FetchAction::CreateDirectory@ == FetchStep::CreateDirectory,
        FetchAction::Probe@ == FetchStep::Probe,
        FetchAction::Inspect(number)@ == FetchStep::Inspect(number),
        FetchAction::Open@ == FetchStep::Open,
        FetchAction::Request(headers)@ == FetchStep::Request(header_fields(headers)),
        FetchAction::Read@ == FetchStep::Read,
        FetchAction::Flush@ == FetchStep::Flush,
        FetchAction::SetLength(number)@ == FetchStep::SetLength(number),
        FetchAction::Rename@ == FetchStep::Rename,
        FetchAction::Finish(ending)@ == FetchStep::Finish(ending@),
        (FetchAction::Gather { tasks, permits })@ matches FetchStep::Gather(states, most) && most
            == permits && states.len() == tasks@.len() && (0 <= i < states.len() ==> states[i]
            == tasks@[i]@),
        ending@.resource == ending.summary.resource(),
        ending@.code == status_number(ending.summary.code()),
        ending@.size == ending.summary.bytes(),
        ending@.bar == ending.bar,
        ending@.counted == ending.counted,
        ending@.outcome is Failed <==> ending.summary.outcome() is Fail,
        ending@.outcome is Skipped <==> ending.summary.outcome() is Skipped,
        ending@.outcome is Success <==> ending.summary.outcome() is Success,
        ending.summary.outcome() matches Status::Fail(text) ==> ending@.outcome == Outcome::Failed(
            text@,
        ),
        ending.summary.outcome() matches Status::Skipped(text) ==> ending@.outcome
            == Outcome::Skipped(text@),
{
}

} // verus!
