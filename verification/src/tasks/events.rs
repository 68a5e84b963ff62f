//! Events on lines, read in pieces.
use crate::error::{Error, ErrorView};
use crate::failure::{error_document, error_json, read_as, reported, Failure, FailureView};
use crate::json::{lemma_documents, text_in, Json, JsonView};
use crate::tasks::task::{Task, TaskView};
use vstd::prelude::*;

verus! {

/// How many bytes of a piece belong to the line: up to and with its end, where it has one.
pub open spec fn line_end(piece: Seq<u8>) -> nat
    decreases piece.len(),
{
    if piece.len() == 0 {
        0
    } else if piece[0] == 10 {
        1
    } else {
        1 + line_end(piece.drop_first())
    }
}

/// The piece holds the end of the line.
pub open spec fn ends_line(piece: Seq<u8>) -> bool {
    line_end(piece) > 0 && piece[line_end(piece) - 1] == 10
}

proof fn lemma_line_end(piece: Seq<u8>)
    ensures
        line_end(piece) <= piece.len(),
        forall|i: int| 0 <= i < line_end(piece) - 1 ==> piece[i] != 10,
        line_end(piece) < piece.len() ==> ends_line(piece),
        piece.len() > 0 ==> line_end(piece) > 0,
    decreases piece.len(),
{
    if piece.len() > 0 && piece[0] != 10 {
        let rest = piece.drop_first();
        lemma_line_end(rest);
        assert forall|i: int| 0 <= i < line_end(piece) - 1 implies piece[i] != 10 by {
            if i > 0 {
                assert(rest[i - 1] == piece[i]);
            }
        }
        if line_end(piece) < piece.len() {
            assert(rest[line_end(rest) - 1] == piece[line_end(piece) - 1]);
        }
    }
}

proof fn lemma_line_end_at(piece: Seq<u8>, n: int)
    requires
        0 <= n < piece.len(),
        forall|i: int| 0 <= i < n ==> piece[i] != 10,
        piece[n] == 10 || n == piece.len() - 1,
    ensures
        line_end(piece) == n + 1,
    decreases n,
{
    if n > 0 {
        let rest = piece.drop_first();
        assert forall|i: int| 0 <= i < n - 1 implies rest[i] != 10 by {
            assert(rest[i] == piece[i + 1]);
        }
        lemma_line_end_at(rest, n - 1);
    } else {
        assert(line_end(piece.drop_first()) == 0 || piece[0] == 10) by {
            if piece[0] != 10 {
                assert(piece.drop_first().len() == 0);
            }
        }
    }
}

/// What came in.
#[derive(Debug)]
pub enum Incoming {
    /// The line is longer than allowed; it was read to its end and dropped.
    Over,
    Event(Vec<u8>),
    /// There is nothing more.
    End,
}

pub enum IncomingView {
    Over,
    Event(Seq<u8>),
    End,
}

impl View for Incoming {
    type V = IncomingView;

    open spec fn view(&self) -> IncomingView {
        match self {
            Incoming::Over => IncomingView::Over,
            Incoming::Event(line) => IncomingView::Event(line@),
            Incoming::End => IncomingView::End,
        }
    }
}

/// A line as far as it was read.
pub struct Partial {
    pub line: Seq<u8>,
    pub over: bool,
}

/// A line that nothing was read of.
pub open spec fn unread() -> Partial {
    Partial { line: Seq::empty(), over: false }
}

/// The line with the piece that belongs to it.
pub open spec fn extended(part: Partial, piece: Seq<u8>, limit: nat) -> Partial {
    let over = part.over || part.line.len() + line_end(piece) > limit;
    Partial {
        line: if over {
            part.line
        } else {
            part.line + piece.take(line_end(piece) as int)
        },
        over,
    }
}

/// The event of a line that was read to its end.
pub open spec fn complete(part: Partial) -> IncomingView {
    if part.over {
        IncomingView::Over
    } else if part.line.len() == 0 {
        IncomingView::End
    } else {
        IncomingView::Event(part.line)
    }
}

/// Reads events of at most `limit` bytes.
#[derive(Debug)]
pub struct Lines {
    limit: u64,
    line: Vec<u8>,
    over: bool,
}

impl Lines {
    pub closed spec fn limit(&self) -> nat {
        self.limit as nat
    }

    pub closed spec fn part(&self) -> Partial {
        Partial { line: self.line@, over: self.over }
    }

    pub fn new(limit: u64) -> (res: Lines)
        ensures
            res.limit() == limit,
            res.part() == unread(),
    {
        let res = Lines { limit, line: Vec::new(), over: false };
        assert(res.line@ =~= Seq::empty());
        res
    }

    /// Takes in a piece: how much of it belongs to the line, and the event where the line ends
    /// with it.
    pub fn feed(&mut self, piece: &[u8]) -> (res: (usize, Option<Incoming>))
        ensures
            final(self).limit() == old(self).limit(),
            res.0 == line_end(piece@),
            ({
                let now = extended(old(self).part(), piece@, old(self).limit());
                if ends_line(piece@) {
                    &&& res.1 is Some
                    &&& res.1->0@ == complete(now)
                    &&& final(self).part() == unread()
                } else {
                    &&& res.1 is None
                    &&& final(self).part() == now
                }
            }),
    {
        let mut end: usize = 0;
        let mut newline = false;
        proof {
            lemma_line_end(piece@);
        }
        while end < piece.len() && !newline
            invariant
                end <= piece@.len(),
                forall|i: int| 0 <= i < end - 1 ==> piece@[i] != 10,
                newline == (end > 0 && piece@[end - 1] == 10),
            decreases piece@.len() - end,
        {
            newline = piece[end] == 10;
            end = end + 1;
        }
        proof {
            if end > 0 {
                lemma_line_end_at(piece@, end - 1);
            } else {
                assert(piece@.len() == 0);
            }
        }
        if end as u64 > self.limit || self.line.len() as u64 > self.limit - end as u64 {
            self.over = true;
        }
        if !self.over {
            let ghost before = self.line@;
            let mut i: usize = 0;
            while i < end
                invariant
                    i <= end <= piece@.len(),
                    self.line@ == before + piece@.take(i as int),
                    self.limit == old(self).limit,
                    !self.over,
                decreases end - i,
            {
                self.line.push(piece[i]);
                assert(self.line@ =~= before + piece@.take(i + 1));
                i = i + 1;
            }
        }
        assert(self.part() == extended(old(self).part(), piece@, old(self).limit()));
        if newline {
            (end, Some(self.finish()))
        } else {
            (end, None)
        }
    }

    /// The event of the line as far as it was read; the next line starts afresh.
    pub fn finish(&mut self) -> (res: Incoming)
        ensures
            res@ == complete(old(self).part()),
            final(self).part() == unread(),
            final(self).limit() == old(self).limit(),
    {
        let mut line: Vec<u8> = Vec::new();
        std::mem::swap(&mut line, &mut self.line);
        let over = self.over;
        self.over = false;
        assert(self.line@ =~= Seq::empty());
        if over {
            Incoming::Over
        } else if line.len() == 0 {
            Incoming::End
        } else {
            Incoming::Event(line)
        }
    }
}

/// White space in ASCII.
pub open spec fn blank_byte(b: u8) -> bool {
    b == 32 || b == 9 || b == 10 || b == 12 || b == 13
}

/// A line of white space says nothing.
pub open spec fn blank_line(line: Seq<u8>) -> bool {
    forall|i: int| 0 <= i < line.len() ==> blank_byte(#[trigger] line[i])
}

/// Whether a line says nothing.
pub fn is_blank_line(line: &Vec<u8>) -> (res: bool)
    ensures
        res == blank_line(line@),
{
    let mut i: usize = 0;
    while i < line.len()
        invariant
            i <= line.len(),
            forall|j: int| 0 <= j < i ==> blank_byte(#[trigger] line@[j]),
        decreases line.len() - i,
    {
        let b = line[i];
        if !(b == 32 || b == 9 || b == 10 || b == 12 || b == 13) {
            return false;
        }
        i = i + 1;
    }
    true
}

/// How the bytes come does not matter: a line that is read in two pieces is the same event as in
/// one.
pub proof fn law_pieces(part: Partial, first: Seq<u8>, second: Seq<u8>, limit: nat)
    requires
        !ends_line(first),
    ensures
        line_end(first + second) == first.len() + line_end(second),
        complete(extended(part, first + second, limit)) == complete(
            extended(extended(part, first, limit), second, limit),
        ),
{
    lemma_line_end(first);
    lemma_line_end(second);
    assert(line_end(first) == first.len());
    let all = first + second;
    if second.len() == 0 {
        assert(all =~= first);
        assert(all.take(first.len() as int) =~= first);
        assert(first.take(first.len() as int) =~= first);
        assert(second.take(0) =~= Seq::empty());
        let once = extended(part, first, limit);
        assert(once.line + second.take(0) =~= once.line);
    } else {
        let n = first.len() + line_end(second) - 1;
        assert forall|i: int| 0 <= i < n implies all[i] != 10 by {
            if i < first.len() {
                if i == first.len() - 1 {
                    assert(first[line_end(first) - 1] != 10);
                }
                assert(all[i] == first[i]);
            } else {
                assert(all[i] == second[i - first.len()]);
            }
        }
        assert(all[n] == second[line_end(second) - 1]);
        lemma_line_end_at(all, n);
        assert(all.take(line_end(all) as int) =~= first + second.take(line_end(second) as int));
        assert(first.take(first.len() as int) =~= first);
        assert(part.line + (first + second.take(line_end(second) as int)) =~= (part.line + first)
            + second.take(line_end(second) as int));
    }
}

/// A line that is too long does no harm: it is dropped to its end, no event comes of it, and the
/// next line is read from its start.
pub proof fn law_recovery(part: Partial, piece: Seq<u8>, limit: nat)
    requires
        part.over,
    ensures
        extended(part, piece, limit).over,
        complete(extended(part, piece, limit)) is Over,
        !unread().over,
{
}

// ---------------------------------------------------------------------------
// The event loop

/// Where the event loop stands.
#[derive(Debug)]
pub enum LoopStage {
    Reading,
    Parsing,
    Handling { quit: bool },
    Printing { quit: bool },
    Finished,
}

pub enum LoopStageView {
    Reading,
    Parsing,
    Handling { quit: bool },
    Printing { quit: bool },
    Finished,
}

impl View for LoopStage {
    type V = LoopStageView;

    open spec fn view(&self) -> LoopStageView {
        match self {
            LoopStage::Reading => LoopStageView::Reading,
            LoopStage::Parsing => LoopStageView::Parsing,
            LoopStage::Handling { quit } => LoopStageView::Handling { quit: *quit },
            LoopStage::Printing { quit } => LoopStageView::Printing { quit: *quit },
            LoopStage::Finished => LoopStageView::Finished,
        }
    }
}

/// What the event loop needs next.
#[derive(Debug)]
pub enum LoopNeed {
    /// Read the next event of the input.
    Read,
    /// Read a line as a task.
    Parse(Vec<u8>),
    /// Carry out a task.
    Handle(Task),
    /// Print this document on a line.
    Print(Json),
    /// Nothing more.
    Finish,
}

pub enum LoopNeedView {
    Read,
    Parse(Seq<u8>),
    Handle(TaskView),
    Print(JsonView),
    Finish,
}

impl View for LoopNeed {
    type V = LoopNeedView;

    open spec fn view(&self) -> LoopNeedView {
        match self {
            LoopNeed::Read => LoopNeedView::Read,
            LoopNeed::Parse(x) => LoopNeedView::Parse(x@),
            LoopNeed::Handle(x) => LoopNeedView::Handle(x@),
            LoopNeed::Print(x) => LoopNeedView::Print(x@),
            LoopNeed::Finish => LoopNeedView::Finish,
        }
    }
}

/// What came of it.
#[derive(Debug)]
pub enum LoopEvent {
    Came(Incoming),
    /// The task that the line says, or why it says none.
    Parsed(Result<Task, String>),
    Handled(Result<Json, Failure>),
    Printed,
}

pub enum LoopEventView {
    Came(IncomingView),
    Parsed(Result<TaskView, Seq<char>>),
    Handled(Result<JsonView, FailureView>),
    Printed,
}

impl View for LoopEvent {
    type V = LoopEventView;

    open spec fn view(&self) -> LoopEventView {
        match self {
            LoopEvent::Came(x) => LoopEventView::Came(x@),
            LoopEvent::Parsed(x) => LoopEventView::Parsed(read_as(*x)),
            LoopEvent::Handled(x) => LoopEventView::Handled(reported(*x)),
            LoopEvent::Printed => LoopEventView::Printed,
        }
    }
}

/// Where the event loop stands, and what it needs next.
pub struct LoopTurn {
    pub stage: LoopStageView,
    pub need: LoopNeedView,
}

pub open spec fn loop_reads() -> LoopTurn {
    LoopTurn { stage: LoopStageView::Reading, need: LoopNeedView::Read }
}

pub open spec fn loop_prints(value: JsonView, quit: bool) -> LoopTurn {
    LoopTurn { stage: LoopStageView::Printing { quit }, need: LoopNeedView::Print(value) }
}

pub open spec fn loop_ends() -> LoopTurn {
    LoopTurn { stage: LoopStageView::Finished, need: LoopNeedView::Finish }
}

/// How the event loop goes on after `event`: it ends with the input or with a request to quit, a
/// line that says nothing is passed over, and every other line has one answer.
pub open spec fn loop_step(stage: LoopStageView, event: LoopEventView) -> LoopTurn {
    match (stage, event) {
        (LoopStageView::Reading, LoopEventView::Came(incoming)) => match incoming {
            IncomingView::End => loop_ends(),
            IncomingView::Over => loop_prints(
                error_json(FailureView::Refused(ErrorView::EventSize)),
                false,
            ),
            IncomingView::Event(line) => if blank_line(line) {
                loop_reads()
            } else {
                LoopTurn { stage: LoopStageView::Parsing, need: LoopNeedView::Parse(line) }
            },
        },
        (LoopStageView::Parsing, LoopEventView::Parsed(task)) => match task {
            Ok(task) => LoopTurn {
                stage: LoopStageView::Handling { quit: task is Quit },
                need: LoopNeedView::Handle(task),
            },
            Err(words) => loop_prints(error_json(FailureView::Outside(words)), false),
        },
        (LoopStageView::Handling { quit }, LoopEventView::Handled(res)) => loop_prints(
            match res {
                Ok(value) => value,
                Err(failure) => error_json(failure),
            },
            quit,
        ),
        (LoopStageView::Printing { quit }, LoopEventView::Printed) => if quit {
            loop_ends()
        } else {
            loop_reads()
        },
        (LoopStageView::Finished, _) => loop_ends(),
        _ => loop_reads(),
    }
}

/// The event loop under way.
#[derive(Debug)]
pub struct EventLoop {
    stage: LoopStage,
}

impl EventLoop {
    pub closed spec fn stage(&self) -> LoopStageView {
        self.stage@
    }

    fn at(stage: LoopStage, need: LoopNeed) -> (res: (EventLoop, LoopNeed))
        ensures
            (LoopTurn { stage: res.0.stage(), need: res.1@ }) == (LoopTurn {
                stage: stage@,
                need: need@,
            }),
    {
        (EventLoop { stage }, need)
    }

    /// Begins to process the events of an input.
    pub fn start() -> (res: (EventLoop, LoopNeed))
        ensures
            (LoopTurn { stage: res.0.stage(), need: res.1@ }) == loop_reads(),
    {
        EventLoop::at(LoopStage::Reading, LoopNeed::Read)
    }

    /// Goes on after `event`.
    pub fn next(self, event: LoopEvent) -> (res: (EventLoop, LoopNeed))
        ensures
            (LoopTurn { stage: res.0.stage(), need: res.1@ }) == loop_step(self.stage(), event@),
    {
        match (self.stage, event) {
            (LoopStage::Reading, LoopEvent::Came(incoming)) => match incoming {
                Incoming::End => EventLoop::at(LoopStage::Finished, LoopNeed::Finish),
                Incoming::Over => EventLoop::at(
                    LoopStage::Printing { quit: false },
                    LoopNeed::Print(error_document(&Failure::Refused(Error::EventSize))),
                ),
                Incoming::Event(line) => if is_blank_line(&line) {
                    EventLoop::start()
                } else {
                    EventLoop::at(LoopStage::Parsing, LoopNeed::Parse(line))
                },
            },
            (LoopStage::Parsing, LoopEvent::Parsed(task)) => match task {
                Ok(task) => {
                    let quit = match &task {
                        Task::Quit => true,
                        _ => false,
                    };
                    EventLoop::at(LoopStage::Handling { quit }, LoopNeed::Handle(task))
                },
                Err(words) => EventLoop::at(
                    LoopStage::Printing { quit: false },
                    LoopNeed::Print(error_document(&Failure::Outside(words))),
                ),
            },
            (LoopStage::Handling { quit }, LoopEvent::Handled(res)) => {
                let value = match res {
                    Ok(value) => value,
                    Err(failure) => error_document(&failure),
                };
                EventLoop::at(LoopStage::Printing { quit }, LoopNeed::Print(value))
            },
            (LoopStage::Printing { quit }, LoopEvent::Printed) => if quit {
                EventLoop::at(LoopStage::Finished, LoopNeed::Finish)
            } else {
                EventLoop::start()
            },
            (LoopStage::Finished, _) => EventLoop::at(LoopStage::Finished, LoopNeed::Finish),
            _ => EventLoop::start(),
        }
    }
}

/// What is printed for an event of the input, where `task` is what its line says and `res` what
/// came of the task, and whether the loop goes on.
pub open spec fn answered(
    incoming: IncomingView,
    task: Result<TaskView, Seq<char>>,
    res: Result<JsonView, FailureView>,
) -> (Option<JsonView>, bool) {
    match incoming {
        IncomingView::End => (None, false),
        IncomingView::Over => (Some(error_json(FailureView::Refused(ErrorView::EventSize))), true),
        IncomingView::Event(line) => if blank_line(line) {
            (None, true)
        } else {
            match task {
                Err(words) => (Some(error_json(FailureView::Outside(words))), true),
                Ok(task) => (
                    Some(
                        match res {
                            Ok(value) => value,
                            Err(failure) => error_json(failure),
                        },
                    ),
                    task !is Quit,
                ),
            }
        },
    }
}

/// What was printed and whether the loop goes on, after one event of the input.
pub open spec fn one_event(
    turn: LoopTurn,
    task: Result<TaskView, Seq<char>>,
    res: Result<JsonView, FailureView>,
    printed: Option<JsonView>,
    steps: nat,
) -> (Option<JsonView>, Option<bool>)
    decreases steps,
{
    if steps == 0 {
        (printed, None)
    } else {
        match turn.need {
            LoopNeedView::Read => (printed, Some(true)),
            LoopNeedView::Finish => (printed, Some(false)),
            LoopNeedView::Parse(_) => one_event(
                loop_step(turn.stage, LoopEventView::Parsed(task)),
                task,
                res,
                printed,
                (steps - 1) as nat,
            ),
            LoopNeedView::Handle(_) => one_event(
                loop_step(turn.stage, LoopEventView::Handled(res)),
                task,
                res,
                printed,
                (steps - 1) as nat,
            ),
            LoopNeedView::Print(value) => one_event(
                loop_step(turn.stage, LoopEventView::Printed),
                task,
                res,
                Some(value),
                (steps - 1) as nat,
            ),
        }
    }
}

/// One line, one answer: whatever comes in, and whatever a task comes to, the loop prints what it
/// owes and reads on; a line that is too long or no task is answered with its error and does not
/// end the loop, a failed task does not either, and nothing but the end of the input or a request
/// to quit does.
pub proof fn law_one_answer(
    incoming: IncomingView,
    task: Result<TaskView, Seq<char>>,
    res: Result<JsonView, FailureView>,
)
    ensures
        ({
            let owed = answered(incoming, task, res);
            one_event(
                loop_step(LoopStageView::Reading, LoopEventView::Came(incoming)),
                task,
                res,
                None,
                4,
            ) == (owed.0, Some(owed.1))
        }),
        forall|stage: LoopStageView, event: LoopEventView|
            #![trigger loop_step(stage, event)]
            loop_step(stage, event).need is Finish ==> stage is Finished || (stage is Reading
                && event == LoopEventView::Came(IncomingView::End)) || (stage == (
            LoopStageView::Printing { quit: true }) && event is Printed),
{
    reveal_with_fuel(one_event, 5);
}

/// What is answered to an event: nothing to the end of the input, which ends the loop, and to a
/// blank line; an error to a line that is too long or says no task; to a task what came of it, or
/// why nothing did. Only the end of the input and a task to quit end the loop.
pub proof fn law_event_answers(
    incoming: IncomingView,
    task: Result<TaskView, Seq<char>>,
    res: Result<JsonView, FailureView>,
)
    ensures
        ({
            let (printed, on) = one_event(
                loop_step(LoopStageView::Reading, LoopEventView::Came(incoming)),
                task,
                res,
                None,
                4,
            );
            let blank = incoming is Event && forall|i: int|
                0 <= i < incoming->Event_0.len() ==> {
                    let b = #[trigger] incoming->Event_0[i];
                    b == 32 || b == 9 || b == 10 || b == 12 || b == 13
                };
            &&& incoming is End ==> printed is None && on == Some(false)
            &&& incoming is Over ==> on == Some(true) && printed is Some && text_in(
                printed->0.get("error"@),
            ) == Some("event exceeds input limit"@)
            &&& blank ==> printed is None && on == Some(true)
            &&& incoming is Event && !blank && task is Err ==> on == Some(true) && printed is Some
                && text_in(printed->0.get("error"@)) == Some(task->Err_0)
            &&& incoming is Event && !blank && task is Ok ==> on == Some(task->Ok_0 !is Quit)
                && printed is Some
            &&& incoming is Event && !blank && task is Ok && res is Ok ==> printed->0 == res->Ok_0
            &&& incoming is Event && !blank && task is Ok && res is Err ==> text_in(
                printed->0.get("error"@),
            ) == Some(res->Err_0.text())
        }),
{
    law_one_answer(incoming, task, res);
    lemma_documents();
    if incoming is Event {
        let line = incoming->Event_0;
        let blank = forall|i: int|
            0 <= i < line.len() ==> {
                let b = #[trigger] line[i];
                b == 32 || b == 9 || b == 10 || b == 12 || b == 13
            };
        if blank {
            assert(blank_line(line));
        }
        if blank_line(line) {
            assert forall|i: int| 0 <= i < line.len() implies {
                let b = #[trigger] line[i];
                b == 32 || b == 9 || b == 10 || b == 12 || b == 13
            } by {
                assert(blank_byte(line[i]));
            }
        }
    }
}

/// A line goes on to the next line feed, and no further.
pub proof fn law_line(text: Seq<u8>, rest: Seq<u8>, limit: nat)
    requires
        forall|i: int| 0 <= i < text.len() ==> #[trigger] text[i] != 10,
        text.len() + 1 <= limit,
    ensures
        complete(extended(unread(), text.push(10) + rest, limit)) == IncomingView::Event(
            text.push(10),
        ),
{
    let piece = text.push(10) + rest;
    lemma_line_end_at(piece, text.len() as int);
    assert(piece.take(text.len() as int + 1) =~= text.push(10));
    assert(unread().line + text.push(10) =~= text.push(10));
}

/// A line that is too long is dropped, and told.
pub proof fn law_long_line(text: Seq<u8>, rest: Seq<u8>, limit: nat)
    requires
        forall|i: int| 0 <= i < text.len() ==> #[trigger] text[i] != 10,
        text.len() + 1 > limit,
    ensures
        complete(extended(unread(), text.push(10) + rest, limit)) is Over,
{
    lemma_line_end_at(text.push(10) + rest, text.len() as int);
}

/// A line that says something is parsed as it came, and the task that it names is handled as it was
/// parsed.
pub proof fn law_line_is_handled(line: Seq<u8>, task: TaskView, i: int)
    requires
        0 <= i < line.len(),
        line[i] != 32 && line[i] != 9 && line[i] != 10 && line[i] != 12 && line[i] != 13,
    ensures
        ({
            let parses = loop_step(
                LoopStageView::Reading,
                LoopEventView::Came(IncomingView::Event(line)),
            );
            let handles = loop_step(parses.stage, LoopEventView::Parsed(Ok(task)));
            parses.need == LoopNeedView::Parse(line) && handles.need == LoopNeedView::Handle(task)
        }),
{
    assert(!blank_byte(line[i]));
}

} // verus!
