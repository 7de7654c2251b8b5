//! The change event loop as a state machine. The loop that owns the files
//! performs what the machine asks for and hands back what came of it; the
//! machine decides what happens next and keeps the cursor.

use crate::codec::{Fault, ParseError};
use crate::cursor::{pending_span, Cursor, Span};
use crate::pass::{
    faults, lemma_bursts_yield_outputs_of_whole, lemma_one_output_per_qualifying_line,
    line_output, outputs, outputs_of_bursts, process, rejects, Batch,
};
use crate::text::{complete, lines_of, texts};
use crate::watch::{concerns, ChangeEvent, ChangeEventView};
use vstd::prelude::*;

verus! {

/// What the loop hands to the machine.
#[derive(Debug, PartialEq, Eq)]
pub enum Input {
    /// A change notification arrived.
    Change(ChangeEvent),
    /// The source file was measured: its length in bytes.
    Length(u64),
    /// The bytes asked for were read: their text.
    Text(String),
    /// The line was appended to the destination file.
    Appended,
    /// What was asked for could not be done.
    Failed,
}

/// What an [`Input`] holds, as plain values.
pub enum InputView {
    Change(ChangeEventView),
    Length(u64),
    Text(Seq<char>),
    Appended,
    Failed,
}

impl View for Input {
    type V = InputView;

    open spec fn view(&self) -> InputView {
        match self {
            Input::Change(event) => InputView::Change(event@),
            Input::Length(length) => InputView::Length(*length),
            Input::Text(text) => InputView::Text(text@),
            Input::Appended => InputView::Appended,
            Input::Failed => InputView::Failed,
        }
    }
}

/// What the machine asks the loop to do next.
#[derive(Debug, PartialEq, Eq)]
pub enum Action {
    /// Wait for the next change notification.
    Wait,
    /// Open the source file and measure its length.
    Measure,
    /// Read these bytes of the source file.
    Read(Span),
    /// Append this text, one line with its line feed, to the destination
    /// file.
    Append(String),
}

/// What an [`Action`] holds, as plain values.
pub enum ActionView {
    Wait,
    Measure,
    Read(Span),
    Append(Seq<char>),
}

impl View for Action {
    type V = ActionView;

    open spec fn view(&self) -> ActionView {
        match self {
            Action::Wait => ActionView::Wait,
            Action::Measure => ActionView::Measure,
            Action::Read(span) => ActionView::Read(*span),
            Action::Append(line) => ActionView::Append(line@),
        }
    }
}

/// Where a pass stands.
#[verifier::ext_equal]
pub enum Phase {
    /// No pass is under way.
    Idle,
    /// The length of the source file was asked for.
    Measuring,
    /// The bytes from the cursor up to `upto` were asked for.
    Reading { upto: u64 },
    /// The output lines in `queue` wait to be appended; the first of them
    /// was handed out.
    Appending { queue: Seq<Seq<char>> },
}

/// The state of the machine.
#[verifier::ext_equal]
pub struct State {
    /// The bytes of the source file that have been processed.
    pub cursor: u64,
    /// The path of the source file.
    pub watched: Seq<char>,
    pub phase: Phase,
}

impl State {
    /// The state in which the machine starts: nothing processed yet, and
    /// the first pass under way without a notification.
    pub open spec fn initial(watched: Seq<char>) -> State {
        State { cursor: 0, watched, phase: Phase::Measuring }
    }

    /// What holds of every state that the machine reaches.
    pub open spec fn wf(self) -> bool {
        match self.phase {
            Phase::Reading { upto } => self.cursor < upto,
            Phase::Appending { queue } => queue.len() > 0,
            _ => true,
        }
    }

    /// What the machine asks for in this state.
    pub open spec fn action(self) -> ActionView {
        match self.phase {
            Phase::Idle => ActionView::Wait,
            Phase::Measuring => ActionView::Measure,
            Phase::Reading { upto } => ActionView::Read(
                Span { start: self.cursor, len: (upto - self.cursor) as u64 },
            ),
            Phase::Appending { queue } => ActionView::Append(queue[0].push('\n')),
        }
    }

    /// The state after `input`. An input that the state does not wait for
    /// changes nothing.
    pub open spec fn step(self, input: InputView) -> State {
        match (self.phase, input) {
            (Phase::Idle, InputView::Change(event)) => if concerns(event, self.watched) {
                State { phase: Phase::Measuring, ..self }
            } else {
                self
            },
            (Phase::Measuring, InputView::Length(length)) => if length <= self.cursor {
                State { phase: Phase::Idle, ..self }
            } else {
                State { phase: Phase::Reading { upto: length }, ..self }
            },
            (Phase::Reading { upto }, InputView::Text(text)) => State {
                cursor: upto,
                phase: if outputs(text).len() == 0 {
                    Phase::Idle
                } else {
                    Phase::Appending { queue: outputs(text) }
                },
                ..self
            },
            (Phase::Appending { queue }, InputView::Appended) => State {
                phase: if queue.len() <= 1 {
                    Phase::Idle
                } else {
                    Phase::Appending { queue: queue.drop_first() }
                },
                ..self
            },
            (Phase::Measuring, InputView::Failed) => State { phase: Phase::Idle, ..self },
            (Phase::Reading { .. }, InputView::Failed) => State { phase: Phase::Idle, ..self },
            (Phase::Appending { .. }, InputView::Failed) => State { phase: Phase::Idle, ..self },
            _ => self,
        }
    }

    /// The lines that `input` has rejected: those of the text that a
    /// reading state was handed.
    pub open spec fn rejected(self, input: InputView) -> Seq<(Seq<char>, Fault)> {
        match (self.phase, input) {
            (Phase::Reading { .. }, InputView::Text(text)) => rejects(text),
            _ => Seq::empty(),
        }
    }

    /// The state after each of `inputs` in turn.
    pub open spec fn run(self, inputs: Seq<InputView>) -> State
        decreases inputs.len(),
    {
        if inputs.len() == 0 {
            self
        } else {
            self.step(inputs.first()).run(inputs.drop_first())
        }
    }

    /// What reaches the destination file while the machine takes each of
    /// `inputs` in turn: the text handed out for appending, each time the
    /// loop reports that it was appended.
    pub open spec fn appended(self, inputs: Seq<InputView>) -> Seq<Seq<char>>
        decreases inputs.len(),
    {
        if inputs.len() == 0 {
            Seq::empty()
        } else {
            let now = match (self.phase, inputs.first()) {
                (Phase::Appending { queue }, InputView::Appended) => seq![queue[0].push('\n')],
                _ => Seq::empty(),
            };
            now + self.step(inputs.first()).appended(inputs.drop_first())
        }
    }
}

/// Each of `lines` with a line feed after it, as it reaches the destination
/// file.
pub open spec fn terminated(lines: Seq<Seq<char>>) -> Seq<Seq<char>> {
    lines.map_values(|line: Seq<char>| line.push('\n'))
}

/// The inputs of a pass in which nothing fails: the length of the source
/// file, the text beyond the cursor, and one acknowledgement for each of
/// `lines` output lines.
pub open spec fn clean_pass(length: u64, text: Seq<char>, lines: nat) -> Seq<InputView> {
    seq![InputView::Length(length), InputView::Text(text)] + Seq::new(
        lines,
        |i: int| InputView::Appended,
    )
}

/// Every state that the machine reaches is well formed.
pub proof fn lemma_step_keeps_wf(state: State, input: InputView)
    requires
        state.wf(),
    ensures
        state.step(input).wf(),
{
    if state.phase is Appending && input is Appended {
        let queue = state.phase->queue;
        if queue.len() > 1 {
            assert(queue.drop_first().len() > 0);
        }
    }
}

/// The cursor never moves back. It moves only when the text of a pass has
/// been read, and then to the length that was measured; a failure before
/// that leaves it where it was, so that the next pass asks for the same
/// bytes again, and a failure after it leaves it at the end of what was
/// read.
pub proof fn lemma_cursor_moves_forward_only(state: State, input: InputView)
    requires
        state.wf(),
    ensures
        state.step(input).cursor >= state.cursor,
        state.step(input).watched == state.watched,
        state.phase is Reading && input is Text ==> state.step(input).cursor == state.phase->upto,
        !(state.phase is Reading && input is Text) ==> state.step(input).cursor == state.cursor,
{
}

/// A notification that arrives when nothing has been added to the source
/// file since the cursor last moved yields nothing: whether or not it
/// starts a pass, the machine is back where it was once the file is
/// measured, and has asked neither for a read nor for an append.
pub proof fn lemma_stale_notification_yields_nothing(
    state: State,
    event: ChangeEventView,
    length: u64,
)
    requires
        state.phase is Idle,
        length <= state.cursor,
    ensures
        state.step(InputView::Change(event)).action() is Wait || state.step(
            InputView::Change(event),
        ).action() is Measure,
        state.step(InputView::Change(event)).step(InputView::Length(length)) == state,
        state.appended(seq![InputView::Change(event), InputView::Length(length)]).len() == 0,
{
    let inputs = seq![InputView::Change(event), InputView::Length(length)];
    let after = state.step(InputView::Change(event));
    assert(inputs.drop_first() == seq![InputView::Length(length)]);
    assert(inputs.drop_first().drop_first() == Seq::<InputView>::empty());
    assert(after.appended(inputs.drop_first()) == Seq::<Seq<char>>::empty()) by {
        reveal_with_fuel(State::appended, 2);
    }
}

/// A notification whose kind is neither a creation nor a change of content,
/// or whose paths do not hold the source file, changes nothing.
pub proof fn lemma_unrelated_notification_is_discarded(state: State, event: ChangeEventView)
    requires
        !concerns(event, state.watched),
    ensures
        state.step(InputView::Change(event)) == state,
{
}

proof fn lemma_draining(state: State, queue: Seq<Seq<char>>)
    requires
        state.phase == (Phase::Appending { queue }),
        queue.len() > 0,
    ensures
        state.run(Seq::new(queue.len(), |i: int| InputView::Appended)) == (State {
            phase: Phase::Idle,
            ..state
        }),
        state.appended(Seq::new(queue.len(), |i: int| InputView::Appended)) == terminated(queue),
    decreases queue.len(),
{
    let inputs = Seq::new(queue.len(), |i: int| InputView::Appended);
    let next = state.step(InputView::Appended);
    let rest = queue.drop_first();
    assert(inputs.first() == InputView::Appended);
    assert(inputs.drop_first() == Seq::new(rest.len(), |i: int| InputView::Appended));
    if queue.len() == 1 {
        reveal_with_fuel(State::appended, 2);
        reveal_with_fuel(State::run, 2);
        assert(inputs.drop_first().len() == 0);
        assert(state.appended(inputs) == seq![queue[0].push('\n')] + Seq::<Seq<char>>::empty());
        assert(state.appended(inputs) == terminated(queue));
    } else {
        lemma_draining(next, rest);
        assert(terminated(queue) == seq![queue[0].push('\n')] + terminated(rest));
    }
}

/// A pass in which nothing fails, over a source file that has grown to
/// `length` bytes: the machine asks for the bytes from the cursor to the
/// end of the file, the output lines of their text reach the destination
/// file, each once, in order and with a line feed after it, and the
/// machine is idle again with the cursor at the end of the file. The first
/// pass is the one that starts at [`State::initial`], with the cursor at 0.
pub proof fn lemma_clean_pass(state: State, length: u64, text: Seq<char>)
    requires
        state.phase is Measuring,
        state.cursor < length,
    ensures
        state.step(InputView::Length(length)).action() == ActionView::Read(
            Span { start: state.cursor, len: (length - state.cursor) as u64 },
        ),
        state.run(clean_pass(length, text, outputs(text).len())) == (State {
            cursor: length,
            phase: Phase::Idle,
            ..state
        }),
        state.appended(clean_pass(length, text, outputs(text).len())) == terminated(outputs(text)),
{
    let lines = outputs(text);
    let inputs = clean_pass(length, text, lines.len());
    let acks = Seq::new(lines.len(), |i: int| InputView::Appended);
    let reading = state.step(InputView::Length(length));
    let read = reading.step(InputView::Text(text));
    assert(inputs.first() == InputView::Length(length));
    assert(inputs.drop_first() == seq![InputView::Text(text)] + acks);
    assert(inputs.drop_first().first() == InputView::Text(text));
    assert(inputs.drop_first().drop_first() == acks);
    assert(state.run(inputs) == read.run(acks)) by {
        reveal_with_fuel(State::run, 3);
    }
    assert(state.appended(inputs) == read.appended(acks)) by {
        reveal_with_fuel(State::appended, 3);
    }
    if lines.len() > 0 {
        lemma_draining(read, lines);
    } else {
        assert(terminated(lines) == Seq::<Seq<char>>::empty());
    }
}

/// The first pass needs no notification: from the start the machine asks
/// for the length of the source file, reads the whole of a file that holds
/// anything, and appends the output lines of its text, as many as the file
/// has lines that hold a qualifying record. Of an empty file it reads
/// nothing.
pub proof fn lemma_startup_pass(watched: Seq<char>, length: u64, text: Seq<char>)
    ensures
        State::initial(watched).action() == ActionView::Measure,
        length == 0 ==> State::initial(watched).step(InputView::Length(length)) == (State {
            phase: Phase::Idle,
            ..State::initial(watched)
        }),
        length > 0 ==> {
            let inputs = clean_pass(length, text, outputs(text).len());
            &&& State::initial(watched).step(InputView::Length(length)).action()
                == ActionView::Read(Span { start: 0, len: length })
            &&& State::initial(watched).appended(inputs) == terminated(outputs(text))
            &&& State::initial(watched).run(inputs) == State {
                cursor: length,
                watched,
                phase: Phase::Idle,
            }
            &&& State::initial(watched).appended(inputs).len() == lines_of(text).filter(
                |line: Seq<char>| line_output(line) is Some,
            ).len()
        },
{
    if length > 0 {
        lemma_clean_pass(State::initial(watched), length, text);
        lemma_one_output_per_qualifying_line(text);
    }
}

/// What the loop hands to the machine while the source file grows pass by
/// pass and nothing fails: for each pass the notification `event`, the
/// length of the file, the text that was added, and one acknowledgement for
/// each of its output lines.
pub open spec fn clean_passes(event: ChangeEventView, passes: Seq<(u64, Seq<char>)>) -> Seq<
    InputView,
>
    decreases passes.len(),
{
    if passes.len() == 0 {
        Seq::empty()
    } else {
        let (length, text) = passes.first();
        seq![InputView::Change(event)] + clean_pass(length, text, outputs(text).len())
            + clean_passes(event, passes.drop_first())
    }
}

/// Whether the file is longer at each pass than at the one before, and at
/// the first longer than `cursor`.
pub open spec fn growing(cursor: u64, passes: Seq<(u64, Seq<char>)>) -> bool
    decreases passes.len(),
{
    passes.len() == 0 || (cursor < passes.first().0 && growing(
        passes.first().0,
        passes.drop_first(),
    ))
}

/// The texts of a sequence of passes.
pub open spec fn texts_of(passes: Seq<(u64, Seq<char>)>) -> Seq<Seq<char>> {
    passes.map_values(|pass: (u64, Seq<char>)| pass.1)
}

proof fn lemma_run_concat(state: State, a: Seq<InputView>, b: Seq<InputView>)
    ensures
        state.run(a + b) == state.run(a).run(b),
        state.appended(a + b) == state.appended(a) + state.run(a).appended(b),
    decreases a.len(),
{
    if a.len() == 0 {
        assert(a + b == b);
    } else {
        assert((a + b).first() == a.first());
        assert((a + b).drop_first() == a.drop_first() + b);
        lemma_run_concat(state.step(a.first()), a.drop_first(), b);
    }
}

/// While the source file grows and nothing fails, the passes append the
/// output lines of what each of them read, pass after pass, and leave the
/// cursor at the last length of the file. This holds from the start, where
/// the first pass is under way already, and from any idle state.
pub proof fn lemma_clean_passes(state: State, event: ChangeEventView, passes: Seq<(u64, Seq<char>)>)
    requires
        state.phase is Idle || state.phase is Measuring,
        concerns(event, state.watched),
        growing(state.cursor, passes),
        passes.len() > 0,
    ensures
        state.run(clean_passes(event, passes)) == (State {
            cursor: passes.last().0,
            phase: Phase::Idle,
            ..state
        }),
        state.appended(clean_passes(event, passes)) == terminated(
            outputs_of_bursts(texts_of(passes)),
        ),
    decreases passes.len(),
{
    let (length, text) = passes.first();
    let rest = passes.drop_first();
    let notice = seq![InputView::Change(event)];
    let pass = clean_pass(length, text, outputs(text).len());
    let measuring = State { phase: Phase::Measuring, ..state };
    let done = State { cursor: length, phase: Phase::Idle, ..state };
    assert(state.run(notice) == measuring && state.appended(notice).len() == 0) by {
        reveal_with_fuel(State::run, 2);
        reveal_with_fuel(State::appended, 2);
        assert(notice.drop_first().len() == 0);
    }
    lemma_clean_pass(measuring, length, text);
    lemma_run_concat(state, notice, pass);
    lemma_run_concat(state, notice + pass, clean_passes(event, rest));
    assert(state.run(notice + pass) == done);
    assert(state.appended(notice + pass) == terminated(outputs(text)));
    assert(texts_of(passes).first() == text);
    assert(texts_of(passes).drop_first() == texts_of(rest));
    if rest.len() == 0 {
        assert(outputs_of_bursts(texts_of(rest)).len() == 0);
        assert(outputs_of_bursts(texts_of(passes)) == outputs(text));
        assert(clean_passes(event, rest).len() == 0);
    } else {
        lemma_clean_passes(done, event, rest);
        assert(rest.last() == passes.last());
        assert(terminated(outputs(text) + outputs_of_bursts(texts_of(rest))) == terminated(
            outputs(text),
        ) + terminated(outputs_of_bursts(texts_of(rest))));
    }
}

/// However a source file of complete lines grows, burst by burst, once
/// every burst has had its pass the destination file has received the
/// output lines of the whole source file: one for each line that holds a
/// qualifying record, in the order of the source file, each once. Only the
/// last burst may end in the middle of a line.
pub proof fn lemma_tailing_yields_outputs_of_whole(
    state: State,
    event: ChangeEventView,
    passes: Seq<(u64, Seq<char>)>,
)
    requires
        state.phase is Idle || state.phase is Measuring,
        concerns(event, state.watched),
        growing(state.cursor, passes),
        passes.len() > 0,
        forall|i: int| 0 <= i < passes.len() - 1 ==> complete(#[trigger] passes[i].1),
    ensures
        state.appended(clean_passes(event, passes)) == terminated(
            outputs(texts_of(passes).flatten()),
        ),
{
    lemma_clean_passes(state, event, passes);
    assert forall|i: int| 0 <= i < texts_of(passes).len() - 1 implies complete(
        #[trigger] texts_of(passes)[i],
    ) by {
        assert(texts_of(passes)[i] == passes[i].1);
    }
    lemma_bursts_yield_outputs_of_whole(texts_of(passes));
}

/// What the machine answers to an input.
#[derive(Debug, PartialEq, Eq)]
pub struct Reaction {
    /// What to do next.
    pub action: Action,
    /// The lines of the input that were rejected, for the diagnostics.
    pub rejected: Vec<ParseError>,
}

#[derive(Clone, Copy, Debug, PartialEq, Eq, Structural)]
enum Stage {
    Idle,
    Measuring,
    Reading,
    Appending,
}

/// The machine.
#[derive(Debug)]
pub struct Tailer {
    cursor: Cursor,
    watched: String,
    stage: Stage,
    upto: u64,
    queue: Vec<String>,
    next: usize,
}

impl View for Tailer {
    type V = State;

    closed spec fn view(&self) -> State {
        State {
            cursor: self.cursor@,
            watched: self.watched@,
            phase: match self.stage {
                Stage::Idle => Phase::Idle,
                Stage::Measuring => Phase::Measuring,
                Stage::Reading => Phase::Reading { upto: self.upto },
                Stage::Appending => Phase::Appending {
                    queue: texts(self.queue@).skip(self.next as int),
                },
            },
        }
    }
}

impl Tailer {
    #[verifier::type_invariant]
    spec fn inv(self) -> bool {
        match self.stage {
            Stage::Reading => self.cursor@ < self.upto,
            Stage::Appending => self.next < self.queue@.len(),
            _ => true,
        }
    }

    /// A machine for the source file at `watched`, with its first pass
    /// under way.
    pub fn new(watched: String) -> (tailer: Tailer)
        ensures
            tailer@ == State::initial(watched@),
    {
        Tailer {
            cursor: Cursor::new(),
            watched,
            stage: Stage::Measuring,
            upto: 0,
            queue: Vec::new(),
            next: 0,
        }
    }

    /// The bytes of the source file that have been processed.
    pub fn cursor(&self) -> (offset: u64)
        ensures
            offset == self@.cursor,
    {
        self.cursor.offset()
    }

    /// Whether no pass is under way.
    pub fn is_idle(&self) -> (idle: bool)
        ensures
            idle == (self@.phase is Idle),
    {
        match self.stage {
            Stage::Idle => true,
            _ => false,
        }
    }

    /// What the loop is to do now.
    pub fn action(&self) -> (action: Action)
        ensures
            self@.wf(),
            action@ == self@.action(),
    {
        proof {
            use_type_invariant(self);
        }
        match self.stage {
            Stage::Idle => Action::Wait,
            Stage::Measuring => Action::Measure,
            Stage::Reading => Action::Read(
                Span { start: self.cursor.offset(), len: self.upto - self.cursor.offset() },
            ),
            Stage::Appending => {
                let mut line = self.queue[self.next].clone();
                line.push('\n');
                Action::Append(line)
            },
        }
    }

    /// Takes what came of the last action and says what to do next.
    ///
    /// A notification starts a pass where it concerns the source file. A
    /// pass measures the file, reads what lies beyond the cursor, moves
    /// the cursor to the end of what was read, and hands out the output
    /// lines one by one. A failure ends the pass: before the text was
    /// read the cursor stays, so that the next pass reads the same bytes
    /// again; after it the lines not yet appended are given up.
    pub fn step(&mut self, input: Input) -> (reaction: Reaction)
        ensures
            final(self)@ == old(self)@.step(input@),
            final(self)@.wf(),
            reaction.action@ == final(self)@.action(),
            faults(reaction.rejected@) == old(self)@.rejected(input@),
    {
        proof {
            use_type_invariant(&*self);
        }
        let mut rejected: Vec<ParseError> = Vec::new();
        assert(faults(rejected@) == Seq::<(Seq<char>, Fault)>::empty());
        match self.stage {
            Stage::Idle => match input {
                Input::Change(event) => {
                    if event.concerns(&self.watched) {
                        self.stage = Stage::Measuring;
                    }
                },
                _ => {},
            },
            Stage::Measuring => match input {
                Input::Length(length) => match self.cursor.pending(length) {
                    Some(_) => {
                        self.upto = length;
                        self.stage = Stage::Reading;
                    },
                    None => {
                        self.stage = Stage::Idle;
                    },
                },
                Input::Failed => {
                    self.stage = Stage::Idle;
                },
                _ => {},
            },
            Stage::Reading => match input {
                Input::Text(text) => {
                    let Batch { lines, rejected: refused } = process(text.as_str());
                    rejected = refused;
                    let upto = self.upto;
                    self.stage = Stage::Idle;
                    let mut cursor = self.cursor;
                    cursor.advance(upto);
                    self.cursor = cursor;
                    if lines.len() > 0 {
                        self.queue = lines;
                        self.next = 0;
                        self.stage = Stage::Appending;
                        assert(texts(self.queue@).skip(0) == outputs(text@));
                    }
                },
                Input::Failed => {
                    self.stage = Stage::Idle;
                },
                _ => {},
            },
            Stage::Appending => match input {
                Input::Appended => {
                    assert(texts(self.queue@).skip(self.next as int).drop_first() == texts(
                        self.queue@,
                    ).skip(self.next + 1));
                    if self.next < self.queue.len() - 1 {
                        self.next = self.next + 1;
                    } else {
                        self.stage = Stage::Idle;
                        self.queue = Vec::new();
                    }
                },
                Input::Failed => {
                    self.stage = Stage::Idle;
                    self.queue = Vec::new();
                },
                _ => {},
            },
        }
        let action = self.action();
        Reaction { action, rejected }
    }
}

} // verus!
