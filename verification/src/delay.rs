//! A delay pipeline: commands that wait for their delay before they take
//! effect, with the means to hurry them and to drop them.
//!
//! The pipeline holds two queues. A command that comes in waits in the
//! first; when the delay of the command at its head has passed, that command
//! moves to the second, from which the display takes one command at a time.

use crate::command::{Command, CommandView};
use crate::text::{chars_of, parse_decimal, parse_u64};
use vstd::prelude::*;

verus! {

/// The delay written as `delay`, in milliseconds; 0 where none is written or
/// what is written is no number.
pub open spec fn delay_millis(delay: Option<Seq<char>>) -> nat {
    match delay {
        Some(d) => match parse_decimal(d, u64::MAX as nat) {
            Some(n) => n,
            None => 0,
        },
        None => 0,
    }
}

/// How long the command waits at the head of the queue: its delay for a
/// figure or a move; no other command ever leaves by itself.
pub open spec fn wait_of(c: CommandView) -> Option<nat> {
    match c {
        CommandView::Figure { delay, .. } => Some(delay_millis(delay)),
        CommandView::Move { delay, .. } => Some(delay_millis(delay)),
        _ => None,
    }
}

/// A delay pipeline.
#[derive(Debug)]
pub struct DelayExecutor {
    /// The commands that wait for their delay, oldest first.
    pub waiting: Vec<Command>,
    /// The commands that the display is to apply, oldest first.
    pub ready: Vec<Command>,
}

/// Mathematical model of a [`DelayExecutor`].
pub ghost struct DelayView {
    pub waiting: Seq<CommandView>,
    pub ready: Seq<CommandView>,
}

impl View for DelayExecutor {
    type V = DelayView;

    open spec fn view(&self) -> DelayView {
        DelayView { waiting: self.waiting.deep_view(), ready: self.ready.deep_view() }
    }
}

impl DelayView {
    /// The pipeline after `command` came in.
    pub open spec fn enqueued(self, command: CommandView) -> DelayView {
        DelayView { waiting: self.waiting.push(command), ..self }
    }

    /// How long the head of the queue still has to wait, in milliseconds;
    /// `None` where nothing waits or the head never leaves by itself.
    pub open spec fn wait(self) -> Option<nat> {
        if self.waiting.len() > 0 {
            wait_of(self.waiting[0])
        } else {
            None
        }
    }

    /// The pipeline after the delay of its head has passed.
    pub open spec fn elapsed(self) -> DelayView {
        if self.wait() is Some {
            DelayView {
                waiting: self.waiting.drop_first(),
                ready: self.ready.push(self.waiting[0]),
            }
        } else {
            self
        }
    }

    /// The pipeline after it was hurried: all that waited is handed to the
    /// display at once, in the order in which it came in.
    pub open spec fn skipped(self) -> DelayView {
        DelayView { waiting: Seq::empty(), ready: self.ready + self.waiting }
    }

    /// The pipeline after what waited was dropped.
    pub open spec fn cleared(self) -> DelayView {
        DelayView { waiting: Seq::empty(), ..self }
    }

    /// The pipeline after the display took a command, and that command,
    /// without its delay.
    pub open spec fn polled(self) -> (DelayView, Option<CommandView>) {
        if self.ready.len() > 0 {
            (
                DelayView { ready: self.ready.drop_first(), ..self },
                Some(self.ready[0].without_delay()),
            )
        } else {
            (self, None)
        }
    }
}

/// The delay of a figure or a move in milliseconds.
pub fn millis_of(delay: &Option<String>) -> (r: u64)
    ensures
        r == delay_millis(delay.deep_view()),
{
    match delay {
        Some(d) => {
            let chars = chars_of(d.as_str());
            match parse_u64(&chars) {
                Some(n) => n,
                None => 0,
            }
        },
        None => 0,
    }
}

impl DelayExecutor {
    /// A pipeline in which nothing waits.
    pub fn new() -> (r: Self)
        ensures
            r@ == (DelayView { waiting: Seq::empty(), ready: Seq::empty() }),
    {
        let r = DelayExecutor { waiting: Vec::new(), ready: Vec::new() };
        assert(r@.waiting =~= Seq::empty());
        assert(r@.ready =~= Seq::empty());
        r
    }

    /// Takes in a command. It is never dropped for want of room.
    pub fn enqueue(&mut self, command: Command)
        ensures
            final(self)@ == old(self)@.enqueued(command@),
    {
        let ghost before = self.waiting.deep_view();
        let ghost added = command@;
        self.waiting.push(command);
        assert(self.waiting.deep_view() =~= before.push(added));
    }

    /// How long the head of the queue has to wait, in milliseconds.
    pub fn wait(&self) -> (r: Option<u64>)
        ensures
            match r {
                Some(ms) => self@.wait() == Some(ms as nat),
                None => self@.wait() is None,
            },
    {
        if self.waiting.len() > 0 {
            assert(self@.waiting[0] == self.waiting@[0]@);
            match &self.waiting[0] {
                Command::Figure { delay, .. } => Some(millis_of(delay)),
                Command::Move { delay, .. } => Some(millis_of(delay)),
                _ => None,
            }
        } else {
            None
        }
    }

    /// The delay of the head of the queue has passed: the head is handed to
    /// the display. Without a head that can leave, nothing changes.
    pub fn elapse(&mut self)
        ensures
            final(self)@ == old(self)@.elapsed(),
    {
        if self.wait().is_some() {
            let ghost waiting = self.waiting.deep_view();
            let ghost ready = self.ready.deep_view();
            let head = self.waiting.remove(0);
            assert(head@ == waiting[0]);
            assert(self.waiting.deep_view() =~= waiting.drop_first());
            self.ready.push(head);
            assert(self.ready.deep_view() =~= ready.push(waiting[0]));
        }
    }

    /// Hurries the queue: all that waits is handed to the display at once,
    /// in the order in which it came in, nods included.
    pub fn skip(&mut self)
        ensures
            final(self)@ == old(self)@.skipped(),
    {
        let ghost waiting = self.waiting.deep_view();
        let ghost ready = self.ready.deep_view();
        self.ready.append(&mut self.waiting);
        assert(self.ready.deep_view() =~= ready + waiting);
        assert(self.waiting.deep_view() =~= Seq::empty());
    }

    /// Drops what waits. What was handed to the display already stays.
    pub fn clear(&mut self)
        ensures
            final(self)@ == old(self)@.cleared(),
    {
        self.waiting = Vec::new();
        assert(self.waiting.deep_view() =~= Seq::empty());
    }

    /// The display takes the next command to apply, without its delay.
    pub fn poll(&mut self) -> (r: Option<Command>)
        ensures
            final(self)@ == old(self)@.polled().0,
            r.deep_view() == old(self)@.polled().1,
    {
        if self.ready.len() > 0 {
            let ghost ready = self.ready.deep_view();
            let mut head = self.ready.remove(0);
            assert(head@ == ready[0]);
            assert(self.ready.deep_view() =~= ready.drop_first());
            head.delete_delay();
            Some(head)
        } else {
            None
        }
    }
}

/// A command that comes in and is hurried before its delay has passed is
/// handed to the display at once, after everything that waited before it
/// and in the order in which that came in; nothing waits any more.
pub proof fn lemma_skip_after_enqueue(q: DelayView, command: CommandView)
    ensures
        q.enqueued(command).skipped().ready == q.skipped().ready.push(command),
        q.enqueued(command).skipped().ready == q.ready + q.waiting + seq![command],
        q.enqueued(command).skipped().waiting.len() == 0,
{
    assert(q.ready + q.waiting.push(command) =~= (q.ready + q.waiting).push(command));
    assert((q.ready + q.waiting).push(command) =~= q.ready + q.waiting + seq![command]);
}

/// Hurrying hands on every command that waits, each once and in the order
/// in which it came in; what was handed on before keeps its place.
pub proof fn lemma_skip_hands_on_all(q: DelayView, i: int)
    requires
        0 <= i < q.waiting.len(),
    ensures
        q.skipped().ready.len() == q.ready.len() + q.waiting.len(),
        q.skipped().ready[q.ready.len() + i] == q.waiting[i],
        q.skipped().ready.take(q.ready.len() as int) == q.ready,
{
    assert(q.skipped().ready.take(q.ready.len() as int) =~= q.ready);
}

/// A command that comes in and is dropped before its delay has passed never
/// takes effect: nothing waits, and the display is handed what it was
/// handed before and no more, whatever happens to the pipeline afterwards
/// short of a new command coming in.
pub proof fn lemma_clear_after_enqueue(q: DelayView, command: CommandView)
    ensures
        q.enqueued(command).cleared() == q.cleared(),
        q.enqueued(command).cleared().ready == q.ready,
        q.cleared().elapsed() == q.cleared(),
        q.cleared().skipped() == q.cleared(),
{
    assert(q.cleared().ready + Seq::<CommandView>::empty() =~= q.ready);
}

} // verus!
