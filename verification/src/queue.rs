//! Command queue: commands leave for the channel one at a time, in the
//! order in which they were submitted.

use vstd::prelude::*;
use vstd::utf8::encode_utf8;

verus! {

/// How long the worker waits for a command to complete, in milliseconds.
pub const CONTROL_COMMAND_TIMEOUT_MS: u64 = 2500;

/// How long the worker waits for the next command before it looks at the
/// channel's liveness again, in milliseconds.
pub const CONTROL_COMMAND_QUEUE_POLL_MS: u64 = 100;

/// How much longer than the worker a caller waits for its result, in
/// milliseconds.
pub const CONTROL_COMMAND_CALLER_GRACE_MS: u64 = 200;

/// A command on its way to the channel. `T` is whatever delivers the result
/// to the caller that submitted it.
pub struct ControlCommand<T> {
    pub command: String,
    pub result_tx: T,
}

/// The commands of one channel: those that wait, oldest first, and the one
/// whose bytes have been handed out and whose result is not in yet.
pub struct CommandQueue<T> {
    waiting: Vec<ControlCommand<T>>,
    in_flight: Option<T>,
}

pub struct QueueView<T> {
    /// The text and the result handle of each waiting command, oldest first.
    pub waiting: Seq<(Seq<char>, T)>,
    /// The result handle of the command in flight.
    pub in_flight: Option<T>,
}

impl<T> View for CommandQueue<T> {
    type V = QueueView<T>;

    closed spec fn view(&self) -> QueueView<T> {
        QueueView {
            waiting: Seq::new(
                self.waiting@.len(),
                |i: int| (self.waiting@[i].command@, self.waiting@[i].result_tx),
            ),
            in_flight: self.in_flight,
        }
    }
}

/// The queue after `command` was submitted.
pub open spec fn submitted<T>(q: QueueView<T>, command: Seq<char>, result_tx: T) -> QueueView<T> {
    QueueView { waiting: q.waiting.push((command, result_tx)), in_flight: q.in_flight }
}

/// The command that may be written now: the oldest one that waits, and only
/// while none is in flight.
pub open spec fn writable<T>(q: QueueView<T>) -> Option<Seq<char>> {
    if q.in_flight is None && q.waiting.len() > 0 {
        Some(q.waiting[0].0)
    } else {
        None
    }
}

/// The queue after the writable command, if any, was handed out.
pub open spec fn dispatched<T>(q: QueueView<T>) -> QueueView<T> {
    if q.in_flight is None && q.waiting.len() > 0 {
        QueueView { waiting: q.waiting.drop_first(), in_flight: Some(q.waiting[0].1) }
    } else {
        q
    }
}

/// The queue after the command in flight completed.
pub open spec fn completed<T>(q: QueueView<T>) -> QueueView<T> {
    QueueView { waiting: q.waiting, in_flight: None }
}

impl<T> CommandQueue<T> {
    pub fn new() -> (q: Self)
        ensures
            q@.waiting.len() == 0,
            q@.in_flight is None,
    {
        CommandQueue { waiting: Vec::new(), in_flight: None }
    }

    /// Whether a command is in flight.
    pub fn is_busy(&self) -> (r: bool)
        ensures
            r == self@.in_flight is Some,
    {
        self.in_flight.is_some()
    }

    /// How many commands wait.
    pub fn waiting_len(&self) -> (r: usize)
        ensures
            r == self@.waiting.len(),
    {
        self.waiting.len()
    }

    /// Submits a command. Its result will go to `result_tx`.
    pub fn enqueue(&mut self, command: String, result_tx: T)
        ensures
            final(self)@ == submitted(old(self)@, command@, result_tx),
    {
        self.waiting.push(ControlCommand { command, result_tx });
        assert(self@.waiting =~= old(self)@.waiting.push((command@, result_tx)));
    }

    /// Hands out the text of the next command to write, if one may be
    /// written now. It is in flight from then on, and until `complete` no
    /// other command is handed out.
    pub fn next_command(&mut self) -> (r: Option<String>)
        ensures
            opt_text(r) == writable(old(self)@),
            final(self)@ == dispatched(old(self)@),
    {
        if self.in_flight.is_some() || self.waiting.len() == 0 {
            return None;
        }
        let first = self.waiting.remove(0);
        self.in_flight = Some(first.result_tx);
        assert(self@.waiting =~= old(self)@.waiting.drop_first());
        Some(first.command)
    }

    /// Ends the command in flight and hands back where its result goes.
    pub fn complete(&mut self) -> (r: Option<T>)
        ensures
            r == old(self)@.in_flight,
            final(self)@ == completed(old(self)@),
    {
        let r = self.in_flight.take();
        assert(self@.waiting =~= old(self)@.waiting);
        r
    }
}

pub open spec fn opt_text(o: Option<String>) -> Option<Seq<char>> {
    match o {
        Some(s) => Some(s@),
        None => None,
    }
}

/// The bytes that go to the channel for one command: its text and a line
/// feed.
pub open spec fn command_bytes(command: Seq<char>) -> Seq<u8> {
    encode_utf8(command) + seq![0x0Au8]
}

pub fn wire_bytes(command: &str) -> (out: Vec<u8>)
    ensures
        out@ == command_bytes(command@),
{
    let bytes = command.as_bytes();
    let mut out: Vec<u8> = Vec::new();
    let mut i: usize = 0;
    while i < bytes.len()
        invariant
            i <= bytes.len(),
            out@ == bytes@.subrange(0, i as int),
        decreases bytes.len() - i,
    {
        out.push(bytes[i]);
        i += 1;
        assert(out@ =~= bytes@.subrange(0, i as int));
    }
    assert(bytes@.subrange(0, bytes@.len() as int) =~= bytes@);
    out.push(0x0A);
    out
}

/// No command is written while another is in flight.
pub proof fn lemma_one_in_flight<T>(q: QueueView<T>)
    ensures
        q.in_flight is Some ==> writable(q) is None && dispatched(q) == q,
        writable(q) is Some ==> dispatched(q).in_flight is Some && writable(dispatched(q))
            is None,
{
}

/// Two commands submitted back to back leave in the order of submission,
/// and the second is not written before the first has completed: once the
/// first is handed out nothing is writable, however often one asks, until
/// `complete`; then the second is.
pub proof fn lemma_submission_order<T>(
    q: QueueView<T>,
    first: Seq<char>,
    first_tx: T,
    second: Seq<char>,
    second_tx: T,
)
    requires
        q.waiting.len() == 0,
        q.in_flight is None,
    ensures
        ({
            let both = submitted(submitted(q, first, first_tx), second, second_tx);
            let busy = dispatched(both);
            let free = completed(busy);
            &&& writable(both) == Some(first)
            &&& busy.in_flight == Some(first_tx)
            &&& writable(busy) is None
            &&& dispatched(busy) == busy
            &&& writable(free) == Some(second)
            &&& dispatched(free).in_flight == Some(second_tx)
            &&& dispatched(free).waiting.len() == 0
        }),
{
    let both = submitted(submitted(q, first, first_tx), second, second_tx);
    assert(both.waiting[0] == (first, first_tx));
    assert(both.waiting.drop_first()[0] == (second, second_tx));
}

/// Whatever waits, commands are handed out oldest first: the command that
/// becomes writable after a completion is the one that was submitted
/// earliest among those that wait.
pub proof fn lemma_fifo<T>(q: QueueView<T>, command: Seq<char>, result_tx: T)
    requires
        q.waiting.len() > 0,
    ensures
        writable(completed(submitted(q, command, result_tx))) == Some(q.waiting[0].0),
        dispatched(completed(submitted(q, command, result_tx))).waiting == q.waiting.drop_first().push(
            (command, result_tx),
        ),
{
    let s = submitted(q, command, result_tx);
    assert(s.waiting[0] == q.waiting[0]);
    assert(s.waiting.drop_first() =~= q.waiting.drop_first().push((command, result_tx)));
}

} // verus!
