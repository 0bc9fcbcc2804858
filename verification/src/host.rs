//! The conversation between the library and the host that owns the port, the clock and the disk.
//!
//! The library never touches a device. Each activity is a machine. A machine is opened by a
//! function that returns its first [`Turn`]. On [`Turn::Ask`] the host carries out the request and
//! hands the reply to the machine's `step`, together with the [`Moment`] at which the request was
//! done. `step` consumes the machine, so one that is done or has failed cannot be continued.

use crate::error::{FlashError, FlashErrorView};
use crate::event::{FlashEvent, FlashEventView};
use vstd::prelude::*;

verus! {

/// One millisecond in the unit of [`Moment::now`].
pub const MILLISECOND: u64 = 1_000_000;

/// One second in the unit of [`Moment::now`].
pub const SECOND: u64 = 1_000_000_000;

/// What the host knows at one moment.
#[derive(Clone, Copy, Debug)]
pub struct Moment {
    /// The reading of a monotonic clock, in nanoseconds.
    pub now: u64,
    /// Whether the user has cancelled the job.
    pub cancelled: bool,
}

/// The time between two clock readings; none if the clock reads earlier than before.
pub open spec fn elapsed(since: u64, now: u64) -> int {
    if now >= since {
        now - since
    } else {
        0
    }
}

pub fn elapsed_since(since: u64, now: u64) -> (d: u64)
    ensures
        d == elapsed(since, now),
        now >= since ==> d == now - since,
        now < since ==> d == 0,
{
    now.saturating_sub(since)
}

/// How a request failed, as far as it matters.
#[derive(Clone, Copy, Debug, PartialEq, Eq, Structural)]
pub enum FaultKind {
    TimedOut,
    WouldBlock,
    Other,
}

/// A request that the host could not carry out.
#[derive(Debug)]
pub struct Fault {
    pub kind: FaultKind,
    pub message: String,
}

/// A [`Fault`] with its message as a sequence of characters.
pub struct FaultView {
    pub kind: FaultKind,
    pub message: Seq<char>,
}

/// What the host answers to a request.
#[derive(Debug)]
pub enum Reply {
    /// The request was carried out. The bytes are those that it asked for; a request that asks for
    /// none is answered without any.
    Bytes(Vec<u8>),
    /// The request failed.
    Failed(Fault),
}

/// A [`Reply`] with its bytes as a sequence.
pub enum ReplyView {
    Bytes(Seq<u8>),
    Failed(FaultView),
}

impl View for Reply {
    type V = ReplyView;

    open spec fn view(&self) -> ReplyView {
        match *self {
            Reply::Bytes(b) => ReplyView::Bytes(b@),
            Reply::Failed(f) => ReplyView::Failed(
                FaultView { kind: f.kind, message: f.message@ },
            ),
        }
    }
}

/// What a machine asks of the host.
#[derive(Debug)]
pub enum Request {
    /// Read once from the port, at most `limit` bytes; reply with what came.
    Read { limit: usize },
    /// Write all of the bytes to the port.
    Write { bytes: Vec<u8> },
    /// Do nothing for a while.
    Sleep { nanos: u64 },
    /// Show an event to the user.
    Report { event: FlashEvent },
    /// Read a whole file; reply with its contents.
    LoadFile { path: String },
    /// Open the port; the requests that read and write are about it from then on.
    OpenPort { name: String, baud: u32, timeout: u64 },
}

/// A [`Request`] with its texts and bytes as sequences.
pub enum RequestView {
    Read(usize),
    Write(Seq<u8>),
    Sleep(u64),
    Report(FlashEventView),
    LoadFile(Seq<char>),
    OpenPort(Seq<char>, u32, u64),
}

impl View for Request {
    type V = RequestView;

    open spec fn view(&self) -> RequestView {
        match *self {
            Request::Read { limit } => RequestView::Read(limit),
            Request::Write { bytes } => RequestView::Write(bytes@),
            Request::Sleep { nanos } => RequestView::Sleep(nanos),
            Request::Report { event } => RequestView::Report(event@),
            Request::LoadFile { path } => RequestView::LoadFile(path@),
            Request::OpenPort { name, baud, timeout } => RequestView::OpenPort(
                name@,
                baud,
                timeout,
            ),
        }
    }
}

/// The result of a machine that has nothing to return.
#[derive(Clone, Copy, Debug, PartialEq, Eq, Structural)]
pub struct Finished;

impl View for Finished {
    type V = Finished;

    open spec fn view(&self) -> Finished {
        *self
    }
}

/// What a machine does next.
#[derive(Debug)]
pub enum Turn<M, T> {
    /// It waits for the reply to a request.
    Ask(M, Request),
    /// It has ended with a result.
    Done(T),
    /// It has given up.
    Failed(FlashError),
}

/// A [`Turn`] over the views of its parts.
pub enum TurnView<M, T> {
    Ask(M, RequestView),
    Done(T),
    Failed(FlashErrorView),
}

impl<M: View, T: View> View for Turn<M, T> {
    type V = TurnView<M::V, T::V>;

    open spec fn view(&self) -> TurnView<M::V, T::V> {
        match *self {
            Turn::Ask(m, r) => TurnView::Ask(m@, r@),
            Turn::Done(t) => TurnView::Done(t@),
            Turn::Failed(e) => TurnView::Failed(e@),
        }
    }
}

/// The transitions of a machine: what it does next once a reply has come in.
pub trait Machine: Sized {
    type Output;

    spec fn next(self, reply: ReplyView, at: Moment) -> TurnView<Self, Self::Output>;
}

/// Replies in the order in which they came in, each with its moment.
pub type Replies = Seq<(ReplyView, Moment)>;

/// Where a conversation stands once all of `replies` have come in. Replies that come in after its
/// end change nothing.
pub open spec fn run<M: Machine>(
    first: TurnView<M, M::Output>,
    replies: Replies,
) -> TurnView<M, M::Output>
    decreases replies.len(),
{
    if replies.len() == 0 {
        first
    } else {
        match run(first, replies.drop_last()) {
            TurnView::Ask(m, _) => m.next(replies.last().0, replies.last().1),
            ended => ended,
        }
    }
}

/// The bytes that a turn asks to have written, if any.
pub open spec fn turn_write<M, T>(turn: TurnView<M, T>) -> Seq<Seq<u8>> {
    match turn {
        TurnView::Ask(_, RequestView::Write(bytes)) => seq![bytes],
        _ => Seq::empty(),
    }
}

/// Everything that a conversation has asked to have written, in order.
pub open spec fn writes<M: Machine>(
    first: TurnView<M, M::Output>,
    replies: Replies,
) -> Seq<Seq<u8>>
    decreases replies.len(),
{
    if replies.len() == 0 {
        turn_write(first)
    } else {
        match run(first, replies.drop_last()) {
            TurnView::Ask(_, _) => writes(first, replies.drop_last()) + turn_write(
                run(first, replies),
            ),
            _ => writes(first, replies.drop_last()),
        }
    }
}

/// The event that a turn asks to have shown, if any.
pub open spec fn turn_report<M, T>(turn: TurnView<M, T>) -> Seq<FlashEventView> {
    match turn {
        TurnView::Ask(_, RequestView::Report(event)) => seq![event],
        _ => Seq::empty(),
    }
}

/// Everything that a conversation has asked to have shown, in order.
pub open spec fn reports<M: Machine>(
    first: TurnView<M, M::Output>,
    replies: Replies,
) -> Seq<FlashEventView>
    decreases replies.len(),
{
    if replies.len() == 0 {
        turn_report(first)
    } else {
        match run(first, replies.drop_last()) {
            TurnView::Ask(_, _) => reports(first, replies.drop_last()) + turn_report(
                run(first, replies),
            ),
            _ => reports(first, replies.drop_last()),
        }
    }
}

/// Whether everything that a conversation has asked to have written could be written.
pub open spec fn all_written<M: Machine>(first: TurnView<M, M::Output>, replies: Replies) -> bool
    decreases replies.len(),
{
    replies.len() > 0 ==> {
        &&& all_written(first, replies.drop_last())
        &&& turn_write(run(first, replies.drop_last())).len() > 0 ==> replies.last().0 is Bytes
    }
}

/// The bytes that a reply brings to a turn that asked for a read.
pub open spec fn read_reply<M, T>(turn: TurnView<M, T>, reply: ReplyView) -> Seq<u8> {
    match (turn, reply) {
        (TurnView::Ask(_, RequestView::Read(_)), ReplyView::Bytes(bytes)) => bytes,
        _ => Seq::empty(),
    }
}

/// Everything that a conversation has had read for it, in order.
pub open spec fn heard<M: Machine>(first: TurnView<M, M::Output>, replies: Replies) -> Seq<u8>
    decreases replies.len(),
{
    if replies.len() == 0 {
        Seq::empty()
    } else {
        heard(first, replies.drop_last()) + read_reply(
            run(first, replies.drop_last()),
            replies.last().0,
        )
    }
}

/// A conversation goes on from where it stands.
pub proof fn lemma_run_concat<M: Machine>(
    first: TurnView<M, M::Output>,
    a: Replies,
    b: Replies,
)
    ensures
        run(first, a + b) == run(run(first, a), b),
    decreases b.len(),
{
    if b.len() == 0 {
        assert(a + b =~= a);
    } else {
        lemma_run_concat(first, a, b.drop_last());
        assert((a + b).drop_last() =~= a + b.drop_last());
        assert((a + b).last() == b.last());
    }
}

} // verus!
