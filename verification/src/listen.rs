//! Collecting text from the port.

use crate::host;
use crate::host::{
    elapsed_since, Machine, Moment, Replies, Reply, ReplyView, Request, RequestView, Turn, TurnView,
    MILLISECOND,
};
use crate::recognise::Accept;
use vstd::prelude::*;

verus! {

/// How much one read takes at most.
pub const READ_LIMIT: usize = 256;

/// How long to pause when a read brought nothing, so that a port that returns at once does not
/// spin.
pub const PAUSE: u64 = 5 * MILLISECOND;

/// A wait for text.
pub struct ReadUntil {
    start: u64,
    overall: u64,
    idle: u64,
    accept: Accept,
    buf: Vec<u8>,
    last_data: Option<u64>,
    pausing: bool,
}

/// A [`ReadUntil`] with its bytes as a sequence.
pub struct ReadUntilView {
    /// When the wait began.
    pub start: u64,
    /// How long it may last.
    pub overall: u64,
    /// How long the port may be quiet once it has sent something.
    pub idle: u64,
    /// What ends the wait early.
    pub accept: Accept,
    /// What has come in.
    pub buf: Seq<u8>,
    /// When something came in last.
    pub last_data: Option<u64>,
    /// Whether the outstanding request is a pause, not a read.
    pub pausing: bool,
}

impl View for ReadUntil {
    type V = ReadUntilView;

    closed spec fn view(&self) -> ReadUntilView {
        ReadUntilView {
            start: self.start,
            overall: self.overall,
            idle: self.idle,
            accept: self.accept,
            buf: self.buf@,
            last_data: self.last_data,
            pausing: self.pausing,
        }
    }
}

impl ReadUntilView {
    pub open spec fn opened(overall: u64, idle: u64, accept: Accept, now: u64) -> Self {
        ReadUntilView {
            start: now,
            overall,
            idle,
            accept,
            buf: Seq::empty(),
            last_data: None,
            pausing: false,
        }
    }

    /// Whether the port has been quiet for long enough. It never is before it has sent something.
    pub open spec fn quiet(self, now: u64) -> bool {
        self.last_data is Some && host::elapsed(self.last_data->0, now) >= self.idle
    }

    /// Reads on until the time is up.
    pub open spec fn listen(self, now: u64) -> TurnView<Self, Seq<u8>> {
        if host::elapsed(self.start, now) < self.overall {
            TurnView::Ask(ReadUntilView { pausing: false, ..self }, RequestView::Read(READ_LIMIT))
        } else {
            TurnView::Done(self.buf)
        }
    }

    /// Takes in what has come.
    pub open spec fn with(self, bytes: Seq<u8>, now: u64) -> Self {
        ReadUntilView { buf: self.buf + bytes, last_data: Some(now), ..self }
    }
}

impl Machine for ReadUntilView {
    type Output = Seq<u8>;

    open spec fn next(self, reply: ReplyView, at: Moment) -> TurnView<Self, Seq<u8>> {
        if self.pausing {
            self.listen(at.now)
        } else if reply is Bytes && reply->Bytes_0.len() > 0 {
            let more = self.with(reply->Bytes_0, at.now);
            if self.accept.holds(more.buf) {
                TurnView::Done(more.buf)
            } else {
                more.listen(at.now)
            }
        } else if self.quiet(at.now) {
            TurnView::Done(self.buf)
        } else {
            TurnView::Ask(ReadUntilView { pausing: true, ..self }, RequestView::Sleep(PAUSE))
        }
    }
}

impl ReadUntil {
    fn listen(self, now: u64) -> (turn: Turn<ReadUntil, Vec<u8>>)
        ensures
            turn@ == self@.listen(now),
    {
        if elapsed_since(self.start, now) < self.overall {
            Turn::Ask(
                ReadUntil { pausing: false, ..self },
                Request::Read { limit: READ_LIMIT },
            )
        } else {
            Turn::Done(self.buf)
        }
    }

    /// Goes on with the wait once the host has replied. A read that failed counts as one that
    /// brought nothing.
    pub fn step(self, reply: Reply, at: Moment) -> (turn: Turn<ReadUntil, Vec<u8>>)
        ensures
            turn@ == self@.next(reply@, at),
    {
        if self.pausing {
            return self.listen(at.now);
        }
        if let Reply::Bytes(bytes) = reply {
            if bytes.len() > 0 {
                let mut buf: Vec<u8> = self.buf;
                let mut bytes: Vec<u8> = bytes;
                buf.append(&mut bytes);
                if self.accept.test(&buf) {
                    return Turn::Done(buf);
                }
                let more = ReadUntil { buf, last_data: Some(at.now), ..self };
                return more.listen(at.now);
            }
        }
        let quiet: bool = match self.last_data {
            Some(t) => elapsed_since(t, at.now) >= self.idle,
            None => false,
        };
        if quiet {
            Turn::Done(self.buf)
        } else {
            Turn::Ask(ReadUntil { pausing: true, ..self }, Request::Sleep { nanos: PAUSE })
        }
    }
}

/// Collects bytes until any of: `accept` holds, the port goes quiet for `idle` after having sent
/// something, or `overall` is over.
pub fn read_until(overall: u64, idle: u64, accept: Accept, now: u64) -> (turn: Turn<
    ReadUntil,
    Vec<u8>,
>)
    ensures
        turn@ == ReadUntilView::opened(overall, idle, accept, now).listen(now),
{
    let wait = ReadUntil {
        start: now,
        overall,
        idle,
        accept,
        buf: Vec::new(),
        last_data: None,
        pausing: false,
    };
    wait.listen(now)
}

/// Reads and drops whatever is buffered already.
pub fn drain(dur: u64, now: u64) -> (turn: Turn<ReadUntil, Vec<u8>>)
    ensures
        turn@ == ReadUntilView::opened(dur, dur, Accept::Never, now).listen(now),
{
    read_until(dur, dur, Accept::Never, now)
}

/// The first turn of a wait for text.
pub open spec fn wait_turn(overall: u64, idle: u64, accept: Accept, now: u64) -> TurnView<
    ReadUntilView,
    Seq<u8>,
> {
    ReadUntilView::opened(overall, idle, accept, now).listen(now)
}

/// When the last read was done that brought something for a wait.
pub open spec fn last_read(first: TurnView<ReadUntilView, Seq<u8>>, replies: Replies) -> Option<u64>
    decreases replies.len(),
{
    if replies.len() == 0 {
        None
    } else if host::read_reply(
        host::run(first, replies.drop_last()),
        replies.last().0,
    ).len() > 0 {
        Some(replies.last().1.now)
    } else {
        last_read(first, replies.drop_last())
    }
}

/// How a wait that is still open stands: it holds everything that was read for it, none of which
/// has been accepted, and it knows when something came in last.
pub open spec fn waits(
    m: ReadUntilView,
    first: TurnView<ReadUntilView, Seq<u8>>,
    replies: Replies,
) -> bool {
    &&& m.buf == host::heard(first, replies)
    &&& m.last_data == last_read(first, replies)
    &&& m.last_data is Some <==> m.buf.len() > 0
    &&& m.buf.len() > 0 ==> !m.accept.holds(m.buf)
}

proof fn lemma_open_wait(overall: u64, idle: u64, accept: Accept, now: u64, replies: Replies)
    ensures
        ({
            let first = wait_turn(overall, idle, accept, now);
            match host::run(first, replies) {
                TurnView::Ask(m, r) => {
                    &&& waits(m, first, replies)
                    &&& m.start == now
                    &&& m.overall == overall
                    &&& m.idle == idle
                    &&& m.accept == accept
                    &&& m.pausing <==> r !is Read
                    &&& m.pausing ==> r == RequestView::Sleep(PAUSE)
                },
                TurnView::Done(out) => out == host::heard(first, replies),
                TurnView::Failed(_) => false,
            }
        }),
    decreases replies.len(),
{
    let first = wait_turn(overall, idle, accept, now);
    if replies.len() > 0 {
        lemma_open_wait(overall, idle, accept, now, replies.drop_last());
        let before = host::heard(first, replies.drop_last());
        assert(before + Seq::<u8>::empty() =~= before);
    }
}

/// A wait for text never fails, and what it returns is everything that was read for it, in order.
pub proof fn law_wait_returns_what_was_read(
    overall: u64,
    idle: u64,
    accept: Accept,
    now: u64,
    replies: Replies,
)
    ensures
        ({
            let first = wait_turn(overall, idle, accept, now);
            &&& host::run(first, replies) !is Failed
            &&& host::run(first, replies) matches TurnView::Done(out) ==> out == host::heard(
                first,
                replies,
            )
        }),
{
    lemma_open_wait(overall, idle, accept, now, replies);
}

/// A wait for text ends for one of three reasons only: what came in is accepted, the idle time has
/// passed since the last read that brought something, or the whole time is over. In particular it
/// does not end for want of data before any data has come.
pub proof fn law_why_a_wait_ends(
    overall: u64,
    idle: u64,
    accept: Accept,
    now: u64,
    replies: Replies,
)
    requires
        replies.len() > 0,
        host::run(wait_turn(overall, idle, accept, now), replies.drop_last()) is Ask,
        host::run(wait_turn(overall, idle, accept, now), replies) is Done,
    ensures
        ({
            let first = wait_turn(overall, idle, accept, now);
            let out = host::run(first, replies)->Done_0;
            let end = replies.last().1.now;
            ||| accept.holds(out)
            ||| last_read(first, replies) matches Some(then) && host::elapsed(then, end) >= idle
            ||| host::elapsed(now, end) >= overall
        }),
{
    lemma_open_wait(overall, idle, accept, now, replies.drop_last());
}

/// A wait for text ends with the first read after which what came in is accepted.
pub proof fn law_wait_ends_when_accepted(
    overall: u64,
    idle: u64,
    accept: Accept,
    now: u64,
    replies: Replies,
)
    ensures
        ({
            let first = wait_turn(overall, idle, accept, now);
            host::heard(first, replies).len() > 0 && accept.holds(host::heard(first, replies))
                ==> host::run(first, replies) == TurnView::<ReadUntilView, Seq<u8>>::Done(
                host::heard(first, replies),
            )
        }),
{
    lemma_open_wait(overall, idle, accept, now, replies);
}

/// How a wait for text goes on, from its first request to its last. It reads, at most 256 bytes at a
/// time, unless it has no time at all. A read that brings something ends it if all that has come in
/// is accepted or the time is over, and is followed by another read otherwise. A read that brings
/// nothing ends it if the idle time has passed since the last one that brought something, and is
/// followed by a pause of five milliseconds otherwise. After a pause it ends if the time is over,
/// and reads otherwise.
pub proof fn law_how_a_wait_goes_on(
    overall: u64,
    idle: u64,
    accept: Accept,
    now: u64,
    replies: Replies,
)
    ensures
        ({
            let first = wait_turn(overall, idle, accept, now);
            &&& overall == 0 ==> first == TurnView::<ReadUntilView, Seq<u8>>::Done(Seq::empty())
            &&& overall > 0 ==> first is Ask && first->Ask_1 == RequestView::Read(256)
            &&& replies.len() > 0 && host::run(first, replies.drop_last()) is Ask ==> {
                let request = host::run(first, replies.drop_last())->Ask_1;
                let turn = host::run(first, replies);
                let (reply, at) = replies.last();
                let text = host::heard(first, replies);
                let done = TurnView::<ReadUntilView, Seq<u8>>::Done(text);
                let over = at.now >= now + overall || overall == 0;
                let quiet = match last_read(first, replies) {
                    Some(then) => at.now >= then + idle || idle == 0,
                    None => false,
                };
                &&& request == RequestView::Read(256) || request == RequestView::Sleep(5_000_000)
                &&& request is Read && reply is Bytes && reply->Bytes_0.len() > 0 ==> {
                    if accept.holds(text) || over {
                        turn == done
                    } else {
                        turn is Ask && turn->Ask_1 == RequestView::Read(256)
                    }
                }
                &&& request is Read && !(reply is Bytes && reply->Bytes_0.len() > 0) ==> {
                    if quiet {
                        turn == done
                    } else {
                        turn is Ask && turn->Ask_1 == RequestView::Sleep(5_000_000)
                    }
                }
                &&& request is Sleep ==> {
                    if over {
                        turn == done
                    } else {
                        turn is Ask && turn->Ask_1 == RequestView::Read(256)
                    }
                }
            }
        }),
{
    let first = wait_turn(overall, idle, accept, now);
    if replies.len() > 0 {
        lemma_open_wait(overall, idle, accept, now, replies.drop_last());
        lemma_open_wait(overall, idle, accept, now, replies);
        let before = host::heard(first, replies.drop_last());
        assert(before + Seq::<u8>::empty() =~= before);
        lemma_wait_reads_so_much(overall, idle, accept, now, replies.drop_last());
    }
}

proof fn lemma_wait_reads_so_much(
    overall: u64,
    idle: u64,
    accept: Accept,
    now: u64,
    replies: Replies,
)
    ensures
        host::run(wait_turn(overall, idle, accept, now), replies) matches TurnView::Ask(_, request)
            ==> request == RequestView::Read(256) || request == RequestView::Sleep(5_000_000),
{
    if replies.len() > 0 {
        assert(host::run(wait_turn(overall, idle, accept, now), replies.drop_last()) is Ask
            || host::run(wait_turn(overall, idle, accept, now), replies) !is Ask);
    }
}

} // verus!
