//! Reading packets from the port, byte by byte.

use crate::codec;
use crate::codec::{checksum1, unchar, SOH};
use crate::error::{FlashError, FlashErrorView};
use crate::host;
use crate::host::{
    elapsed_since, FaultKind, Machine, Moment, Replies, Reply, ReplyView, Request, RequestView,
    Turn, TurnView,
};
use vstd::prelude::*;
use vstd::string::*;

verus! {

/// What a read of one byte came to.
#[derive(Debug)]
pub enum ByteRead {
    Byte(u8),
    /// Nothing yet; read again.
    Again,
    /// The port is broken.
    Failed(FlashError),
}

/// A [`ByteRead`] over the view of its error.
pub enum ByteReadView {
    Byte(u8),
    Again,
    Failed(FlashErrorView),
}

impl View for ByteRead {
    type V = ByteReadView;

    open spec fn view(&self) -> ByteReadView {
        match *self {
            ByteRead::Byte(b) => ByteReadView::Byte(b),
            ByteRead::Again => ByteReadView::Again,
            ByteRead::Failed(e) => ByteReadView::Failed(e@),
        }
    }
}

/// What a read of one byte came to. A read that timed out or would have blocked is no failure.
pub open spec fn byte_read(reply: ReplyView) -> ByteReadView {
    match reply {
        ReplyView::Bytes(bytes) => if bytes.len() == 1 {
            ByteReadView::Byte(bytes[0])
        } else {
            ByteReadView::Again
        },
        ReplyView::Failed(fault) => match fault.kind {
            FaultKind::TimedOut => ByteReadView::Again,
            FaultKind::WouldBlock => ByteReadView::Again,
            FaultKind::Other => ByteReadView::Failed(FlashErrorView::Io(fault.message)),
        },
    }
}

pub fn read_byte(reply: Reply) -> (res: ByteRead)
    ensures
        res@ == byte_read(reply@),
{
    match reply {
        Reply::Bytes(bytes) => {
            if bytes.len() == 1 {
                ByteRead::Byte(bytes[0])
            } else {
                ByteRead::Again
            }
        },
        Reply::Failed(fault) => match fault.kind {
            FaultKind::TimedOut => ByteRead::Again,
            FaultKind::WouldBlock => ByteRead::Again,
            FaultKind::Other => ByteRead::Failed(FlashError::Io(fault.message)),
        },
    }
}

/// A packet that has been read.
#[derive(Debug)]
pub struct Packet {
    pub seq: u8,
    pub ptype: u8,
    pub data: Vec<u8>,
}

/// A [`Packet`] with its data as a sequence.
pub struct PacketView {
    pub seq: u8,
    pub ptype: u8,
    pub data: Seq<u8>,
}

impl View for Packet {
    type V = PacketView;

    open spec fn view(&self) -> PacketView {
        PacketView { seq: self.seq, ptype: self.ptype, data: self.data@ }
    }
}

/// What the bytes behind a start mark amount to.
pub enum Frame {
    /// The packet is not complete.
    More,
    /// LEN leaves no room for SEQ, TYPE and CHECK.
    Short,
    /// CHECK does not match.
    Mismatch,
    Whole(PacketView),
}

/// What the bytes behind a start mark amount to: LEN, then as many bytes as it says, the last of
/// which checks all the others.
pub open spec fn frame(f: Seq<u8>) -> Frame {
    if f.len() == 0 {
        Frame::More
    } else {
        let len = codec::spec_unchar(f[0]) as int;
        if len < 3 {
            Frame::Short
        } else if f.len() <= len {
            Frame::More
        } else if codec::checksum(f.take(len)) != f[len] {
            Frame::Mismatch
        } else {
            Frame::Whole(
                PacketView {
                    seq: codec::spec_unchar(f[1]),
                    ptype: f[2],
                    data: f.subrange(3, len),
                },
            )
        }
    }
}

/// What the bytes behind a start mark amount to.
enum Parsed {
    More,
    Short,
    Mismatch,
    Whole(Packet),
}

impl View for Parsed {
    type V = Frame;

    closed spec fn view(&self) -> Frame {
        match *self {
            Parsed::More => Frame::More,
            Parsed::Short => Frame::Short,
            Parsed::Mismatch => Frame::Mismatch,
            Parsed::Whole(packet) => Frame::Whole(packet@),
        }
    }
}

fn parse(f: &[u8]) -> (res: Parsed)
    ensures
        res@ == frame(f@),
{
    if f.len() == 0 {
        return Parsed::More;
    }
    let len: usize = unchar(f[0]) as usize;
    if len < 3 {
        return Parsed::Short;
    }
    if f.len() <= len {
        return Parsed::More;
    }
    let checked: &[u8] = vstd::slice::slice_subrange(f, 0, len);
    assert(checked@ =~= f@.take(len as int));
    if checksum1(checked) != f[len] {
        return Parsed::Mismatch;
    }
    let mut data: Vec<u8> = Vec::new();
    data.extend_from_slice(vstd::slice::slice_subrange(f, 3, len));
    assert(data@ =~= f@.subrange(3, len as int));
    Parsed::Whole(Packet { seq: unchar(f[1]), ptype: f[2], data })
}

/// A wait for a packet.
pub struct ReadPacket {
    start: u64,
    timeout: u64,
    frame: Option<Vec<u8>>,
}

/// A [`ReadPacket`] with its bytes as a sequence.
pub struct ReadPacketView {
    /// When the time for the packet began to run.
    pub start: u64,
    /// How long it runs.
    pub timeout: u64,
    /// What has come in behind a start mark; none before the mark.
    pub frame: Option<Seq<u8>>,
}

impl View for ReadPacket {
    type V = ReadPacketView;

    closed spec fn view(&self) -> ReadPacketView {
        ReadPacketView {
            start: self.start,
            timeout: self.timeout,
            frame: match self.frame {
                Some(f) => Some(f@),
                None => None,
            },
        }
    }
}

impl ReadPacketView {
    pub open spec fn opened(start: u64, timeout: u64) -> Self {
        ReadPacketView { start, timeout, frame: None }
    }

    /// Reads one byte unless the time is over.
    pub open spec fn listen(self, now: u64) -> TurnView<Self, PacketView> {
        if host::elapsed(self.start, now) > self.timeout {
            TurnView::Failed(FlashErrorView::Plugin("SIWX917: Kermit read timeout"@))
        } else {
            TurnView::Ask(self, RequestView::Read(1))
        }
    }

    /// The packet that a reply completes, if any.
    pub open spec fn completed_by(self, reply: ReplyView) -> Option<PacketView> {
        match (self.frame, byte_read(reply)) {
            (Some(f), ByteReadView::Byte(b)) => match frame(f.push(b)) {
                Frame::Whole(packet) => Some(packet),
                _ => None,
            },
            _ => None,
        }
    }

    /// Takes one byte in. Whatever comes before a start mark is dropped.
    pub open spec fn take_in(self, b: u8, now: u64) -> TurnView<Self, PacketView> {
        match self.frame {
            None => if b == SOH {
                ReadPacketView { frame: Some(Seq::empty()), ..self }.listen(now)
            } else {
                self.listen(now)
            },
            Some(f) => match frame(f.push(b)) {
                Frame::More => ReadPacketView { frame: Some(f.push(b)), ..self }.listen(now),
                Frame::Short => TurnView::Failed(
                    FlashErrorView::Plugin("SIWX917: Kermit packet shorter than SEQ+TYPE+CHECK"@),
                ),
                Frame::Mismatch => TurnView::Failed(
                    FlashErrorView::Plugin("SIWX917: Kermit checksum mismatch"@),
                ),
                Frame::Whole(packet) => TurnView::Done(packet),
            },
        }
    }
}

impl Machine for ReadPacketView {
    type Output = PacketView;

    open spec fn next(self, reply: ReplyView, at: Moment) -> TurnView<Self, PacketView> {
        match byte_read(reply) {
            ByteReadView::Byte(b) => self.take_in(b, at.now),
            ByteReadView::Again => self.listen(at.now),
            ByteReadView::Failed(e) => TurnView::Failed(e),
        }
    }
}

impl ReadPacket {
    fn listen(self, now: u64) -> (turn: Turn<ReadPacket, Packet>)
        ensures
            turn@ == self@.listen(now),
    {
        if elapsed_since(self.start, now) > self.timeout {
            Turn::Failed(FlashError::Plugin("SIWX917: Kermit read timeout".to_string()))
        } else {
            Turn::Ask(self, Request::Read { limit: 1 })
        }
    }

    fn take_in(self, b: u8, now: u64) -> (turn: Turn<ReadPacket, Packet>)
        ensures
            turn@ == self@.take_in(b, now),
    {
        match self.frame {
            None => {
                if b == SOH {
                    ReadPacket { frame: Some(Vec::new()), ..self }.listen(now)
                } else {
                    ReadPacket { frame: None, ..self }.listen(now)
                }
            },
            Some(f) => {
                let mut f: Vec<u8> = f;
                f.push(b);
                match parse(&f) {
                    Parsed::More => ReadPacket { frame: Some(f), ..self }.listen(now),
                    Parsed::Short => Turn::Failed(
                        FlashError::Plugin(
                            "SIWX917: Kermit packet shorter than SEQ+TYPE+CHECK".to_string(),
                        ),
                    ),
                    Parsed::Mismatch => Turn::Failed(
                        FlashError::Plugin("SIWX917: Kermit checksum mismatch".to_string()),
                    ),
                    Parsed::Whole(packet) => Turn::Done(packet),
                }
            },
        }
    }

    /// Tells which packet a reply would complete, if any.
    pub fn completed_by(&self, reply: &Reply) -> (res: Option<Packet>)
        ensures
            res is Some <==> self@.completed_by(reply@) is Some,
            res matches Some(packet) ==> self@.completed_by(reply@) == Some(packet@),
    {
        if let (Some(f), Reply::Bytes(bytes)) = (&self.frame, reply) {
            if bytes.len() == 1 {
                let mut g: Vec<u8> = Vec::new();
                g.extend_from_slice(f.as_slice());
                g.push(bytes[0]);
                assert(g@ =~= f@.push(bytes@[0]));
                if let Parsed::Whole(packet) = parse(&g) {
                    return Some(packet);
                }
            }
        }
        None
    }

    /// Goes on with the wait once the host has replied.
    pub fn step(self, reply: Reply, at: Moment) -> (turn: Turn<ReadPacket, Packet>)
        ensures
            turn@ == self@.next(reply@, at),
    {
        match read_byte(reply) {
            ByteRead::Byte(b) => self.take_in(b, at.now),
            ByteRead::Again => self.listen(at.now),
            ByteRead::Failed(e) => Turn::Failed(e),
        }
    }
}

/// Reads one packet, dropping whatever comes before its start mark. The time for it began to run
/// at `start`.
pub fn read_packet(start: u64, timeout: u64, now: u64) -> (turn: Turn<ReadPacket, Packet>)
    ensures
        turn@ == ReadPacketView::opened(start, timeout).listen(now),
{
    ReadPacket { start, timeout, frame: None }.listen(now)
}

/// The first turn of a wait for a packet.
pub open spec fn packet_turn(start: u64, timeout: u64, now: u64) -> TurnView<
    ReadPacketView,
    PacketView,
> {
    ReadPacketView::opened(start, timeout).listen(now)
}

/// Replies that bring bytes one at a time or nothing yet, all within the time for the packet.
pub open spec fn steady(replies: Replies, start: u64, timeout: u64) -> bool {
    forall|i: int|
        0 <= i < replies.len() ==> {
            &&& byte_read((#[trigger] replies[i]).0) !is Failed
            &&& replies[i].0 is Bytes ==> replies[i].0->Bytes_0.len() <= 1
            &&& host::elapsed(start, replies[i].1.now) <= timeout
        }
}

/// Replies are steady as long as they were.
pub proof fn lemma_steady_before(replies: Replies, start: u64, timeout: u64)
    requires
        steady(replies, start, timeout),
        replies.len() > 0,
    ensures
        steady(replies.drop_last(), start, timeout),
{
    let before = replies.drop_last();
    assert forall|i: int| 0 <= i < before.len() implies {
        &&& byte_read((#[trigger] before[i]).0) !is Failed
        &&& before[i].0 is Bytes ==> before[i].0->Bytes_0.len() <= 1
        &&& host::elapsed(start, before[i].1.now) <= timeout
    } by {
        assert(before[i] == replies[i]);
    }
}

/// What has come in behind the first start mark of a stream.
pub open spec fn behind_mark(stream: Seq<u8>) -> Option<Seq<u8>>
    decreases stream.len(),
{
    if stream.len() == 0 {
        None
    } else {
        match behind_mark(stream.drop_last()) {
            None => if stream.last() == SOH {
                Some(Seq::empty())
            } else {
                None
            },
            Some(f) => Some(f.push(stream.last())),
        }
    }
}

proof fn lemma_behind_mark(noise: Seq<u8>, rest: Seq<u8>)
    requires
        !noise.contains(SOH),
    ensures
        behind_mark(noise) is None,
        behind_mark(noise + seq![SOH] + rest) == Some(rest),
    decreases noise.len() + rest.len(),
{
    let stream = noise + seq![SOH] + rest;
    if rest.len() > 0 {
        assert(stream.drop_last() =~= noise + seq![SOH] + rest.drop_last());
        lemma_behind_mark(noise, rest.drop_last());
        assert(rest.drop_last().push(rest.last()) =~= rest);
    } else {
        assert(stream.drop_last() =~= noise);
        assert(rest =~= Seq::<u8>::empty());
        if noise.len() > 0 {
            assert(noise.contains(noise.last()));
            assert(!noise.drop_last().contains(SOH)) by {
                if noise.drop_last().contains(SOH) {
                    let i = choose|i: int|
                        0 <= i < noise.drop_last().len() && noise.drop_last()[i] == SOH;
                    assert(noise[i] == SOH);
                }
            }
            lemma_behind_mark(noise.drop_last(), rest);
        }
    }
}

/// A packet on the wire as far as a receiver reads it: up to its check character, with noise in
/// front and with whatever check character arrived.
pub open spec fn incoming(noise: Seq<u8>, seq: u8, ptype: u8, data: Seq<u8>, chk: u8) -> Seq<u8> {
    noise + seq![SOH] + codec::checked_part(seq, ptype, data).push(chk)
}

/// What a receiver makes of a packet.
pub open spec fn receipt(seq: u8, ptype: u8, data: Seq<u8>, chk: u8) -> TurnView<
    ReadPacketView,
    PacketView,
> {
    if chk == codec::checksum(codec::checked_part(seq, ptype, data)) {
        TurnView::Done(PacketView { seq, ptype, data })
    } else {
        TurnView::Failed(FlashErrorView::Plugin("SIWX917: Kermit checksum mismatch"@))
    }
}

/// What the first `n` bytes behind the start mark of a packet amount to.
pub proof fn lemma_partial_frame(seq: u8, ptype: u8, data: Seq<u8>, chk: u8, n: int)
    requires
        seq <= codec::TOCHAR_MAX,
        codec::has_len_char(data.len()),
        0 <= n <= data.len() + 4,
    ensures
        ({
            let f = codec::checked_part(seq, ptype, data).push(chk);
            &&& n < f.len() ==> frame(f.take(n)) is More
            &&& n == f.len() ==> frame(f.take(n)) == if chk == codec::checksum(
                codec::checked_part(seq, ptype, data),
            ) {
                Frame::Whole(PacketView { seq, ptype, data })
            } else {
                Frame::Mismatch
            }
        }),
{
    let part = codec::checked_part(seq, ptype, data);
    let f = part.push(chk);
    let len = data.len() + 3;
    assert(part.len() == len);
    if n > 0 {
        assert(f.take(n)[0] == codec::len_char(data.len()));
        assert(codec::spec_unchar(f.take(n)[0]) == len);
    }
    if n == f.len() {
        assert(f.take(n) =~= f);
        assert(f.take(len as int) =~= part);
        assert(f.subrange(3, len as int) =~= data);
    }
}

/// How a wait for a packet stands once the first `n` bytes of one have come in.
pub proof fn lemma_incoming(
    start: u64,
    timeout: u64,
    now: u64,
    replies: Replies,
    noise: Seq<u8>,
    seq: u8,
    ptype: u8,
    data: Seq<u8>,
    chk: u8,
    n: int,
)
    requires
        host::elapsed(start, now) <= timeout,
        steady(replies, start, timeout),
        !noise.contains(SOH),
        seq <= codec::TOCHAR_MAX,
        codec::has_len_char(data.len()),
        0 <= n <= incoming(noise, seq, ptype, data, chk).len(),
        host::heard(packet_turn(start, timeout, now), replies) == incoming(
            noise,
            seq,
            ptype,
            data,
            chk,
        ).take(n),
    ensures
        ({
            let t = incoming(noise, seq, ptype, data, chk);
            let end = host::run(packet_turn(start, timeout, now), replies);
            if n < t.len() {
                end == TurnView::<ReadPacketView, PacketView>::Ask(
                    ReadPacketView { start, timeout, frame: behind_mark(t.take(n)) },
                    RequestView::Read(1),
                )
            } else {
                end == receipt(seq, ptype, data, chk)
            }
        }),
    decreases replies.len(),
{
    let t = incoming(noise, seq, ptype, data, chk);
    let first = packet_turn(start, timeout, now);
    if replies.len() == 0 {
        assert(t.take(n).len() == 0);
        assert(n == 0);
        assert(t.len() > 0);
    } else {
        let prev = replies.drop_last();
        let (reply, at) = replies.last();
        assert(byte_read(replies[replies.len() - 1].0) !is Failed);
        lemma_steady_before(replies, start, timeout);
        let before = host::heard(first, prev);
        let add = host::read_reply(host::run(first, prev), reply);
        assert(t.take(n) == before + add);
        assert(add.len() <= 1);
        let k = n - add.len();
        assert(before =~= t.take(k)) by {
            assert(t.take(n).take(k) =~= before);
            assert(t.take(n).take(k) =~= t.take(k));
        }
        lemma_incoming(start, timeout, now, prev, noise, seq, ptype, data, chk, k);
        if k < t.len() {
            if add.len() == 1 {
                let b = reply->Bytes_0[0];
                assert(add[0] == b);
                assert(t.take(n)[k] == b);
                assert(t.take(n) =~= t.take(k).push(b));
                assert(t.take(n).drop_last() =~= t.take(k));
                let f = codec::checked_part(seq, ptype, data).push(chk);
                if k > noise.len() {
                    let j = k - noise.len() - 1;
                    assert(t.take(k) =~= noise + seq![SOH] + f.take(j));
                    assert(t.take(n) =~= noise + seq![SOH] + f.take(j + 1));
                    lemma_behind_mark(noise, f.take(j));
                    lemma_behind_mark(noise, f.take(j + 1));
                    assert(f.take(j).push(b) =~= f.take(j + 1));
                    lemma_partial_frame(seq, ptype, data, chk, j + 1);
                } else {
                    assert(t.take(k) =~= noise.take(k));
                    assert(!noise.take(k).contains(SOH)) by {
                        if noise.take(k).contains(SOH) {
                            let i = choose|i: int|
                                0 <= i < noise.take(k).len() && noise.take(k)[i] == SOH;
                            assert(noise[i] == SOH);
                        }
                    }
                    lemma_behind_mark(noise.take(k), Seq::empty());
                }
            } else {
                assert(add =~= Seq::<u8>::empty());
                assert(byte_read(reply) is Again);
            }
        }
    }
}

/// Whatever is built into a packet is read back from it, the moment its check character has come
/// in: behind any noise without a start mark, and however often a read brings nothing. A packet
/// whose check character was changed on the way is rejected.
pub proof fn law_receiver_reads_what_was_built(
    start: u64,
    timeout: u64,
    now: u64,
    replies: Replies,
    noise: Seq<u8>,
    seq: u8,
    ptype: u8,
    data: Seq<u8>,
    chk: u8,
)
    requires
        host::elapsed(start, now) <= timeout,
        steady(replies, start, timeout),
        !noise.contains(SOH),
        seq <= codec::TOCHAR_MAX,
        codec::has_len_char(data.len()),
        host::heard(packet_turn(start, timeout, now), replies) == incoming(
            noise,
            seq,
            ptype,
            data,
            chk,
        ),
    ensures
        host::run(packet_turn(start, timeout, now), replies) == receipt(seq, ptype, data, chk),
        chk == codec::checksum(codec::checked_part(seq, ptype, data)) ==> incoming(
            noise,
            seq,
            ptype,
            data,
            chk,
        ) == noise + codec::packet(seq, ptype, data).drop_last(),
{
    let t = incoming(noise, seq, ptype, data, chk);
    assert(t.take(t.len() as int) =~= t);
    lemma_incoming(
        start,
        timeout,
        now,
        replies,
        noise,
        seq,
        ptype,
        data,
        chk,
        t.len() as int,
    );
    if chk == codec::checksum(codec::checked_part(seq, ptype, data)) {
        assert(t =~= noise + codec::packet(seq, ptype, data).drop_last());
    }
}

/// A read that brought one byte brought that byte. One that brought nothing, timed out or would have
/// blocked is tried again. Any other failure is an error with its message.
pub proof fn law_what_a_read_of_a_byte_comes_to(reply: ReplyView)
    ensures
        match reply {
            ReplyView::Bytes(bytes) => {
                &&& bytes.len() == 1 ==> byte_read(reply) == ByteReadView::Byte(bytes[0])
                &&& bytes.len() != 1 ==> byte_read(reply) is Again
            },
            ReplyView::Failed(fault) => {
                &&& fault.kind == FaultKind::TimedOut || fault.kind == FaultKind::WouldBlock
                    ==> byte_read(reply) is Again
                &&& fault.kind == FaultKind::Other ==> byte_read(reply) == ByteReadView::Failed(
                    FlashErrorView::Io(fault.message),
                )
            },
        },
{
}

/// What stands behind a start mark, `n` being the number that the first byte of it stands for: less
/// than SEQ, TYPE and CHECK need is too short; up to `n` further bytes are awaited; and then the
/// byte at `n` has to be the check of all before it. SEQ, TYPE and DATA are what they are.
pub proof fn law_what_stands_behind_a_start_mark(f: Seq<u8>, n: int)
    requires
        f.len() > 0 ==> 0 <= n < 256 && (n + 32) % 256 == f[0],
    ensures
        f.len() == 0 ==> frame(f) is More,
        f.len() > 0 && n < 3 ==> frame(f) is Short,
        f.len() > 0 && n >= 3 && f.len() <= n ==> frame(f) is More,
        f.len() > n >= 3 && f[n] != codec::checksum(f.take(n)) ==> frame(f) is Mismatch,
        f.len() > n >= 3 && f[n] == codec::checksum(f.take(n)) ==> {
            &&& frame(f) is Whole
            &&& (frame(f)->Whole_0.seq + 32) % 256 == f[1]
            &&& frame(f)->Whole_0.ptype == f[2]
            &&& frame(f)->Whole_0.data == f.subrange(3, n)
        },
{
    if f.len() > 0 {
        assert(codec::spec_unchar(f[0]) == n);
    }
}

/// What stands behind the first start mark of a stream is everything that has come in since, and
/// before a start mark there is nothing.
pub proof fn law_first_start_mark_counts(noise: Seq<u8>, rest: Seq<u8>)
    requires
        !noise.contains(1u8),
    ensures
        behind_mark(noise) is None,
        behind_mark(noise + seq![1u8] + rest) == Some(rest),
{
    lemma_behind_mark(noise, rest);
}

/// Whether no read for a byte brought more than one.
pub open spec fn one_at_a_time(replies: Replies) -> bool {
    forall|i: int|
        0 <= i < replies.len() && (#[trigger] replies[i]).0 is Bytes
            ==> replies[i].0->Bytes_0.len() <= 1
}

proof fn lemma_one_at_a_time_before(replies: Replies)
    requires
        one_at_a_time(replies),
        replies.len() > 0,
    ensures
        one_at_a_time(replies.drop_last()),
{
    let before = replies.drop_last();
    assert forall|i: int| 0 <= i < before.len() && (#[trigger] before[i]).0 is Bytes implies before[
    i].0->Bytes_0.len() <= 1 by {
        assert(before[i] == replies[i]);
    }
}

proof fn lemma_reader_stands(start: u64, timeout: u64, now: u64, replies: Replies)
    requires
        one_at_a_time(replies),
    ensures
        host::run(packet_turn(start, timeout, now), replies) matches TurnView::Ask(m, request) ==> {
            &&& m.start == start
            &&& m.timeout == timeout
            &&& m.frame == behind_mark(host::heard(packet_turn(start, timeout, now), replies))
            &&& request == RequestView::Read(1)
        },
    decreases replies.len(),
{
    if replies.len() > 0 {
        let prev = replies.drop_last();
        lemma_one_at_a_time_before(replies);
        lemma_reader_stands(start, timeout, now, prev);
        let first = packet_turn(start, timeout, now);
        let before = host::heard(first, prev);
        let reply = replies.last().0;
        assert(replies[replies.len() - 1].0 == reply);
        if reply is Bytes && reply->Bytes_0.len() == 1 {
            let b = reply->Bytes_0[0];
            assert(before + reply->Bytes_0 =~= before.push(b));
            assert(before.push(b).drop_last() =~= before);
        } else if reply is Bytes {
            assert(before + reply->Bytes_0 =~= before);
        } else {
            assert(before + Seq::<u8>::empty() =~= before);
        }
    }
}

/// How a wait for a packet goes on. It reads one byte at a time. A broken port ends it with that
/// error. What stands behind the first start mark so far ends it as soon as it is a packet, too
/// short, or wrong in its check. As long as it does not, the wait ends once more than the time for
/// the packet has passed, and reads on otherwise.
pub proof fn law_how_a_wait_for_a_packet_goes_on(
    start: u64,
    timeout: u64,
    now: u64,
    replies: Replies,
)
    requires
        one_at_a_time(replies),
        replies.len() > 0,
        host::run(packet_turn(start, timeout, now), replies.drop_last()) is Ask,
    ensures
        ({
            let first = packet_turn(start, timeout, now);
            let turn = host::run(first, replies);
            let (reply, at) = replies.last();
            let stream = host::heard(first, replies);
            let awaits = if at.now > start + timeout {
                turn == TurnView::<ReadPacketView, PacketView>::Failed(
                    FlashErrorView::Plugin("SIWX917: Kermit read timeout"@),
                )
            } else {
                turn is Ask && turn->Ask_1 == RequestView::Read(1)
            };
            match reply {
                ReplyView::Failed(fault) => if fault.kind == FaultKind::Other {
                    turn == TurnView::<ReadPacketView, PacketView>::Failed(
                        FlashErrorView::Io(fault.message),
                    )
                } else {
                    awaits
                },
                ReplyView::Bytes(bytes) => if bytes.len() == 0 {
                    awaits
                } else {
                    match behind_mark(stream) {
                        None => awaits,
                        Some(f) => match frame(f) {
                            Frame::More => awaits,
                            Frame::Short => turn == TurnView::<ReadPacketView, PacketView>::Failed(
                                FlashErrorView::Plugin(
                                    "SIWX917: Kermit packet shorter than SEQ+TYPE+CHECK"@,
                                ),
                            ),
                            Frame::Mismatch => turn == TurnView::<
                                ReadPacketView,
                                PacketView,
                            >::Failed(
                                FlashErrorView::Plugin("SIWX917: Kermit checksum mismatch"@),
                            ),
                            Frame::Whole(packet) => turn == TurnView::<
                                ReadPacketView,
                                PacketView,
                            >::Done(packet),
                        },
                    }
                },
            }
        }),
{
    let prev = replies.drop_last();
    lemma_one_at_a_time_before(replies);
    lemma_reader_stands(start, timeout, now, prev);
    let first = packet_turn(start, timeout, now);
    let before = host::heard(first, prev);
    let reply = replies.last().0;
    assert(replies[replies.len() - 1].0 == reply);
    if reply is Bytes && reply->Bytes_0.len() == 1 {
        let b = reply->Bytes_0[0];
        assert(before + reply->Bytes_0 =~= before.push(b));
        assert(before.push(b).drop_last() =~= before);
    }
}

/// A wait for a packet begins to read unless more than the time for the packet has passed.
pub proof fn law_how_a_wait_for_a_packet_begins(start: u64, timeout: u64, now: u64)
    ensures
        now > start + timeout ==> packet_turn(start, timeout, now) == TurnView::<
            ReadPacketView,
            PacketView,
        >::Failed(FlashErrorView::Plugin("SIWX917: Kermit read timeout"@)),
        now <= start + timeout ==> packet_turn(start, timeout, now) == TurnView::<
            ReadPacketView,
            PacketView,
        >::Ask(ReadPacketView { start, timeout, frame: None }, RequestView::Read(1)),
{
}

/// A reply completes a packet exactly if the wait for it ends well with the reply, at whatever
/// moment.
pub proof fn law_completed_packet_is_the_result(m: ReadPacketView, reply: ReplyView, at: Moment)
    ensures
        m.next(reply, at) is Done <==> m.completed_by(reply) is Some,
        m.next(reply, at) matches TurnView::Done(packet) ==> m.completed_by(reply) == Some(packet),
{
}

} // verus!
