//! One packet and its acknowledgement: send, wait, send again.

use crate::codec;
use crate::codec::{build_packet, unquote};
use crate::error::{FlashError, FlashErrorView};
use crate::host;
use crate::host::{
    Machine, Moment, Replies, Reply, ReplyView, Request, RequestView, Turn, TurnView, SECOND,
};
use crate::receive;
use crate::receive::{read_packet, Packet, PacketView, ReadPacket, ReadPacketView};
use vstd::prelude::*;
use vstd::string::*;

verus! {

/// How often a packet is sent at most.
pub const DEFAULT_RETRIES: u8 = 20;

/// How long to wait for the answer to one sending.
pub const DEFAULT_PACKET_TIMEOUT: u64 = 5 * SECOND;

/// The TYPE of an acknowledgement, `Y`.
pub const ACK: u8 = 0x59;

/// The TYPE of a refusal, `N`.
pub const NAK: u8 = 0x4e;

pub open spec fn no_ack_message(ptype: u8) -> Seq<char> {
    "SIWX917: no ACK for Kermit packet type '"@.push(ptype as char) + "' after 20 retries"@
}

fn no_ack(ptype: u8) -> (e: FlashError)
    ensures
        e@ == FlashErrorView::Plugin(no_ack_message(ptype)),
{
    let mut m: String = "SIWX917: no ACK for Kermit packet type '".to_string();
    m.push(ptype as char);
    m.append("' after 20 retries");
    FlashError::Plugin(m)
}

/// What a packet that was read means to the sender of one.
#[derive(Clone, Copy, Debug, PartialEq, Eq, Structural)]
pub enum Answer {
    /// It acknowledges the packet.
    Accepted,
    /// It refuses the packet.
    Refused,
    /// It is about something else.
    Stale,
}

/// What a packet means to the sender of the packet with number `seq`.
pub open spec fn answer_to(seq: u8, packet: PacketView) -> Answer {
    if packet.seq != seq {
        Answer::Stale
    } else if packet.ptype == ACK {
        Answer::Accepted
    } else if packet.ptype == NAK {
        Answer::Refused
    } else {
        Answer::Stale
    }
}

fn answer(seq: u8, packet: &Packet) -> (a: Answer)
    ensures
        a == answer_to(seq, packet@),
{
    if packet.seq != seq {
        Answer::Stale
    } else if packet.ptype == ACK {
        Answer::Accepted
    } else if packet.ptype == NAK {
        Answer::Refused
    } else {
        Answer::Stale
    }
}

/// Something that a sender has met with and that does not end the exchange.
#[derive(Debug)]
pub enum Note {
    /// The packet is sent again: it was refused.
    Refused,
    /// The packet is sent again: no answer could be read, for this reason.
    Unanswered(FlashError),
    /// A packet was read that is about something else.
    Ignored { seq: u8, ptype: u8 },
}

/// A [`Note`] over the view of its error.
pub enum NoteView {
    Refused,
    Unanswered(FlashErrorView),
    Ignored(u8, u8),
}

impl View for Note {
    type V = NoteView;

    open spec fn view(&self) -> NoteView {
        match *self {
            Note::Refused => NoteView::Refused,
            Note::Unanswered(e) => NoteView::Unanswered(e@),
            Note::Ignored { seq, ptype } => NoteView::Ignored(seq, ptype),
        }
    }
}

/// Whether a note is the one that a view tells of.
pub open spec fn same_note(note: Option<&Note>, view: Option<NoteView>) -> bool {
    match note {
        Some(n) => view == Some(n@),
        None => view is None,
    }
}

/// A packet on its way to being acknowledged.
pub struct SendAndWaitAck {
    seq: u8,
    ptype: u8,
    pkt: Vec<u8>,
    attempt: u8,
    reading: Option<(u64, ReadPacket)>,
    note: Option<Note>,
}

/// A [`SendAndWaitAck`] over sequences.
pub struct SendAndWaitAckView {
    pub seq: u8,
    pub ptype: u8,
    /// The packet as it is sent.
    pub pkt: Seq<u8>,
    /// How many sendings have failed.
    pub attempt: u8,
    /// When the time for the answer began to run, and how far the answer has been read; none while
    /// the packet is being sent.
    pub reading: Option<(u64, ReadPacketView)>,
    /// What the last step has met with.
    pub note: Option<NoteView>,
}

impl View for SendAndWaitAck {
    type V = SendAndWaitAckView;

    closed spec fn view(&self) -> SendAndWaitAckView {
        SendAndWaitAckView {
            seq: self.seq,
            ptype: self.ptype,
            pkt: self.pkt@,
            attempt: self.attempt,
            reading: match self.reading {
                Some((start, reader)) => Some((start, reader@)),
                None => None,
            },
            note: match self.note {
                Some(n) => Some(n@),
                None => None,
            },
        }
    }
}

impl SendAndWaitAckView {
    pub open spec fn opened(seq: u8, ptype: u8, data: Seq<u8>) -> Self {
        SendAndWaitAckView {
            seq,
            ptype,
            pkt: codec::packet(seq, ptype, data),
            attempt: 0,
            reading: None,
            note: None,
        }
    }

    /// Whether a reply completes the acknowledgement of the packet.
    pub open spec fn acknowledged_by(self, reply: ReplyView) -> bool {
        match self.reading {
            Some((_, reader)) => match reader.completed_by(reply) {
                Some(packet) => answer_to(self.seq, packet) == Answer::Accepted,
                None => false,
            },
            None => false,
        }
    }

    /// Sends the packet unless the job was cancelled.
    pub open spec fn transmit(self, at: Moment) -> TurnView<Self, Seq<u8>> {
        if at.cancelled {
            TurnView::Failed(FlashErrorView::Cancelled)
        } else {
            TurnView::Ask(
                SendAndWaitAckView { reading: None, ..self },
                RequestView::Write(self.pkt),
            )
        }
    }

    /// Counts a sending as failed, for a reason, and sends again, or gives up.
    pub open spec fn retry(self, why: NoteView, at: Moment) -> TurnView<Self, Seq<u8>> {
        if self.attempt + 1 >= DEFAULT_RETRIES {
            TurnView::Failed(FlashErrorView::Plugin(no_ack_message(self.ptype)))
        } else {
            SendAndWaitAckView {
                attempt: (self.attempt + 1) as u8,
                note: Some(why),
                ..self
            }.transmit(at)
        }
    }

    /// Waits for the answer as the reader of it does. An answer that fails, for whatever reason,
    /// is a failed sending.
    pub open spec fn follow(
        self,
        start: u64,
        reader: TurnView<ReadPacketView, PacketView>,
        at: Moment,
    ) -> TurnView<Self, Seq<u8>> {
        match reader {
            TurnView::Ask(r, request) => TurnView::Ask(
                SendAndWaitAckView { reading: Some((start, r)), note: None, ..self },
                request,
            ),
            TurnView::Done(packet) => match answer_to(self.seq, packet) {
                Answer::Accepted => TurnView::Done(codec::unquoted(packet.data)),
                Answer::Refused => self.retry(NoteView::Refused, at),
                Answer::Stale => self.await_answer(
                    start,
                    Some(NoteView::Ignored(packet.seq, packet.ptype)),
                    at,
                ),
            },
            TurnView::Failed(e) => self.retry(NoteView::Unanswered(e), at),
        }
    }

    /// Waits for an answer from its start mark on.
    pub open spec fn await_answer(
        self,
        start: u64,
        note: Option<NoteView>,
        at: Moment,
    ) -> TurnView<Self, Seq<u8>> {
        match ReadPacketView::opened(start, DEFAULT_PACKET_TIMEOUT).listen(at.now) {
            TurnView::Ask(r, request) => TurnView::Ask(
                SendAndWaitAckView { reading: Some((start, r)), note, ..self },
                request,
            ),
            // A reader that has just begun is never done.
            TurnView::Done(_) => self.retry(NoteView::Refused, at),
            TurnView::Failed(e) => self.retry(NoteView::Unanswered(e), at),
        }
    }
}

impl Machine for SendAndWaitAckView {
    type Output = Seq<u8>;

    open spec fn next(self, reply: ReplyView, at: Moment) -> TurnView<Self, Seq<u8>> {
        match self.reading {
            None => match reply {
                ReplyView::Bytes(_) => self.await_answer(at.now, None, at),
                ReplyView::Failed(fault) => TurnView::Failed(FlashErrorView::Io(fault.message)),
            },
            Some((start, reader)) => self.follow(start, reader.next(reply, at), at),
        }
    }
}

impl SendAndWaitAck {
    fn transmit(self, at: Moment) -> (turn: Turn<SendAndWaitAck, Vec<u8>>)
        ensures
            turn@ == self@.transmit(at),
    {
        if at.cancelled {
            return Turn::Failed(FlashError::Cancelled);
        }
        let bytes: Vec<u8> = self.pkt.clone();
        assert(bytes@ =~= self.pkt@);
        Turn::Ask(SendAndWaitAck { reading: None, ..self }, Request::Write { bytes })
    }

    fn retry(self, why: Note, at: Moment) -> (turn: Turn<SendAndWaitAck, Vec<u8>>)
        ensures
            turn@ == self@.retry(why@, at),
    {
        if self.attempt >= DEFAULT_RETRIES - 1 {
            return Turn::Failed(no_ack(self.ptype));
        }
        SendAndWaitAck { attempt: self.attempt + 1, note: Some(why), ..self }.transmit(at)
    }

    fn await_answer(self, start: u64, note: Option<Note>, at: Moment) -> (turn: Turn<
        SendAndWaitAck,
        Vec<u8>,
    >)
        ensures
            turn@ == self@.await_answer(
                start,
                match note {
                    Some(n) => Some(n@),
                    None => None,
                },
                at,
            ),
    {
        match read_packet(start, DEFAULT_PACKET_TIMEOUT, at.now) {
            Turn::Ask(r, request) => Turn::Ask(
                SendAndWaitAck { reading: Some((start, r)), note, ..self },
                request,
            ),
            Turn::Done(_) => self.retry(Note::Refused, at),
            Turn::Failed(e) => self.retry(Note::Unanswered(e), at),
        }
    }

    /// What the last step has met with: why the packet is being sent again, or which packet was
    /// ignored.
    pub fn note(&self) -> (note: Option<&Note>)
        ensures
            same_note(note, self@.note),
    {
        self.note.as_ref()
    }

    /// Tells whether a reply would complete the acknowledgement of the packet.
    pub fn acknowledged_by(&self, reply: &Reply) -> (yes: bool)
        ensures
            yes == self@.acknowledged_by(reply@),
    {
        match &self.reading {
            Some((_, reader)) => match reader.completed_by(reply) {
                Some(packet) => answer(self.seq, &packet) == Answer::Accepted,
                None => false,
            },
            None => false,
        }
    }

    /// Goes on once the host has replied.
    pub fn step(self, reply: Reply, at: Moment) -> (turn: Turn<SendAndWaitAck, Vec<u8>>)
        ensures
            turn@ == self@.next(reply@, at),
    {
        let SendAndWaitAck { seq, ptype, pkt, attempt, reading, note: _ } = self;
        match reading {
            None => {
                let sender = SendAndWaitAck { seq, ptype, pkt, attempt, reading: None, note: None };
                match reply {
                    Reply::Bytes(_) => sender.await_answer(at.now, None, at),
                    Reply::Failed(fault) => Turn::Failed(FlashError::Io(fault.message)),
                }
            },
            Some((start, reader)) => {
                let turn = reader.step(reply, at);
                let sender = SendAndWaitAck { seq, ptype, pkt, attempt, reading: None, note: None };
                match turn {
                    Turn::Ask(r, request) => Turn::Ask(
                        SendAndWaitAck { reading: Some((start, r)), ..sender },
                        request,
                    ),
                    Turn::Done(packet) => match answer(seq, &packet) {
                        Answer::Accepted => Turn::Done(unquote(&packet.data)),
                        Answer::Refused => sender.retry(Note::Refused, at),
                        Answer::Stale => sender.await_answer(
                            start,
                            Some(Note::Ignored { seq: packet.seq, ptype: packet.ptype }),
                            at,
                        ),
                    },
                    Turn::Failed(e) => sender.retry(Note::Unanswered(e), at),
                }
            },
        }
    }
}

/// Sends a packet, and sends it again on a refusal or when no answer comes in time, until it is
/// acknowledged. The result is what the acknowledgement carries, unquoted. `data` must already be
/// quoted.
pub fn send_and_wait_ack(seq: u8, ptype: u8, data: &[u8], at: Moment) -> (turn: Turn<
    SendAndWaitAck,
    Vec<u8>,
>)
    requires
        seq <= codec::TOCHAR_MAX,
        codec::has_len_char(data@.len()),
    ensures
        turn@ == SendAndWaitAckView::opened(seq, ptype, data@).transmit(at),
{
    let pkt: Vec<u8> = build_packet(seq, ptype, data);
    SendAndWaitAck { seq, ptype, pkt, attempt: 0, reading: None, note: None }.transmit(at)
}

/// The first turn of a sending.
pub open spec fn send_turn(seq: u8, ptype: u8, data: Seq<u8>, at: Moment) -> TurnView<
    SendAndWaitAckView,
    Seq<u8>,
> {
    SendAndWaitAckView::opened(seq, ptype, data).transmit(at)
}

/// A packet is sent at most twenty times, and never anything else in its place. An exchange that
/// is still open has sent it once more often than it has failed. It fails only because the job was
/// cancelled, because the port would not be written to, or, after twenty sendings, for want of an
/// acknowledgement.
pub proof fn law_packet_is_sent_at_most_twenty_times(
    seq: u8,
    ptype: u8,
    data: Seq<u8>,
    at: Moment,
    replies: Replies,
)
    ensures
        ({
            let first = send_turn(seq, ptype, data, at);
            let w = host::writes(first, replies);
            &&& w.len() <= DEFAULT_RETRIES
            &&& forall|i: int| 0 <= i < w.len() ==> #[trigger] w[i] == codec::packet(
                seq,
                ptype,
                data,
            )
            &&& match host::run(first, replies) {
                TurnView::Ask(m, _) => {
                    &&& w.len() == m.attempt + 1
                    &&& m == (SendAndWaitAckView {
                        attempt: m.attempt,
                        reading: m.reading,
                        note: m.note,
                        ..SendAndWaitAckView::opened(seq, ptype, data)
                    })
                },
                TurnView::Done(_) => w.len() >= 1,
                TurnView::Failed(e) => {
                    ||| e is Cancelled
                    ||| e is Io && w.len() >= 1
                    ||| e == FlashErrorView::Plugin(no_ack_message(ptype)) && w.len()
                        == DEFAULT_RETRIES
                },
            }
        }),
    decreases replies.len(),
{
    let first = send_turn(seq, ptype, data, at);
    if replies.len() > 0 {
        let prev = replies.drop_last();
        law_packet_is_sent_at_most_twenty_times(seq, ptype, data, at, prev);
        let w = host::writes(first, prev);
        assert(w + Seq::<Seq<u8>>::empty() =~= w);
    }
}

/// Once the job is cancelled nothing more is sent: a sending that is opened then fails at once,
/// and one that is open does not repeat the packet.
pub proof fn law_nothing_is_sent_once_cancelled(
    seq: u8,
    ptype: u8,
    data: Seq<u8>,
    at: Moment,
    replies: Replies,
)
    ensures
        at.cancelled ==> send_turn(seq, ptype, data, at) == TurnView::<
            SendAndWaitAckView,
            Seq<u8>,
        >::Failed(FlashErrorView::Cancelled),
        replies.len() > 0 && replies.last().1.cancelled && host::run(
            send_turn(seq, ptype, data, at),
            replies.drop_last(),
        ) is Ask ==> host::turn_write(
            host::run(send_turn(seq, ptype, data, at), replies),
        ).len() == 0,
{
}

/// An exchange succeeds only with an acknowledgement of the packet's own number, and returns what
/// that acknowledgement carries.
pub proof fn law_success_is_an_acknowledgement(
    seq: u8,
    ptype: u8,
    data: Seq<u8>,
    at: Moment,
    replies: Replies,
)
    requires
        replies.len() > 0,
        host::run(send_turn(seq, ptype, data, at), replies.drop_last()) is Ask,
        host::run(send_turn(seq, ptype, data, at), replies) is Done,
    ensures
        ({
            let m = host::run(send_turn(seq, ptype, data, at), replies.drop_last())->Ask_0;
            let out = host::run(send_turn(seq, ptype, data, at), replies)->Done_0;
            &&& m.reading is Some
            &&& match (m.reading->0).1.next(replies.last().0, replies.last().1) {
                TurnView::Done(packet) => packet.seq == seq && packet.ptype == ACK && out
                    == codec::unquoted(packet.data),
                _ => false,
            }
        }),
{
    law_packet_is_sent_at_most_twenty_times(seq, ptype, data, at, replies.drop_last());
}

/// A sending whose packet has just gone out at `start`.
pub open spec fn awaiting(m: SendAndWaitAckView, start: u64) -> TurnView<
    SendAndWaitAckView,
    Seq<u8>,
> {
    TurnView::Ask(
        SendAndWaitAckView {
            reading: Some((start, ReadPacketView::opened(start, DEFAULT_PACKET_TIMEOUT))),
            note: None,
            ..m
        },
        RequestView::Read(1),
    )
}

/// An exchange that waits for an answer is open as long as the reader of the answer is.
pub proof fn lemma_exchange_follows_reader(m: SendAndWaitAckView, start: u64, replies: Replies)
    requires
        host::run(
            receive::packet_turn(start, DEFAULT_PACKET_TIMEOUT, start),
            replies,
        ) is Ask,
    ensures
        ({
            let r = host::run(
                receive::packet_turn(start, DEFAULT_PACKET_TIMEOUT, start),
                replies,
            );
            &&& host::run(awaiting(m, start), replies) == TurnView::<
                SendAndWaitAckView,
                Seq<u8>,
            >::Ask(
                SendAndWaitAckView { reading: Some((start, r->Ask_0)), note: None, ..m },
                r->Ask_1,
            )
            &&& host::heard(awaiting(m, start), replies) == host::heard(
                receive::packet_turn(start, DEFAULT_PACKET_TIMEOUT, start),
                replies,
            )
        }),
    decreases replies.len(),
{
    if replies.len() > 0 {
        lemma_exchange_follows_reader(m, start, replies.drop_last());
    }
}

/// An acknowledgement or a refusal of the packet that comes in whole and in time, behind whatever
/// noise, is taken for what it is: the first ends the exchange with what it carries, the second
/// has the packet sent again.
pub proof fn law_answer_is_heeded(
    m: SendAndWaitAckView,
    start: u64,
    replies: Replies,
    noise: Seq<u8>,
    ptype: u8,
    data: Seq<u8>,
)
    requires
        m.seq <= codec::TOCHAR_MAX,
        codec::has_len_char(data.len()),
        ptype == ACK || ptype == NAK,
        !noise.contains(codec::SOH),
        replies.len() > 0,
        receive::steady(replies, start, DEFAULT_PACKET_TIMEOUT),
        host::heard(
            receive::packet_turn(start, DEFAULT_PACKET_TIMEOUT, start),
            replies.drop_last(),
        ) == (noise + codec::packet(m.seq, ptype, data)).drop_last().drop_last(),
        host::heard(receive::packet_turn(start, DEFAULT_PACKET_TIMEOUT, start), replies) == (noise
            + codec::packet(m.seq, ptype, data)).drop_last(),
    ensures
        host::run(awaiting(m, start), replies) == if ptype == ACK {
            TurnView::Done(codec::unquoted(data))
        } else {
            m.retry(NoteView::Refused, replies.last().1)
        },
{
    let first = receive::packet_turn(start, DEFAULT_PACKET_TIMEOUT, start);
    let part = codec::checked_part(m.seq, ptype, data);
    let chk = codec::checksum(part);
    let t = receive::incoming(noise, m.seq, ptype, data, chk);
    assert(t =~= (noise + codec::packet(m.seq, ptype, data)).drop_last());
    receive::law_receiver_reads_what_was_built(
        start,
        DEFAULT_PACKET_TIMEOUT,
        start,
        replies,
        noise,
        m.seq,
        ptype,
        data,
        chk,
    );
    let prev = replies.drop_last();
    receive::lemma_steady_before(replies, start, DEFAULT_PACKET_TIMEOUT);
    assert(t.drop_last() =~= t.take(t.len() - 1));
    receive::lemma_incoming(
        start,
        DEFAULT_PACKET_TIMEOUT,
        start,
        prev,
        noise,
        m.seq,
        ptype,
        data,
        chk,
        t.len() - 1,
    );
    lemma_exchange_follows_reader(m, start, prev);
}

/// What comes of a sending that has failed, `sent` sendings in all: another one, for which the same
/// packet is written, unless there have been twenty or the job was cancelled.
pub open spec fn fails_over(
    turn: TurnView<SendAndWaitAckView, Seq<u8>>,
    pkt: Seq<u8>,
    ptype: u8,
    sent: nat,
    why: NoteView,
    cancelled: bool,
) -> bool {
    if sent >= 20 {
        turn == TurnView::<SendAndWaitAckView, Seq<u8>>::Failed(
            FlashErrorView::Plugin(
                "SIWX917: no ACK for Kermit packet type '"@.push(ptype as char)
                    + "' after 20 retries"@,
            ),
        )
    } else if cancelled {
        turn == TurnView::<SendAndWaitAckView, Seq<u8>>::Failed(FlashErrorView::Cancelled)
    } else {
        turn is Ask && turn->Ask_1 == RequestView::Write(pkt) && turn->Ask_0.note == Some(why)
    }
}

proof fn lemma_reader_of_an_exchange(
    seq: u8,
    ptype: u8,
    data: Seq<u8>,
    at: Moment,
    replies: Replies,
)
    ensures
        host::run(send_turn(seq, ptype, data, at), replies) matches TurnView::Ask(m, request) ==> {
            &&& m.reading is None <==> request is Write
            &&& m.reading is None ==> request == RequestView::Write(codec::packet(seq, ptype, data))
            &&& m.reading is Some ==> request == RequestView::Read(1) && (m.reading->0).1.start == (
            m.reading->0).0 && (m.reading->0).1.timeout == 5_000_000_000
        },
    decreases replies.len(),
{
    if replies.len() > 0 {
        lemma_reader_of_an_exchange(seq, ptype, data, at, replies.drop_last());
        law_packet_is_sent_at_most_twenty_times(seq, ptype, data, at, replies.drop_last());
    }
}

/// How an exchange goes on. It begins by writing the packet, unless the job was cancelled. A packet
/// that could not be written is an error. One that was written is given five seconds: an answer is
/// read until then. An acknowledgement of its number, `Y`, ends the exchange with what it carries. A
/// refusal of its number, `N`, an answer that cannot be read, and no answer in time each are a
/// failed sending. Any other packet is ignored, and the same five seconds run on.
pub proof fn law_how_an_exchange_goes_on(
    seq: u8,
    ptype: u8,
    data: Seq<u8>,
    at: Moment,
    replies: Replies,
)
    ensures
        ({
            let first = send_turn(seq, ptype, data, at);
            let pkt = codec::packet(seq, ptype, data);
            &&& at.cancelled ==> first == TurnView::<SendAndWaitAckView, Seq<u8>>::Failed(
                FlashErrorView::Cancelled,
            )
            &&& !at.cancelled ==> first is Ask && first->Ask_1 == RequestView::Write(pkt)
            &&& replies.len() > 0 && host::run(first, replies.drop_last()) is Ask ==> {
                let m = host::run(first, replies.drop_last())->Ask_0;
                let sent = host::writes(first, replies.drop_last()).len();
                let turn = host::run(first, replies);
                let (reply, then) = replies.last();
                match m.reading {
                    None => match reply {
                        ReplyView::Failed(fault) => turn == TurnView::<
                            SendAndWaitAckView,
                            Seq<u8>,
                        >::Failed(FlashErrorView::Io(fault.message)),
                        ReplyView::Bytes(_) => {
                            &&& turn is Ask
                            &&& turn->Ask_1 == RequestView::Read(1)
                            &&& turn->Ask_0.reading == Some(
                                (
                                    then.now,
                                    ReadPacketView {
                                        start: then.now,
                                        timeout: 5_000_000_000,
                                        frame: None,
                                    },
                                ),
                            )
                            &&& turn->Ask_0.note is None
                        },
                    },
                    Some((start, reader)) => match reader.next(reply, then) {
                        TurnView::Ask(r, request) => {
                            &&& turn is Ask
                            &&& turn->Ask_1 == request
                            &&& turn->Ask_0.reading == Some((start, r))
                            &&& turn->Ask_0.note is None
                        },
                        TurnView::Failed(e) => fails_over(
                            turn,
                            pkt,
                            ptype,
                            sent,
                            NoteView::Unanswered(e),
                            then.cancelled,
                        ),
                        TurnView::Done(p) => if p.seq == seq && p.ptype == 0x59 {
                            turn == TurnView::<SendAndWaitAckView, Seq<u8>>::Done(
                                codec::unquoted(p.data),
                            )
                        } else if p.seq == seq && p.ptype == 0x4e {
                            fails_over(turn, pkt, ptype, sent, NoteView::Refused, then.cancelled)
                        } else if then.now > start + 5_000_000_000 {
                            fails_over(
                                turn,
                                pkt,
                                ptype,
                                sent,
                                NoteView::Unanswered(
                                    FlashErrorView::Plugin("SIWX917: Kermit read timeout"@),
                                ),
                                then.cancelled,
                            )
                        } else {
                            &&& turn is Ask
                            &&& turn->Ask_1 == RequestView::Read(1)
                            &&& turn->Ask_0.reading == Some(
                                (
                                    start,
                                    ReadPacketView { start, timeout: 5_000_000_000, frame: None },
                                ),
                            )
                            &&& turn->Ask_0.note == Some(NoteView::Ignored(p.seq, p.ptype))
                        },
                    },
                }
            }
        }),
{
    if replies.len() > 0 {
        law_packet_is_sent_at_most_twenty_times(seq, ptype, data, at, replies.drop_last());
        lemma_reader_of_an_exchange(seq, ptype, data, at, replies.drop_last());
    }
}

/// A reply completes the acknowledgement of a packet exactly if the exchange ends well with the
/// reply, at whatever moment.
pub proof fn law_acknowledged_exchange_ends_well(
    m: SendAndWaitAckView,
    reply: ReplyView,
    at: Moment,
)
    ensures
        m.next(reply, at) is Done <==> m.acknowledged_by(reply),
{
}

} // verus!
