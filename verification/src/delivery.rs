//! What a transfer amounts to: the packets that it consists of, in which order they are written
//! whatever the receiver answers, and what the receiver has in the end.

use crate::codec;
use crate::error::FlashErrorView;
use crate::event::FlashEventView;
use crate::exchange;
use crate::exchange::SendAndWaitAckView;
use crate::host;
use crate::host::{Finished, Machine, Moment, Replies, ReplyView, RequestView, TurnView};
use crate::receive;
use crate::receive::PacketView;
use crate::transfer;
use crate::transfer::{Part, SendFileView, MAX_ENCODED, NEGOTIATED_MAXL};
use vstd::prelude::*;

verus! {

/// The chunks that a file is sent in, from a place on.
pub open spec fn chunks_from(data: Seq<u8>, start: int) -> Seq<Part>
    decreases data.len() - start,
{
    if 0 <= start < data.len() {
        proof {
            transfer::lemma_chunk_fits(data.skip(start), MAX_ENCODED as int, data.skip(start).len());
        }
        seq![transfer::part_from(data, start)] + chunks_from(
            data,
            start + transfer::chunk_len(data.skip(start), MAX_ENCODED as int),
        )
    } else {
        Seq::empty()
    }
}

/// The parts of a transfer, in order.
pub open spec fn plan(data: Seq<u8>) -> Seq<Part> {
    seq![Part::Init, Part::Header] + chunks_from(data, 0) + seq![Part::Eof, Part::Break]
}

/// The packets of a transfer, in order. They are numbered from zero, modulo 64.
pub open spec fn frames(name: Seq<u8>, data: Seq<u8>) -> Seq<Seq<u8>> {
    Seq::new(
        plan(data).len(),
        |k: int|
            codec::packet(
                (k % 64) as u8,
                transfer::part_type(plan(data)[k]),
                transfer::part_data(name, data, plan(data)[k]),
            ),
    )
}

/// Whether a chunk is in its place: it is no longer than a packet can hold, and what follows it
/// takes up where it ends.
pub open spec fn in_place(data: Seq<u8>, c: Seq<Part>, j: int) -> bool {
    &&& c[j] is Chunk
    &&& 0 <= c[j]->Chunk_0 < c[j]->Chunk_1 <= data.len()
    &&& codec::quoted(data.subrange(c[j]->Chunk_0, c[j]->Chunk_1)).len() <= MAX_ENCODED
    &&& transfer::part_from(data, c[j]->Chunk_1) == if j + 1 < c.len() {
        c[j + 1]
    } else {
        Part::Eof
    }
    &&& j + 1 == c.len() ==> c[j]->Chunk_1 == data.len()
}

proof fn lemma_chunks(data: Seq<u8>, start: int)
    requires
        0 <= start <= data.len(),
    ensures
        ({
            let c = chunks_from(data, start);
            &&& c.len() == 0 <==> start == data.len()
            &&& c.len() > 0 ==> c[0] == transfer::part_from(data, start)
            &&& forall|j: int| 0 <= j < c.len() ==> #[trigger] in_place(data, c, j)
        }),
    decreases data.len() - start,
{
    if start < data.len() {
        let rest = data.skip(start);
        let n = transfer::chunk_len(rest, MAX_ENCODED as int);
        transfer::lemma_chunk_fits(rest, MAX_ENCODED as int, rest.len());
        assert(rest.take(n as int) =~= data.subrange(start, start + n));
        lemma_chunks(data, start + n);
        let c = chunks_from(data, start);
        let d = chunks_from(data, start + n);
        assert(c =~= seq![transfer::part_from(data, start)] + d);
        assert forall|j: int| 0 <= j < c.len() implies #[trigger] in_place(data, c, j) by {
            if j > 0 {
                assert(in_place(data, d, j - 1));
                assert(c[j] == d[j - 1]);
            }
        }
    }
}

/// The parts of a plan follow one another as the transfer goes through them.
pub proof fn lemma_plan_follows(data: Seq<u8>, k: int)
    requires
        0 <= k < plan(data).len(),
    ensures
        transfer::part_after(data, plan(data)[k]) == if k + 1 < plan(data).len() {
            Some(plan(data)[k + 1])
        } else {
            None
        },
{
    lemma_chunks(data, 0);
    let c = chunks_from(data, 0);
    if 2 <= k < 2 + c.len() {
        assert(in_place(data, c, k - 2));
        assert(plan(data)[k] == c[k - 2]);
    }
}

/// A packet as its receiver decodes it, or none if it is no packet.
pub open spec fn decoded(bytes: Seq<u8>) -> Option<PacketView> {
    if bytes.len() >= 2 && bytes[0] == codec::SOH {
        match receive::frame(bytes.subrange(1, bytes.len() - 1)) {
            receive::Frame::Whole(packet) => Some(packet),
            _ => None,
        }
    } else {
        None
    }
}

/// What a packet adds to the file that its receiver stores.
pub open spec fn stored(bytes: Seq<u8>) -> Seq<u8> {
    match decoded(bytes) {
        Some(packet) => if packet.ptype == 'D' as u8 {
            codec::unquoted(packet.data)
        } else {
            Seq::empty()
        },
        None => Seq::empty(),
    }
}

/// The file that a receiver of the packets stores.
pub open spec fn stored_file(packets: Seq<Seq<u8>>) -> Seq<u8>
    decreases packets.len(),
{
    if packets.len() == 0 {
        Seq::empty()
    } else {
        stored_file(packets.drop_last()) + stored(packets.last())
    }
}

proof fn lemma_decoded(seq: u8, ptype: u8, data: Seq<u8>)
    requires
        seq <= codec::TOCHAR_MAX,
    ensures
        codec::has_len_char(data.len()) ==> decoded(codec::packet(seq, ptype, data)) == Some(
            PacketView { seq, ptype, data },
        ),
        decoded(codec::packet(seq, ptype, data)) matches Some(packet) ==> packet.ptype == ptype,
{
    let part = codec::checked_part(seq, ptype, data);
    let chk = codec::checksum(part);
    let bytes = codec::packet(seq, ptype, data);
    let f = part.push(chk);
    assert(bytes.subrange(1, bytes.len() - 1) =~= f);
    assert(f[2] == ptype);
    if codec::has_len_char(data.len()) {
        receive::lemma_partial_frame(seq, ptype, data, chk, f.len() as int);
        assert(f.take(f.len() as int) =~= f);
    }
}

/// What each packet of a transfer adds to the file that its receiver stores: a chunk what it holds,
/// every other part nothing.
proof fn lemma_stored_frame(name: Seq<u8>, data: Seq<u8>, k: int)
    requires
        0 <= k < plan(data).len(),
    ensures
        stored(frames(name, data)[k]) == match plan(data)[k] {
            Part::Chunk(start, end) => data.subrange(start, end),
            _ => Seq::empty(),
        },
{
    let part = plan(data)[k];
    let c = chunks_from(data, 0);
    lemma_decoded((k % 64) as u8, transfer::part_type(part), transfer::part_data(name, data, part));
    if part is Chunk {
        lemma_chunks(data, 0);
        assert(2 <= k < 2 + c.len());
        assert(in_place(data, c, k - 2));
        assert(part == c[k - 2]);
        codec::law_unquote_reverses_quote(data.subrange(part->Chunk_0, part->Chunk_1));
    }
}

proof fn lemma_stored_upto(name: Seq<u8>, data: Seq<u8>, n: int)
    requires
        0 <= n <= plan(data).len(),
    ensures
        stored_file(frames(name, data).take(n)) == if n <= 2 {
            Seq::<u8>::empty()
        } else if n < 2 + chunks_from(data, 0).len() {
            data.take(chunks_from(data, 0)[n - 3]->Chunk_1)
        } else {
            data
        },
    decreases n,
{
    let f = frames(name, data);
    let c = chunks_from(data, 0);
    lemma_chunks(data, 0);
    if n > 0 {
        lemma_stored_upto(name, data, n - 1);
        assert(f.take(n).drop_last() =~= f.take(n - 1));
        let k = n - 1;
        let part = plan(data)[k];
        assert(f.take(n).last() == f[k]);
        lemma_stored_frame(name, data, k);
        if 2 <= k < 2 + c.len() {
            let j = k - 2;
            assert(in_place(data, c, j));
            assert(part == c[j]);
            let piece = data.subrange(c[j]->Chunk_0, c[j]->Chunk_1);
            assert(stored(f[k]) == piece);
            if j > 0 {
                assert(in_place(data, c, j - 1));
                assert(transfer::part_from(data, c[j - 1]->Chunk_1) == c[j]);
                assert(c[j]->Chunk_0 == c[j - 1]->Chunk_1);
            } else {
                assert(c[0] == transfer::part_from(data, 0));
            }
            let before = data.take(c[j]->Chunk_0);
            assert(before + piece =~= data.take(c[j]->Chunk_1));
            assert(data.take(data.len() as int) =~= data);
            if j == 0 {
                assert(before =~= Seq::<u8>::empty());
            }
        } else {
            assert(stored(f[k]) =~= Seq::<u8>::empty());
            if k < 2 {
                assert(stored_file(f.take(n)) =~= Seq::<u8>::empty());
            } else {
                assert(stored_file(f.take(n)) =~= data);
            }
        }
    }
    if n == 2 + c.len() && c.len() == 0 {
        assert(data =~= Seq::<u8>::empty());
    }
}

/// A receiver that takes each packet of a transfer once stores exactly the file that was sent, for
/// every file and every file name.
pub proof fn law_receiver_stores_the_file(name: Seq<u8>, data: Seq<u8>)
    ensures
        stored_file(frames(name, data)) == data,
{
    let f = frames(name, data);
    assert(f.take(f.len() as int) =~= f);
    lemma_stored_upto(name, data, f.len() as int);
}

/// The second packet of a transfer tells its receiver the name of the file, for every name that can
/// go out.
pub proof fn law_receiver_learns_the_name(name: Seq<u8>, data: Seq<u8>)
    requires
        transfer::name_fits(name),
    ensures
        ({
            let packet = decoded(frames(name, data)[1]);
            &&& packet is Some
            &&& packet->0.seq == 1
            &&& packet->0.ptype == 'F' as u8
            &&& codec::unquoted(packet->0.data) == name
        }),
{
    lemma_decoded(1, 'F' as u8, codec::quoted(name));
    codec::law_unquote_reverses_quote(name);
    assert(plan(data)[1] is Header);
}

/// Every packet but the one with the file name keeps to the length that the receiver takes.
pub proof fn law_packets_keep_to_the_length(name: Seq<u8>, data: Seq<u8>, k: int)
    requires
        0 <= k < plan(data).len(),
    ensures
        k != 1 ==> transfer::part_data(name, data, plan(data)[k]).len() + 3 <= NEGOTIATED_MAXL,
        k == 1 ==> plan(data)[k] is Header,
{
    lemma_chunks(data, 0);
    let c = chunks_from(data, 0);
    if 2 <= k < 2 + c.len() {
        assert(in_place(data, c, k - 2));
        assert(plan(data)[k] == c[k - 2]);
    }
}

/// The progress that is reported lies between 0 and 100, does not fall from one chunk to a later
/// one, and is 100 exactly when the whole file is sent.
pub proof fn law_progress(len: nat, a: int, b: int)
    requires
        0 <= a <= b <= len,
        0 < len,
    ensures
        0 <= transfer::percent(a, len) <= transfer::percent(b, len) <= 100,
        transfer::percent(b, len) == 100 <==> b == len,
{
    assert(0 <= a * 100 / (len as int) <= b * 100 / (len as int) <= 100) by (nonlinear_arith)
        requires
            0 <= a <= b <= len,
            0 < len,
    ;
    assert(b * 100 / (len as int) == 100 <==> b == len) by (nonlinear_arith)
        requires
            0 <= b <= len,
            0 < len,
    ;
}

/// The first turn of a transfer.
pub open spec fn file_turn(name: Seq<u8>, data: Seq<u8>, at: Moment) -> TurnView<
    SendFileView,
    Finished,
> {
    SendFileView::launch(name, data, Part::Init, 0, at)
}

/// Whether what was written, `w`, is packets out of `f`, in order: `g` tells which packet each
/// writing was. Packets are taken from the first on, none is left out, each may be repeated before
/// the next one comes, and none is written more than twenty times.
pub open spec fn sent_in_order(w: Seq<Seq<u8>>, f: Seq<Seq<u8>>, g: Seq<int>) -> bool {
    &&& g.len() == w.len()
    &&& forall|i: int| 0 <= i < g.len() ==> 0 <= #[trigger] g[i] < f.len() && w[i] == f[g[i]]
    &&& forall|i: int, j: int| 0 <= i <= j < g.len() ==> #[trigger] g[i] <= #[trigger] g[j]
    &&& forall|k: int| g.len() > 0 && 0 <= k <= g.last() ==> #[trigger] g.contains(k)
    &&& forall|i: int, j: int|
        0 <= i && i + 20 <= j < g.len() ==> #[trigger] g[i] < #[trigger] g[j]
}

proof fn lemma_one_more(w: Seq<Seq<u8>>, f: Seq<Seq<u8>>, g: Seq<int>, k: int)
    requires
        sent_in_order(w, f, g),
        0 <= k < f.len(),
        g.len() == 0 ==> k == 0,
        g.len() > 0 ==> g.last() <= k <= g.last() + 1,
        forall|i: int| 0 <= i && i + 20 <= g.len() ==> #[trigger] g[i] < k,
    ensures
        sent_in_order(w.push(f[k]), f, g.push(k)),
{
    let h = g.push(k);
    assert forall|i: int, j: int| 0 <= i <= j < h.len() implies #[trigger] h[i] <= #[trigger] h[j] by {
        if j == g.len() && i < g.len() {
            assert(g[i] <= g[g.len() - 1]);
        }
    }
    assert forall|n: int| 0 <= n <= h.last() implies #[trigger] h.contains(n) by {
        if n == k {
            assert(h[g.len() as int] == k);
        } else {
            assert(g.contains(n));
            let i = choose|i: int| 0 <= i < g.len() && g[i] == n;
            assert(h[i] == n);
        }
    }
}

/// The four ways in which a transfer goes on.
enum Move {
    /// The packet under way is written once more.
    Again,
    /// Nothing is written.
    Wait,
    /// The packet of the next part is written.
    Onward,
    /// The transfer is over.
    Over,
}

spec fn moves(m: SendFileView, turn: TurnView<SendFileView, Finished>, how: Move) -> bool {
    match how {
        Move::Again => {
            &&& m.exchange is Some
            &&& m.exchange->0.attempt < 19
            &&& turn matches TurnView::Ask(n, r) && {
                &&& n.exchange is Some
                &&& n == (SendFileView { exchange: n.exchange, ..m })
                &&& n.exchange->0.pkt == m.exchange->0.pkt
                &&& n.exchange->0.attempt == m.exchange->0.attempt + 1
                &&& r == RequestView::Write(m.exchange->0.pkt)
            }
        },
        Move::Wait => turn matches TurnView::Ask(n, r) && {
            &&& n == (SendFileView { exchange: n.exchange, ..m })
            &&& n.exchange is Some ==> m.exchange is Some && n.exchange->0.pkt
                == m.exchange->0.pkt && n.exchange->0.attempt == m.exchange->0.attempt
            &&& r !is Write
        },
        Move::Onward => {
            &&& transfer::part_after(m.data, m.part) is Some
            &&& turn matches TurnView::Ask(n, r) && {
                let p = transfer::part_after(m.data, m.part)->0;
                &&& n.name == m.name
                &&& n.data == m.data
                &&& n.part == p
                &&& n.seq == (m.seq + 1) % 64
                &&& n.exchange is Some
                &&& n.exchange->0.attempt == 0
                &&& n.exchange->0.pkt == codec::packet(
                    n.seq,
                    transfer::part_type(p),
                    transfer::part_data(m.name, m.data, p),
                )
                &&& r == RequestView::Write(n.exchange->0.pkt)
            }
        },
        Move::Over => match turn {
            TurnView::Ask(_, _) => false,
            TurnView::Done(_) => transfer::part_after(m.data, m.part) is None,
            TurnView::Failed(_) => true,
        },
    }
}

proof fn lemma_next_move(m: SendFileView, reply: ReplyView, at: Moment) -> (how: Move)
    requires
        m.exchange is Some ==> m.exchange->0.attempt < 20,
    ensures
        moves(m, m.next(reply, at), how),
{
    match m.next(reply, at) {
        TurnView::Ask(n, RequestView::Write(_)) => if n.exchange->0.attempt > 0 {
            Move::Again
        } else {
            Move::Onward
        },
        TurnView::Ask(_, _) => Move::Wait,
        _ => Move::Over,
    }
}

/// How a transfer stands that has written the packets `g` says: the part under way is the one whose
/// packet was written last, and that packet was written once more often than it has failed.
spec fn stands(m: SendFileView, name: Seq<u8>, data: Seq<u8>, g: Seq<int>) -> bool {
    &&& m.name == name
    &&& m.data == data
    &&& g.len() > 0
    &&& m.part == plan(data)[g.last()]
    &&& m.seq == g.last() % 64
    &&& m.exchange matches Some(x) ==> {
        &&& x.pkt == frames(name, data)[g.last()]
        &&& x.attempt < 20
        &&& forall|i: int| 0 <= i < g.len() - (x.attempt + 1) ==> #[trigger] g[i] < g.last()
    }
}

proof fn lemma_next_number(k: int)
    requires
        k >= 0,
    ensures
        (k % 64 + 1) % 64 == (k + 1) % 64,
{
}

proof fn lemma_again(
    m: SendFileView,
    turn: TurnView<SendFileView, Finished>,
    w: Seq<Seq<u8>>,
    g: Seq<int>,
)
    requires
        moves(m, turn, Move::Again),
        stands(m, m.name, m.data, g),
        sent_in_order(w, frames(m.name, m.data), g),
    ensures
        sent_in_order(w + host::turn_write(turn), frames(m.name, m.data), g.push(g.last())),
        stands(turn->Ask_0, m.name, m.data, g.push(g.last())),
{
    let f = frames(m.name, m.data);
    let k = g.last();
    assert(g[g.len() - 1] == k);
    lemma_one_more(w, f, g, k);
    assert(w + host::turn_write(turn) =~= w.push(f[k]));
}

proof fn lemma_onward(
    m: SendFileView,
    turn: TurnView<SendFileView, Finished>,
    w: Seq<Seq<u8>>,
    g: Seq<int>,
)
    requires
        moves(m, turn, Move::Onward),
        stands(m, m.name, m.data, g),
        sent_in_order(w, frames(m.name, m.data), g),
    ensures
        sent_in_order(w + host::turn_write(turn), frames(m.name, m.data), g.push(g.last() + 1)),
        stands(turn->Ask_0, m.name, m.data, g.push(g.last() + 1)),
{
    let f = frames(m.name, m.data);
    let k = g.last();
    assert(g[g.len() - 1] == k);
    assert(f.len() == plan(m.data).len());
    lemma_plan_follows(m.data, k);
    lemma_next_number(k);
    let n = turn->Ask_0;
    assert(n.part == plan(m.data)[k + 1]);
    assert(n.seq == (k + 1) % 64);
    assert(f[k + 1] == n.exchange->0.pkt);
    let h = g.push(k + 1);
    assert forall|i: int| 0 <= i < g.len() implies #[trigger] g[i] < k + 1 by {
        assert(g[i] <= g[g.len() - 1]);
    }
    lemma_one_more(w, f, g, k + 1);
    assert(w + host::turn_write(turn) =~= w.push(f[k + 1]));
    assert forall|i: int| 0 <= i < h.len() - 1 implies #[trigger] h[i] < h.last() by {
        assert(h[i] == g[i]);
    }
}

proof fn lemma_move(
    m: SendFileView,
    turn: TurnView<SendFileView, Finished>,
    how: Move,
    w: Seq<Seq<u8>>,
    g: Seq<int>,
) -> (h: Seq<int>)
    requires
        moves(m, turn, how),
        stands(m, m.name, m.data, g),
        sent_in_order(w, frames(m.name, m.data), g),
    ensures
        sent_in_order(w + host::turn_write(turn), frames(m.name, m.data), h),
        turn matches TurnView::Ask(n, _) ==> stands(n, m.name, m.data, h),
        turn is Done ==> h.len() > 0 && h.last() == frames(m.name, m.data).len() - 1,
{
    match how {
        Move::Again => {
            lemma_again(m, turn, w, g);
            g.push(g.last())
        },
        Move::Onward => {
            lemma_onward(m, turn, w, g);
            g.push(g.last() + 1)
        },
        _ => {
            let k = g.last();
            assert(g[g.len() - 1] == k);
            lemma_plan_follows(m.data, k);
            assert(w + host::turn_write(turn) =~= w);
            g
        },
    }
}

proof fn lemma_transfer(name: Seq<u8>, data: Seq<u8>, at: Moment, replies: Replies) -> (g: Seq<int>)
    ensures
        ({
            let first = file_turn(name, data, at);
            &&& sent_in_order(host::writes(first, replies), frames(name, data), g)
            &&& match host::run(first, replies) {
                TurnView::Ask(m, _) => stands(m, name, data, g),
                TurnView::Done(_) => g.len() > 0 && g.last() == frames(name, data).len() - 1,
                TurnView::Failed(_) => true,
            }
        }),
    decreases replies.len(),
{
    let first = file_turn(name, data, at);
    let f = frames(name, data);
    if replies.len() == 0 {
        let none = Seq::<int>::empty();
        let nothing = Seq::<Seq<u8>>::empty();
        assert(sent_in_order(nothing, f, none));
        if at.cancelled {
            none
        } else {
            assert(plan(data)[0] is Init);
            lemma_one_more(nothing, f, none, 0);
            assert(nothing.push(f[0]) =~= host::writes(first, replies));
            none.push(0)
        }
    } else {
        let prev = replies.drop_last();
        let g = lemma_transfer(name, data, at, prev);
        match host::run(first, prev) {
            TurnView::Ask(m, _) => {
                let (reply, then_at) = replies.last();
                let how = lemma_next_move(m, reply, then_at);
                lemma_move(m, m.next(reply, then_at), how, host::writes(first, prev), g)
            },
            _ => g,
        }
    }
}

/// Whatever the receiver answers, a transfer writes the packets of its file in order: from the
/// first on, leaving none out, repeating one only before the next has been written, and none more
/// than twenty times. One that ends well has written them all.
pub proof fn law_transfer_writes_the_packets_in_order(
    name: Seq<u8>,
    data: Seq<u8>,
    at: Moment,
    replies: Replies,
)
    ensures
        exists|g: Seq<int>|
            {
                &&& #[trigger] sent_in_order(
                    host::writes(file_turn(name, data, at), replies),
                    frames(name, data),
                    g,
                )
                &&& host::run(file_turn(name, data, at), replies) is Done ==> g.len() > 0
                    && g.last() == frames(name, data).len() - 1
            },
{
    let g = lemma_transfer(name, data, at, replies);
    assert(sent_in_order(
        host::writes(file_turn(name, data, at), replies),
        frames(name, data),
        g,
    ));
}

/// What is left of the packets that were written once a receiver has dropped the repeated ones:
/// those with the number of the packet before them.
pub open spec fn fresh(w: Seq<Seq<u8>>) -> Seq<Seq<u8>>
    decreases w.len(),
{
    if w.len() <= 1 {
        w
    } else if w.last()[2] == w[w.len() - 2][2] {
        fresh(w.drop_last())
    } else {
        fresh(w.drop_last()).push(w.last())
    }
}

/// The third byte of a packet is its number.
proof fn lemma_number_of_frame(name: Seq<u8>, data: Seq<u8>, k: int)
    requires
        0 <= k < plan(data).len(),
    ensures
        frames(name, data)[k][2] == k % 64 + 32,
{
    let part = plan(data)[k];
    let checked = codec::checked_part(
        (k % 64) as u8,
        transfer::part_type(part),
        transfer::part_data(name, data, part),
    );
    assert(frames(name, data)[k][2] == checked[1]);
}

/// What was written before the last packet was written in order, and the last is the one before it
/// or the one after that.
proof fn lemma_sent_before(w: Seq<Seq<u8>>, f: Seq<Seq<u8>>, g: Seq<int>)
    requires
        sent_in_order(w, f, g),
        g.len() > 1,
    ensures
        sent_in_order(w.drop_last(), f, g.drop_last()),
        g.last() == g[g.len() - 2] || g.last() == g[g.len() - 2] + 1,
{
    let h = g.drop_last();
    let n = h.len() as int;
    assert forall|k: int| 0 <= k <= h.last() implies #[trigger] h.contains(k) by {
        assert(g[n - 1] <= g[n]);
        assert(g.contains(k));
        let i = choose|i: int| 0 <= i < g.len() && g[i] == k;
        if i == n {
            assert(h[n - 1] == k);
        } else {
            assert(h[i] == k);
        }
    }
    assert(g[n - 1] <= g[n]);
    if g.last() > h.last() + 1 {
        assert(g.contains(h.last() + 1));
        let i = choose|i: int| 0 <= i < g.len() && g[i] == h.last() + 1;
        assert(i < n);
        assert(g[i] <= g[n - 1]);
    }
}

proof fn lemma_fresh(name: Seq<u8>, data: Seq<u8>, w: Seq<Seq<u8>>, g: Seq<int>)
    requires
        sent_in_order(w, frames(name, data), g),
        g.len() > 0,
    ensures
        fresh(w) == frames(name, data).take(g.last() + 1),
    decreases w.len(),
{
    let f = frames(name, data);
    if g.len() == 1 {
        assert(g.contains(0));
        assert(g[0] == 0);
        assert(w =~= f.take(1));
    } else {
        let n = g.len() as int;
        lemma_sent_before(w, f, g);
        lemma_fresh(name, data, w.drop_last(), g.drop_last());
        let k = g[n - 2];
        assert(w[n - 2] == f[k]);
        assert(w[n - 1] == f[g[n - 1]]);
        lemma_number_of_frame(name, data, k);
        if g.last() == k + 1 {
            lemma_number_of_frame(name, data, k + 1);
            assert(f.take(k + 2) =~= f.take(k + 1).push(f[k + 1]));
        }
    }
}

/// A transfer that ends well leaves its receiver with exactly the file that was sent, however often
/// packets had to be repeated.
pub proof fn law_finished_transfer_delivers_the_file(
    name: Seq<u8>,
    data: Seq<u8>,
    at: Moment,
    replies: Replies,
)
    requires
        host::run(file_turn(name, data, at), replies) is Done,
    ensures
        fresh(host::writes(file_turn(name, data, at), replies)) == frames(name, data),
        stored_file(fresh(host::writes(file_turn(name, data, at), replies))) == data,
{
    let f = frames(name, data);
    let g = lemma_transfer(name, data, at, replies);
    lemma_fresh(name, data, host::writes(file_turn(name, data, at), replies), g);
    assert(f.take(f.len() as int) =~= f);
    law_receiver_stores_the_file(name, data);
}

/// Whether a reply completes an acknowledgement of the packet that a transfer has under way.
pub open spec fn acknowledges(m: SendFileView, reply: ReplyView, at: Moment) -> bool {
    match m.exchange {
        Some(x) => match x.reading {
            Some((_, reader)) => match reader.next(reply, at) {
                TurnView::Done(packet) => packet.seq == m.seq && packet.ptype == exchange::ACK,
                _ => false,
            },
            None => false,
        },
        None => false,
    }
}

/// Whether the packet that a transfer has under way has been acknowledged with the last reply, or
/// with the one before it, after which its progress was reported.
pub open spec fn just_acknowledged(
    first: TurnView<SendFileView, Finished>,
    replies: Replies,
    m: SendFileView,
) -> bool {
    ||| acknowledges(m, replies.last().0, replies.last().1)
    ||| {
        let before = replies.drop_last();
        &&& m.exchange is None
        &&& before.len() > 0
        &&& host::run(first, before.drop_last()) matches TurnView::Ask(n, _) && {
            &&& n.part == m.part
            &&& n.seq == m.seq
            &&& acknowledges(n, before.last().0, before.last().1)
        }
    }
}

proof fn lemma_exchange_has_the_number(name: Seq<u8>, data: Seq<u8>, at: Moment, replies: Replies)
    ensures
        host::run(file_turn(name, data, at), replies) matches TurnView::Ask(m, _) ==> {
            &&& m.exchange matches Some(x) ==> x.seq == m.seq
            &&& m.exchange is None ==> {
                &&& replies.len() > 0
                &&& host::run(file_turn(name, data, at), replies.drop_last()) matches TurnView::Ask(
                    n,
                    _,
                ) && {
                    &&& n.part == m.part
                    &&& n.seq == m.seq
                    &&& acknowledges(n, replies.last().0, replies.last().1)
                }
            }
        },
    decreases replies.len(),
{
    if replies.len() > 0 {
        lemma_exchange_has_the_number(name, data, at, replies.drop_last());
    }
}

/// A transfer waits for the acknowledgement of each packet: it goes on to the next part, or ends
/// well, only once an acknowledgement with the number of the packet under way has been read.
pub proof fn law_each_packet_waits_for_the_one_before(
    name: Seq<u8>,
    data: Seq<u8>,
    at: Moment,
    replies: Replies,
)
    requires
        replies.len() > 0,
        host::run(file_turn(name, data, at), replies.drop_last()) is Ask,
    ensures
        ({
            let first = file_turn(name, data, at);
            let m = host::run(first, replies.drop_last())->Ask_0;
            match host::run(first, replies) {
                TurnView::Ask(n, _) => n.part != m.part ==> just_acknowledged(first, replies, m),
                TurnView::Done(_) => m.part is Break && just_acknowledged(first, replies, m),
                TurnView::Failed(_) => true,
            }
        }),
{
    let first = file_turn(name, data, at);
    let m = host::run(first, replies.drop_last())->Ask_0;
    lemma_exchange_has_the_number(name, data, at, replies.drop_last());
    let (reply, then_at) = replies.last();
    if m.exchange is Some && m.exchange->0.next(reply, then_at) is Done {
        assert(acknowledges(m, reply, then_at));
    }
}

/// What a transfer reports once the first `n` chunks of its file have been acknowledged: how much
/// is sent with each.
pub open spec fn percentages(data: Seq<u8>, n: nat) -> Seq<FlashEventView> {
    Seq::new(
        n,
        |j: int|
            FlashEventView::Percent(
                transfer::percent(chunks_from(data, 0)[j]->Chunk_1, data.len()),
            ),
    )
}

/// How many chunks have been acknowledged.
pub open spec fn acknowledged_chunks(
    first: TurnView<SendFileView, Finished>,
    replies: Replies,
) -> nat
    decreases replies.len(),
{
    if replies.len() == 0 {
        0
    } else {
        let before = acknowledged_chunks(first, replies.drop_last());
        match host::run(first, replies.drop_last()) {
            TurnView::Ask(m, _) => if m.part is Chunk && acknowledges(
                m,
                replies.last().0,
                replies.last().1,
            ) {
                before + 1
            } else {
                before
            },
            _ => before,
        }
    }
}

/// How many chunks have been acknowledged when part `k` of a transfer is under way, or is being
/// reported.
pub open spec fn chunks_before(data: Seq<u8>, k: int, reporting: bool) -> nat {
    let c = chunks_from(data, 0).len();
    if k < 2 {
        0
    } else if k < 2 + c {
        (k - 2 + if reporting {
            1int
        } else {
            0
        }) as nat
    } else {
        c
    }
}

/// Whether part `k` of the plan is the one that a transfer has under way.
pub open spec fn at_part(m: SendFileView, data: Seq<u8>, k: int) -> bool {
    &&& m.data == data
    &&& 0 <= k < plan(data).len()
    &&& m.part == plan(data)[k]
    &&& m.exchange is None ==> m.part is Chunk
    &&& m.exchange matches Some(x) ==> x.seq == m.seq
}

/// How a transfer goes on from part `k`, and what it reports then.
pub proof fn lemma_report_of_part(
    m: SendFileView,
    data: Seq<u8>,
    k: int,
    reply: ReplyView,
    at: Moment,
) -> (next: int)
    requires
        at_part(m, data, k),
    ensures
        ({
            let c = chunks_from(data, 0).len();
            let turn = m.next(reply, at);
            let told = chunks_before(data, k, m.exchange is None);
            let more = if m.part is Chunk && acknowledges(m, reply, at) {
                1nat
            } else {
                0
            };
            &&& told + more <= c
            &&& percentages(data, told) + host::turn_report(turn) == percentages(data, told + more)
            &&& match turn {
                TurnView::Ask(n, _) => {
                    &&& at_part(n, data, next)
                    &&& chunks_before(data, next, n.exchange is None) == told + more
                },
                TurnView::Done(_) => told + more == c,
                TurnView::Failed(_) => true,
            }
        }),
{
    let c = chunks_from(data, 0);
    let turn = m.next(reply, at);
    let told = chunks_before(data, k, m.exchange is None);
    lemma_plan_follows(data, k);
    assert(plan(data).len() == c.len() + 4);
    assert(2 <= k < 2 + c.len() ==> plan(data)[k] == c[k - 2]);
    lemma_chunks(data, 0);
    if 2 <= k < 2 + c.len() {
        assert(in_place(data, c, k - 2));
    }
    assert(m.part is Chunk <==> 2 <= k < 2 + c.len());
    if m.part is Chunk && acknowledges(m, reply, at) {
        assert(percentages(data, told) + host::turn_report(turn) =~= percentages(data, told + 1));
        k
    } else {
        assert(percentages(data, told) + host::turn_report(turn) =~= percentages(data, told));
        match turn {
            TurnView::Ask(n, _) => if n.part == m.part {
                k
            } else {
                k + 1
            },
            _ => k,
        }
    }
}

proof fn lemma_reports(name: Seq<u8>, data: Seq<u8>, at: Moment, replies: Replies) -> (k: int)
    ensures
        ({
            let first = file_turn(name, data, at);
            let n = acknowledged_chunks(first, replies);
            let c = chunks_from(data, 0).len();
            &&& n <= c
            &&& host::reports(first, replies) == percentages(data, n)
            &&& match host::run(first, replies) {
                TurnView::Ask(m, _) => at_part(m, data, k) && n == chunks_before(
                    data,
                    k,
                    m.exchange is None,
                ),
                TurnView::Done(_) => n == c,
                TurnView::Failed(_) => true,
            }
        }),
    decreases replies.len(),
{
    let first = file_turn(name, data, at);
    if replies.len() == 0 {
        assert(plan(data)[0] is Init);
        assert(host::reports(first, replies) =~= percentages(data, 0));
        0
    } else {
        let prev = replies.drop_last();
        let k = lemma_reports(name, data, at, prev);
        match host::run(first, prev) {
            TurnView::Ask(m, _) => lemma_report_of_part(
                m,
                data,
                k,
                replies.last().0,
                replies.last().1,
            ),
            _ => k,
        }
    }
}

/// A transfer reports its progress once for each chunk that has been acknowledged, in order, and
/// nothing else. One that ends well has reported every chunk, and the last report is a hundred
/// percent if there is anything to send.
pub proof fn law_transfer_reports_each_acknowledged_chunk(
    name: Seq<u8>,
    data: Seq<u8>,
    at: Moment,
    replies: Replies,
)
    ensures
        ({
            let first = file_turn(name, data, at);
            let told = host::reports(first, replies);
            &&& told == percentages(data, acknowledged_chunks(first, replies))
            &&& acknowledged_chunks(first, replies) <= chunks_from(data, 0).len()
            &&& host::run(first, replies) is Done ==> {
                &&& told.len() == chunks_from(data, 0).len()
                &&& data.len() > 0 ==> told.len() > 0 && told.last() == FlashEventView::Percent(100)
            }
        }),
{
    lemma_reports(name, data, at, replies);
    let c = chunks_from(data, 0);
    lemma_chunks(data, 0);
    if data.len() > 0 {
        assert(c.len() > 0);
        assert(in_place(data, c, c.len() - 1));
        law_progress(data.len(), data.len() as int, data.len() as int);
    }
}

/// Once the job is cancelled a transfer writes no more: one that is begun then fails at once, and
/// one that is under way sends no packet for the reply that comes in then.
pub proof fn law_cancelled_transfer_writes_no_more(
    name: Seq<u8>,
    data: Seq<u8>,
    at: Moment,
    replies: Replies,
)
    ensures
        at.cancelled ==> file_turn(name, data, at) == TurnView::<SendFileView, Finished>::Failed(
            FlashErrorView::Cancelled,
        ),
        replies.len() > 0 && replies.last().1.cancelled ==> host::writes(
            file_turn(name, data, at),
            replies,
        ) == host::writes(file_turn(name, data, at), replies.drop_last()),
{
    if replies.len() > 0 {
        let before = host::writes(file_turn(name, data, at), replies.drop_last());
        assert(before + Seq::<Seq<u8>>::empty() =~= before);
    }
}

/// Replies that bring a byte string one byte at a time, all at one moment.
pub open spec fn bytewise(bytes: Seq<u8>, at: Moment) -> Replies {
    Seq::new(bytes.len(), |i: int| (ReplyView::Bytes(seq![bytes[i]]), at))
}

/// The reply to a request that asks for nothing.
pub open spec fn fine(at: Moment) -> Replies {
    seq![(ReplyView::Bytes(Seq::empty()), at)]
}

/// What stands in front of an acknowledgement: the end-of-packet character of the one before it,
/// which is not read with its packet.
pub open spec fn left_over(k: int) -> Seq<u8> {
    if k == 0 {
        Seq::empty()
    } else {
        seq![codec::EOL]
    }
}

/// What a sender reads when the packet with number `seq` is acknowledged.
pub open spec fn acknowledgement(k: int, seq: u8) -> Seq<u8> {
    (left_over(k) + codec::packet(seq, exchange::ACK, Seq::empty())).drop_last()
}

/// The replies to a transfer from its first part up to part `k`, where every packet is written and
/// acknowledged at once.
pub open spec fn obliging(data: Seq<u8>, k: nat, at: Moment) -> Replies
    decreases k,
{
    if k == 0 {
        Seq::empty()
    } else {
        let j = k - 1;
        obliging(data, (k - 1) as nat, at) + (fine(at) + bytewise(
            acknowledgement(j, (j % 64) as u8),
            at,
        ) + (if plan(data)[j] is Chunk {
            fine(at)
        } else {
            Seq::empty()
        }))
    }
}

proof fn lemma_hears_bytewise(k: int, seq: u8, at: Moment, n: int)
    requires
        seq < 64,
        0 <= n <= acknowledgement(k, seq).len(),
    ensures
        host::heard(
            receive::packet_turn(at.now, exchange::DEFAULT_PACKET_TIMEOUT, at.now),
            bytewise(acknowledgement(k, seq), at).take(n),
        ) == acknowledgement(k, seq).take(n),
        receive::steady(
            bytewise(acknowledgement(k, seq), at).take(n),
            at.now,
            exchange::DEFAULT_PACKET_TIMEOUT,
        ),
        !left_over(k).contains(codec::SOH),
    decreases n,
{
    let first = receive::packet_turn(at.now, exchange::DEFAULT_PACKET_TIMEOUT, at.now);
    let t = acknowledgement(k, seq);
    let all = bytewise(t, at);
    if n > 0 {
        lemma_hears_bytewise(k, seq, at, n - 1);
        let part = codec::checked_part(seq, exchange::ACK, Seq::empty());
        let chk = codec::checksum(part);
        assert(t =~= receive::incoming(left_over(k), seq, exchange::ACK, Seq::empty(), chk));
        receive::lemma_incoming(
            at.now,
            exchange::DEFAULT_PACKET_TIMEOUT,
            at.now,
            all.take(n - 1),
            left_over(k),
            seq,
            exchange::ACK,
            Seq::empty(),
            chk,
            n - 1,
        );
        assert(all.take(n).drop_last() =~= all.take(n - 1));
        assert(all.take(n).last() == all[n - 1]);
        assert(t.take(n) =~= t.take(n - 1) + seq![t[n - 1]]);
    } else {
        assert(t.take(0) =~= Seq::<u8>::empty());
    }
}

proof fn lemma_file_follows_exchange(
    m: SendFileView,
    x: SendAndWaitAckView,
    r: RequestView,
    replies: Replies,
)
    requires
        host::run(TurnView::Ask(x, r), replies) is Ask,
    ensures
        host::run(TurnView::Ask(SendFileView { exchange: Some(x), ..m }, r), replies) == TurnView::<
            SendFileView,
            Finished,
        >::Ask(
            SendFileView { exchange: Some(host::run(TurnView::Ask(x, r), replies)->Ask_0), ..m },
            host::run(TurnView::Ask(x, r), replies)->Ask_1,
        ),
    decreases replies.len(),
{
    if replies.len() > 0 {
        lemma_file_follows_exchange(m, x, r, replies.drop_last());
    }
}

proof fn lemma_part_is_acknowledged(m: SendFileView, x: SendAndWaitAckView, k: int, at: Moment)
    requires
        m.exchange == Some(x),
        x.reading is None,
        x.seq < 64,
    ensures
        host::run(
            TurnView::Ask(m, RequestView::Write(x.pkt)),
            fine(at) + bytewise(acknowledgement(k, x.seq), at),
        ) == m.acknowledged(at),
{
    let t = acknowledgement(k, x.seq);
    let all = bytewise(t, at);
    let packet = codec::packet(x.seq, exchange::ACK, Seq::empty());
    let n = t.len() as int;
    lemma_hears_bytewise(k, x.seq, at, n);
    lemma_hears_bytewise(k, x.seq, at, n - 1);
    assert(all.take(n) =~= all);
    assert(all.take(n - 1) =~= all.drop_last());
    assert(t.take(n) =~= t);
    assert(t.take(n - 1) =~= t.drop_last());
    exchange::law_answer_is_heeded(x, at.now, all, left_over(k), exchange::ACK, Seq::empty());
    // Until the last byte the exchange is open, and the transfer with it.
    let awaiting = exchange::awaiting(x, at.now);
    let part = codec::checked_part(x.seq, exchange::ACK, Seq::empty());
    let chk = codec::checksum(part);
    assert(t =~= receive::incoming(left_over(k), x.seq, exchange::ACK, Seq::empty(), chk));
    receive::lemma_incoming(
        at.now,
        exchange::DEFAULT_PACKET_TIMEOUT,
        at.now,
        all.drop_last(),
        left_over(k),
        x.seq,
        exchange::ACK,
        Seq::empty(),
        chk,
        n - 1,
    );
    exchange::lemma_exchange_follows_reader(x, at.now, all.drop_last());
    lemma_file_follows_exchange(m, awaiting->Ask_0, awaiting->Ask_1, all.drop_last());
    let first = TurnView::Ask(m, RequestView::Write(x.pkt));
    host::lemma_run_concat(first, fine(at), all);
    assert(fine(at).drop_last() =~= Seq::empty());
    assert(fine(at).last() == fine(at)[0]);
    assert(host::run(first, fine(at).drop_last()) == first);
    assert(host::run(first, fine(at)) == TurnView::<SendFileView, Finished>::Ask(
        SendFileView { exchange: Some(awaiting->Ask_0), ..m },
        awaiting->Ask_1,
    ));
}

proof fn lemma_oblige_one(
    name: Seq<u8>,
    data: Seq<u8>,
    part: Part,
    j: int,
    seq: u8,
    at: Moment,
)
    requires
        !at.cancelled,
        seq < 64,
    ensures
        host::run(
            SendFileView::launch(name, data, part, seq, at),
            fine(at) + bytewise(acknowledgement(j, seq), at) + (if part is Chunk {
                fine(at)
            } else {
                Seq::empty()
            }),
        ) == SendFileView::launch(name, data, part, seq, at)->Ask_0.proceed(at),
{
    let turn = SendFileView::launch(name, data, part, seq, at);
    let m = turn->Ask_0;
    let answer = fine(at) + bytewise(acknowledgement(j, seq), at);
    let rest: Replies = if part is Chunk {
        fine(at)
    } else {
        Seq::empty()
    };
    host::lemma_run_concat(turn, answer, rest);
    lemma_part_is_acknowledged(m, m.exchange->0, j, at);
    if part is Chunk {
        assert(fine(at).drop_last() =~= Seq::empty());
        assert(fine(at).last() == fine(at)[0]);
        assert(host::run(m.acknowledged(at), fine(at).drop_last()) == m.acknowledged(at));
    }
}

proof fn lemma_obliging(name: Seq<u8>, data: Seq<u8>, k: nat, at: Moment)
    requires
        k <= plan(data).len(),
        !at.cancelled,
    ensures
        host::run(file_turn(name, data, at), obliging(data, k, at)) == if k < plan(data).len() {
            SendFileView::launch(name, data, plan(data)[k as int], (k % 64) as u8, at)
        } else {
            TurnView::Done(Finished)
        },
    decreases k,
{
    let first = file_turn(name, data, at);
    if k == 0 {
        assert(plan(data)[0] is Init);
    } else {
        let j = k - 1;
        let seq = (j % 64) as u8;
        lemma_obliging(name, data, (k - 1) as nat, at);
        lemma_plan_follows(data, j);
        lemma_next_number(j);
        let part = plan(data)[j];
        let replies = fine(at) + bytewise(acknowledgement(j, seq), at) + (if part is Chunk {
            fine(at)
        } else {
            Seq::empty()
        });
        host::lemma_run_concat(first, obliging(data, (k - 1) as nat, at), replies);
        lemma_oblige_one(name, data, part, j, seq, at);
    }
}

/// A transfer whose every packet is written and acknowledged ends well, whatever the file and its
/// name.
pub proof fn law_acknowledged_transfer_ends_well(name: Seq<u8>, data: Seq<u8>, at: Moment)
    requires
        !at.cancelled,
    ensures
        host::run(file_turn(name, data, at), obliging(data, plan(data).len(), at)) == TurnView::<
            SendFileView,
            Finished,
        >::Done(Finished),
{
    lemma_obliging(name, data, plan(data).len(), at);
}

/// The chunks of a file make it up: the first begins at its beginning, each of the others where the
/// one before it ends, and the last ends at its end. None is empty, each fits 91 bytes when it is
/// quoted, and with one byte more it would not.
pub proof fn law_chunks_make_up_the_file(data: Seq<u8>, j: int)
    requires
        0 <= j < chunks_from(data, 0).len(),
    ensures
        ({
            let c = chunks_from(data, 0);
            let start = c[j]->Chunk_0;
            let end = c[j]->Chunk_1;
            &&& c[j] is Chunk
            &&& 0 <= start < end <= data.len()
            &&& start == if j == 0 {
                0
            } else {
                c[j - 1]->Chunk_1
            }
            &&& j == c.len() - 1 ==> end == data.len()
            &&& codec::quoted(data.subrange(start, end)).len() <= 91
            &&& end < data.len() ==> codec::quoted(data.subrange(start, end + 1)).len() > 91
        }),
{
    let c = chunks_from(data, 0);
    lemma_chunks(data, 0);
    assert(in_place(data, c, j));
    if j > 0 {
        assert(in_place(data, c, j - 1));
    }
    let start = c[j]->Chunk_0;
    assert(c[j] == transfer::part_from(data, start));
    let rest = data.skip(start);
    let n = transfer::chunk_len(rest, 91);
    transfer::law_chunk_takes_what_fits(rest, 91);
    assert(start + n == c[j]->Chunk_1);
    if n < rest.len() {
        assert(rest.take(n as int + 1) =~= data.subrange(start, start + n + 1));
    }
}

/// The packets of a file in order: Send-Init, the name, the chunks, End-of-File and Break, numbered
/// from zero modulo 64.
pub proof fn law_packets_of_a_file(name: Seq<u8>, data: Seq<u8>, k: int)
    requires
        0 <= k < frames(name, data).len(),
    ensures
        ({
            let f = frames(name, data);
            let c = chunks_from(data, 0);
            let seq = (k % 64) as u8;
            &&& f.len() == c.len() + 4
            &&& k == 0 ==> f[k] == codec::packet(seq, 0x53, transfer::init_fields())
            &&& k == 1 ==> f[k] == codec::packet(seq, 0x46, codec::quoted(name))
            &&& 2 <= k < c.len() + 2 ==> f[k] == codec::packet(
                seq,
                0x44,
                codec::quoted(data.subrange(c[k - 2]->Chunk_0, c[k - 2]->Chunk_1)),
            )
            &&& k == c.len() + 2 ==> f[k] == codec::packet(seq, 0x5a, Seq::empty())
            &&& k == c.len() + 3 ==> f[k] == codec::packet(seq, 0x42, Seq::empty())
        }),
{
    let c = chunks_from(data, 0);
    lemma_chunks(data, 0);
    if 2 <= k < c.len() + 2 {
        assert(in_place(data, c, k - 2));
        assert(plan(data)[k] == c[k - 2]);
    }
}

/// How a transfer goes on, part `k` of it being under way. It does what the exchange for that part
/// does, and fails if that fails. Once the packet is acknowledged it goes on: from a chunk with a
/// report of how much of the file is sent, and after that, or from any other part, by writing the
/// next packet, unless the job was cancelled. After the last packet it has ended well.
pub proof fn law_how_a_transfer_goes_on(
    name: Seq<u8>,
    data: Seq<u8>,
    at: Moment,
    replies: Replies,
) -> (k: int)
    requires
        replies.len() > 0,
        host::run(file_turn(name, data, at), replies.drop_last()) is Ask,
    ensures
        ({
            let f = frames(name, data);
            let c = chunks_from(data, 0);
            let first = file_turn(name, data, at);
            let m = host::run(first, replies.drop_last())->Ask_0;
            let turn = host::run(first, replies);
            let (reply, then) = replies.last();
            let onward = if k == f.len() - 1 {
                turn == TurnView::<SendFileView, Finished>::Done(Finished)
            } else if then.cancelled {
                turn == TurnView::<SendFileView, Finished>::Failed(FlashErrorView::Cancelled)
            } else {
                turn is Ask && turn->Ask_1 == RequestView::Write(f[k + 1])
            };
            &&& 0 <= k < f.len()
            &&& match m.exchange {
                Some(x) => {
                    &&& x.pkt == f[k]
                    &&& x.seq == k % 64
                    &&& x.pkt[3] == x.ptype
                    &&& match x.next(reply, then) {
                        TurnView::Ask(y, request) => turn == TurnView::<_, Finished>::Ask(
                            SendFileView { exchange: Some(y), ..m },
                            request,
                        ),
                        TurnView::Failed(e) => turn == TurnView::<SendFileView, Finished>::Failed(e),
                        TurnView::Done(_) => if 2 <= k < c.len() + 2 {
                            &&& turn is Ask
                            &&& turn->Ask_1 is Report
                            &&& turn->Ask_1->Report_0 is Percent
                            &&& {
                                let p = turn->Ask_1->Report_0->Percent_0 as int;
                                p * data.len() <= c[k - 2]->Chunk_1 * 100 < (p + 1) * data.len()
                            }
                        } else {
                            onward
                        },
                    }
                },
                None => 2 <= k < c.len() + 2 && onward,
            }
        }),
{
    let first = file_turn(name, data, at);
    let prev = replies.drop_last();
    let g = lemma_transfer(name, data, at, prev);
    let k = g.last();
    assert(g[g.len() - 1] == k);
    lemma_exchange_has_the_number(name, data, at, prev);
    lemma_type_of_exchange(name, data, at, prev);
    lemma_plan_follows(data, k);
    lemma_next_number(k);
    lemma_chunks(data, 0);
    let c = chunks_from(data, 0);
    assert(plan(data).len() == c.len() + 4);
    if 2 <= k < c.len() + 2 {
        assert(in_place(data, c, k - 2));
        assert(plan(data)[k] == c[k - 2]);
        transfer::law_progress_is_the_whole_percentage(c[k - 2]->Chunk_1, data.len());
    }
    assert(plan(data)[k] is Chunk <==> 2 <= k < c.len() + 2);
    k
}

proof fn lemma_type_of_exchange(name: Seq<u8>, data: Seq<u8>, at: Moment, replies: Replies)
    ensures
        host::run(file_turn(name, data, at), replies) matches TurnView::Ask(m, _) ==> {
            &&& m.exchange matches Some(x) ==> x.pkt[3] == x.ptype
            &&& m.exchange is None ==> m.part is Chunk
        },
    decreases replies.len(),
{
    if replies.len() > 0 {
        lemma_type_of_exchange(name, data, at, replies.drop_last());
    }
}

/// How a transfer begins: with its first packet, unless the job was cancelled.
pub proof fn law_how_a_transfer_begins(name: Seq<u8>, data: Seq<u8>, at: Moment)
    ensures
        at.cancelled ==> file_turn(name, data, at) == TurnView::<SendFileView, Finished>::Failed(
            FlashErrorView::Cancelled,
        ),
        !at.cancelled ==> file_turn(name, data, at) is Ask && file_turn(name, data, at)->Ask_1
            == RequestView::Write(frames(name, data)[0]),
{
    assert(plan(data)[0] is Init);
}

} // verus!
