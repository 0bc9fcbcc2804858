//! What holds of a whole job, from its first request to its end.

use crate::delivery;
use crate::event::{FlashMilestone, FlashPhase};
use crate::host;
use crate::host::{Finished, Machine, Moment, Replies, ReplyView, RequestView, TurnView};
use crate::image;
use crate::image::ImageKind;
use crate::job;
use crate::job::{FlashJob, FlashMode};
use crate::menu;
use crate::menu::EnterIspMenuView;
use crate::plugin;
use crate::plugin::{RunFlashView, Siwx917Plugin, ISP_BAUD, PORT_TIMEOUT};
use crate::report;
use crate::report::ConfirmUpgradeView;
use crate::transfer::SendFileView;
use vstd::prelude::*;
use vstd::utf8::*;

verus! {

/// The file that a job has read.
pub open spec fn read_file(replies: Replies) -> Seq<u8> {
    replies[0].0->Bytes_0
}

/// How the handshake of a job begins.
pub open spec fn handshake_turn(replies: Replies) -> TurnView<EnterIspMenuView, Finished> {
    EnterIspMenuView::opened(image::core_of(read_file(replies)), replies[2].1)
}

/// How the transfer of a job begins whose handshake took the replies up to `k`.
pub open spec fn transfer_turn(sent: Seq<char>, replies: Replies, k: int) -> TurnView<
    SendFileView,
    Finished,
> {
    delivery::file_turn(encode_utf8(sent), read_file(replies), replies[k + 1].1)
}

/// How the confirmation of a job begins whose transfer took the replies up to `l`.
pub open spec fn confirmation_turn(replies: Replies, l: int) -> TurnView<
    ConfirmUpgradeView,
    Finished,
> {
    ConfirmUpgradeView::opened(replies[l + 1].1)
}

/// Whether a job has read its image, found it good, and opened the port.
pub open spec fn prepared(job: &FlashJob, replies: Replies) -> bool {
    &&& job.mode == FlashMode::Flash
    &&& job::image_path(job) is Ok
    &&& replies.len() >= 2
    &&& replies[0].0 is Bytes
    &&& image::is_rps(read_file(replies))
    &&& replies[1].0 is Bytes
}

/// What a job asks for after the first `k` replies.
pub open spec fn asks(
    job: &FlashJob,
    sent: Seq<char>,
    replies: Replies,
    k: int,
    request: RequestView,
) -> bool {
    match host::run(Siwx917Plugin::first_turn(job, sent), replies.take(k)) {
        TurnView::Ask(_, r) => r == request,
        _ => false,
    }
}

/// Whether the handshake of a job ended well with the replies up to `k`.
pub open spec fn shaken(job: &FlashJob, sent: Seq<char>, replies: Replies, k: int) -> bool {
    &&& prepared(job, replies)
    &&& 3 <= k <= replies.len()
    &&& host::run(handshake_turn(replies), replies.subrange(3, k)) is Done
    &&& asks(job, sent, replies, 2, plugin::phase_request(FlashPhase::Handshake))
    &&& asks(job, sent, replies, k, plugin::milestone_request(FlashMilestone::HandshakeComplete))
}

/// Whether the transfer of a job ended well too, with the replies up to `l`.
pub open spec fn transferred(job: &FlashJob, sent: Seq<char>, replies: Replies, k: int, l: int) -> bool {
    &&& shaken(job, sent, replies, k)
    &&& k + 2 <= l <= replies.len()
    &&& host::run(transfer_turn(sent, replies, k), replies.subrange(k + 2, l)) is Done
    &&& asks(job, sent, replies, k + 1, plugin::phase_request(FlashPhase::Write))
    &&& asks(job, sent, replies, l, plugin::milestone_request(FlashMilestone::WriteComplete))
}

/// Whether the confirmation of a job ended well too, with the replies up to `m`.
pub open spec fn confirmed(job: &FlashJob, sent: Seq<char>, replies: Replies, k: int, l: int, m: int) -> bool {
    &&& transferred(job, sent, replies, k, l)
    &&& l + 2 <= m <= replies.len()
    &&& host::run(confirmation_turn(replies, l), replies.subrange(l + 2, m)) is Done
    &&& asks(job, sent, replies, l + 1, plugin::phase_request(FlashPhase::Verify))
}

/// What the handshake of a job wrote.
pub open spec fn handshake_writes(replies: Replies, k: int) -> Seq<Seq<u8>> {
    host::writes(handshake_turn(replies), replies.subrange(3, k))
}

/// What the transfer of a job wrote.
pub open spec fn transfer_writes(sent: Seq<char>, replies: Replies, k: int, l: int) -> Seq<Seq<u8>> {
    host::writes(transfer_turn(sent, replies, k), replies.subrange(k + 2, l))
}

/// How far a job has come, and with which replies the handshake, the transfer and the confirmation
/// ended, as far as they have.
pub struct Cuts {
    pub handshake: int,
    pub transfer: int,
    pub confirmation: int,
}

/// Whether the port is open and the handshake has begun.
pub open spec fn started(job: &FlashJob, sent: Seq<char>, replies: Replies) -> bool {
    &&& prepared(job, replies)
    &&& asks(job, sent, replies, 2, plugin::phase_request(FlashPhase::Handshake))
}

/// How a job that is still open stands.
pub open spec fn open_at(
    job: &FlashJob,
    sent: Seq<char>,
    replies: Replies,
    cuts: Cuts,
    m: RunFlashView,
    request: RequestView,
) -> bool {
    let n = replies.len();
    let w = host::writes(Siwx917Plugin::first_turn(job, sent), replies);
    let k = cuts.handshake;
    let l = cuts.transfer;
    &&& job.mode == FlashMode::Flash
    &&& job::image_path(job) is Ok
    &&& match m {
        RunFlashView::Loading { port, path, name } => {
            &&& n == 0
            &&& port == job.port@
            &&& path == job::image_path(job)->Ok_0
            &&& name == sent
            &&& request == RequestView::LoadFile(path)
            &&& w.len() == 0
        },
        RunFlashView::Opening { kind, name, data } => {
            &&& n == 1
            &&& replies[0].0 == ReplyView::Bytes(data)
            &&& image::is_rps(data)
            &&& kind == image::core_of(data)
            &&& name == sent
            &&& request == RequestView::OpenPort(job.port@, ISP_BAUD, PORT_TIMEOUT)
            &&& w.len() == 0
        },
        RunFlashView::Starting { kind, name, data } => {
            &&& n == 2
            &&& started(job, sent, replies)
            &&& data == read_file(replies)
            &&& kind == image::core_of(data)
            &&& name == sent
            &&& request is Report
            &&& w.len() == 0
        },
        RunFlashView::Handshaking { handshake, name, data } => {
            &&& n >= 3
            &&& started(job, sent, replies)
            &&& data == read_file(replies)
            &&& name == sent
            &&& host::run(handshake_turn(replies), replies.subrange(3, n as int)) == TurnView::<
                _,
                Finished,
            >::Ask(handshake, request)
            &&& w == handshake_writes(replies, n as int)
        },
        RunFlashView::Shaken { name, data } => {
            &&& n == k
            &&& shaken(job, sent, replies, k)
            &&& data == read_file(replies)
            &&& name == sent
            &&& request is Report
            &&& w == handshake_writes(replies, k)
        },
        RunFlashView::StartingWrite { name, data } => {
            &&& n == k + 1
            &&& shaken(job, sent, replies, k)
            &&& asks(job, sent, replies, k + 1, plugin::phase_request(FlashPhase::Write))
            &&& data == read_file(replies)
            &&& name == sent
            &&& request is Report
            &&& w == handshake_writes(replies, k)
        },
        RunFlashView::Writing { transfer } => {
            &&& n >= k + 2
            &&& shaken(job, sent, replies, k)
            &&& asks(job, sent, replies, k + 1, plugin::phase_request(FlashPhase::Write))
            &&& host::run(transfer_turn(sent, replies, k), replies.subrange(k + 2, n as int))
                == TurnView::<_, Finished>::Ask(transfer, request)
            &&& w == handshake_writes(replies, k) + transfer_writes(sent, replies, k, n as int)
        },
        RunFlashView::Written => {
            &&& n == l
            &&& transferred(job, sent, replies, k, l)
            &&& request is Report
            &&& w == handshake_writes(replies, k) + transfer_writes(sent, replies, k, l)
        },
        RunFlashView::StartingVerify => {
            &&& n == l + 1
            &&& transferred(job, sent, replies, k, l)
            &&& asks(job, sent, replies, l + 1, plugin::phase_request(FlashPhase::Verify))
            &&& request is Report
            &&& w == handshake_writes(replies, k) + transfer_writes(sent, replies, k, l)
        },
        RunFlashView::Verifying { confirmation } => {
            &&& n >= l + 2
            &&& transferred(job, sent, replies, k, l)
            &&& asks(job, sent, replies, l + 1, plugin::phase_request(FlashPhase::Verify))
            &&& host::run(confirmation_turn(replies, l), replies.subrange(l + 2, n as int))
                == TurnView::<_, Finished>::Ask(confirmation, request)
            &&& w == handshake_writes(replies, k) + transfer_writes(sent, replies, k, l)
        },
    }
}

/// How a job stands.
pub open spec fn stands(job: &FlashJob, sent: Seq<char>, replies: Replies, cuts: Cuts) -> bool {
    match host::run(Siwx917Plugin::first_turn(job, sent), replies) {
        TurnView::Ask(m, request) => open_at(job, sent, replies, cuts, m, request),
        TurnView::Done(_) => {
            &&& confirmed(job, sent, replies, cuts.handshake, cuts.transfer, cuts.confirmation)
            &&& host::writes(Siwx917Plugin::first_turn(job, sent), replies) == handshake_writes(
                replies,
                cuts.handshake,
            ) + transfer_writes(sent, replies, cuts.handshake, cuts.transfer)
        },
        TurnView::Failed(_) => true,
    }
}

/// What holds of some replies still holds once another has come in.
proof fn lemma_one_more_reply(replies: Replies, a: int, b: int)
    requires
        0 <= a <= b < replies.len(),
    ensures
        replies.drop_last().subrange(a, b) == replies.subrange(a, b),
        replies.drop_last().take(b) == replies.take(b),
{
    assert(replies.drop_last().subrange(a, b) =~= replies.subrange(a, b));
    assert(replies.drop_last().take(b) =~= replies.take(b));
}

proof fn lemma_asks_persists(job: &FlashJob, sent: Seq<char>, replies: Replies, k: int, request: RequestView)
    requires
        0 <= k < replies.len(),
        asks(job, sent, replies.drop_last(), k, request),
    ensures
        asks(job, sent, replies, k, request),
{
    lemma_one_more_reply(replies, 0, k);
}

proof fn lemma_shaken_persists(job: &FlashJob, sent: Seq<char>, replies: Replies, k: int)
    requires
        replies.len() > 0,
        shaken(job, sent, replies.drop_last(), k),
    ensures
        shaken(job, sent, replies, k),
        handshake_writes(replies, k) == handshake_writes(replies.drop_last(), k),
{
    lemma_one_more_reply(replies, 3, k);
    lemma_one_more_reply(replies, 0, 2);
}

proof fn lemma_transferred_persists(job: &FlashJob, sent: Seq<char>, replies: Replies, k: int, l: int)
    requires
        replies.len() > 0,
        transferred(job, sent, replies.drop_last(), k, l),
    ensures
        transferred(job, sent, replies, k, l),
        transfer_writes(sent, replies, k, l) == transfer_writes(sent, replies.drop_last(), k, l),
        handshake_writes(replies, k) == handshake_writes(replies.drop_last(), k),
{
    lemma_shaken_persists(job, sent, replies, k);
    lemma_one_more_reply(replies, k + 2, l);
    lemma_one_more_reply(replies, 0, k + 1);
}

/// A part of a job goes on with each reply that comes in for it.
proof fn lemma_part_goes_on<M: Machine>(
    first: TurnView<M, M::Output>,
    replies: Replies,
    a: int,
)
    requires
        0 <= a < replies.len(),
    ensures
        ({
            let n = replies.len() as int;
            let before = replies.drop_last().subrange(a, n - 1);
            let turn = host::run(first, replies.subrange(a, n));
            match host::run(first, before) {
                TurnView::Ask(m, _) => {
                    &&& turn == m.next(replies.last().0, replies.last().1)
                    &&& host::writes(first, replies.subrange(a, n)) == host::writes(first, before)
                        + host::turn_write(turn)
                },
                ended => turn == ended,
            }
        }),
{
    let n = replies.len() as int;
    assert(replies.subrange(a, n).drop_last() =~= replies.drop_last().subrange(a, n - 1));
    assert(replies.subrange(a, n).last() == replies.last());
}

/// A part of a job begins with no replies.
proof fn lemma_part_begins<M: Machine>(first: TurnView<M, M::Output>, replies: Replies)
    ensures
        ({
            let n = replies.len() as int;
            &&& host::run(first, replies.subrange(n, n)) == first
            &&& host::writes(first, replies.subrange(n, n)) == host::turn_write(first)
        }),
{
}

/// What a job asks for now is what it asks for after all replies.
proof fn lemma_asks_now(job: &FlashJob, sent: Seq<char>, replies: Replies)
    ensures
        host::run(Siwx917Plugin::first_turn(job, sent), replies) matches TurnView::Ask(_, request)
            ==> asks(job, sent, replies, replies.len() as int, request),
{
    assert(replies.take(replies.len() as int) =~= replies);
}

/// The job that stood at `m` with all replies but the last.
spec fn was_at(
    job: &FlashJob,
    sent: Seq<char>,
    replies: Replies,
    cuts: Cuts,
    m: RunFlashView,
    request: RequestView,
) -> bool {
    &&& replies.len() > 0
    &&& host::run(Siwx917Plugin::first_turn(job, sent), replies.drop_last()) == TurnView::<
        _,
        Finished,
    >::Ask(m, request)
    &&& open_at(job, sent, replies.drop_last(), cuts, m, request)
}

proof fn lemma_preparation_goes_on(
    job: &FlashJob,
    sent: Seq<char>,
    replies: Replies,
    cuts: Cuts,
    m: RunFlashView,
    request: RequestView,
)
    requires
        was_at(job, sent, replies, cuts, m, request),
        m is Loading || m is Opening,
    ensures
        stands(job, sent, replies, cuts),
{
    lemma_asks_now(job, sent, replies);
}

/// A turn of a job asks to have written what the part under way does.
proof fn lemma_writes_follow(
    job: &FlashJob,
    sent: Seq<char>,
    replies: Replies,
    before: Seq<Seq<u8>>,
    part: Seq<Seq<u8>>,
    more: Seq<Seq<u8>>,
)
    requires
        replies.len() > 0,
        host::run(Siwx917Plugin::first_turn(job, sent), replies.drop_last()) is Ask,
        host::writes(Siwx917Plugin::first_turn(job, sent), replies.drop_last()) == before + part,
        host::turn_write(host::run(Siwx917Plugin::first_turn(job, sent), replies)) == more,
    ensures
        host::writes(Siwx917Plugin::first_turn(job, sent), replies) == before + (part + more),
{
    assert(host::writes(Siwx917Plugin::first_turn(job, sent), replies) =~= before + (part + more));
}

/// A job whose handshake has come to `turn`.
proof fn lemma_handshake_stands(
    job: &FlashJob,
    sent: Seq<char>,
    replies: Replies,
    cuts: Cuts,
    turn: TurnView<EnterIspMenuView, Finished>,
)
    requires
        started(job, sent, replies),
        3 <= replies.len() == cuts.handshake,
        host::run(handshake_turn(replies), replies.subrange(3, cuts.handshake)) == turn,
        host::run(Siwx917Plugin::first_turn(job, sent), replies) == RunFlashView::handshaking(
            sent,
            read_file(replies),
            turn,
        ),
        host::writes(Siwx917Plugin::first_turn(job, sent), replies) == handshake_writes(
            replies,
            cuts.handshake,
        ),
    ensures
        stands(job, sent, replies, cuts),
{
    lemma_asks_now(job, sent, replies);
}

proof fn lemma_handshake_begins(
    job: &FlashJob,
    sent: Seq<char>,
    replies: Replies,
    cuts: Cuts,
    m: RunFlashView,
    request: RequestView,
) -> (after: Cuts)
    requires
        was_at(job, sent, replies, cuts, m, request),
        m is Starting,
    ensures
        stands(job, sent, replies, after),
{
    let n = replies.len() as int;
    lemma_asks_persists(job, sent, replies, 2, plugin::phase_request(FlashPhase::Handshake));
    let turn = handshake_turn(replies);
    lemma_part_begins(turn, replies);
    let none = Seq::<Seq<u8>>::empty();
    assert(host::writes(Siwx917Plugin::first_turn(job, sent), replies.drop_last()) =~= none + none);
    lemma_writes_follow(job, sent, replies, none, none, host::turn_write(turn));
    assert(none + (none + host::turn_write(turn)) =~= handshake_writes(replies, n));
    let after = Cuts { handshake: n, ..cuts };
    lemma_handshake_stands(job, sent, replies, after, turn);
    after
}

proof fn lemma_handshake_goes_on(
    job: &FlashJob,
    sent: Seq<char>,
    replies: Replies,
    cuts: Cuts,
    m: RunFlashView,
    request: RequestView,
) -> (after: Cuts)
    requires
        was_at(job, sent, replies, cuts, m, request),
        m is Handshaking,
    ensures
        stands(job, sent, replies, after),
{
    let n = replies.len() as int;
    lemma_asks_persists(job, sent, replies, 2, plugin::phase_request(FlashPhase::Handshake));
    let first = handshake_turn(replies);
    let turn = host::run(first, replies.subrange(3, n));
    lemma_part_goes_on(first, replies, 3);
    let none = Seq::<Seq<u8>>::empty();
    let before = handshake_writes(replies.drop_last(), n - 1);
    assert(none + before =~= before);
    lemma_writes_follow(job, sent, replies, none, before, host::turn_write(turn));
    assert(none + (before + host::turn_write(turn)) =~= handshake_writes(replies, n));
    let after = Cuts { handshake: n, ..cuts };
    lemma_handshake_stands(job, sent, replies, after, turn);
    after
}

/// A job whose transfer has come to `turn`.
proof fn lemma_transfer_stands(
    job: &FlashJob,
    sent: Seq<char>,
    replies: Replies,
    cuts: Cuts,
    turn: TurnView<SendFileView, Finished>,
)
    requires
        shaken(job, sent, replies, cuts.handshake),
        asks(job, sent, replies, cuts.handshake + 1, plugin::phase_request(FlashPhase::Write)),
        cuts.handshake + 2 <= replies.len() == cuts.transfer,
        host::run(
            transfer_turn(sent, replies, cuts.handshake),
            replies.subrange(cuts.handshake + 2, cuts.transfer),
        ) == turn,
        host::run(Siwx917Plugin::first_turn(job, sent), replies) == RunFlashView::writing(turn),
        host::writes(Siwx917Plugin::first_turn(job, sent), replies) == handshake_writes(
            replies,
            cuts.handshake,
        ) + transfer_writes(sent, replies, cuts.handshake, cuts.transfer),
    ensures
        stands(job, sent, replies, cuts),
{
    lemma_asks_now(job, sent, replies);
}

proof fn lemma_transfer_is_announced(
    job: &FlashJob,
    sent: Seq<char>,
    replies: Replies,
    cuts: Cuts,
    m: RunFlashView,
    request: RequestView,
)
    requires
        was_at(job, sent, replies, cuts, m, request),
        m is Shaken,
    ensures
        stands(job, sent, replies, cuts),
{
    let k = cuts.handshake;
    lemma_asks_now(job, sent, replies);
    lemma_shaken_persists(job, sent, replies, k);
    assert(host::writes(Siwx917Plugin::first_turn(job, sent), replies) =~= handshake_writes(replies, k));
}

proof fn lemma_transfer_begins(
    job: &FlashJob,
    sent: Seq<char>,
    replies: Replies,
    cuts: Cuts,
    m: RunFlashView,
    request: RequestView,
) -> (after: Cuts)
    requires
        was_at(job, sent, replies, cuts, m, request),
        m is StartingWrite,
    ensures
        stands(job, sent, replies, after),
{
    let n = replies.len() as int;
    let k = cuts.handshake;
    lemma_shaken_persists(job, sent, replies, k);
    lemma_asks_persists(job, sent, replies, k + 1, plugin::phase_request(FlashPhase::Write));
    let turn = transfer_turn(sent, replies, k);
    lemma_part_begins(turn, replies);
    let none = Seq::<Seq<u8>>::empty();
    let before = handshake_writes(replies, k);
    assert(before + none =~= before);
    lemma_writes_follow(job, sent, replies, before, none, host::turn_write(turn));
    assert(none + host::turn_write(turn) =~= transfer_writes(sent, replies, k, n));
    let after = Cuts { transfer: n, ..cuts };
    lemma_transfer_stands(job, sent, replies, after, turn);
    after
}

proof fn lemma_transfer_goes_on(
    job: &FlashJob,
    sent: Seq<char>,
    replies: Replies,
    cuts: Cuts,
    m: RunFlashView,
    request: RequestView,
) -> (after: Cuts)
    requires
        was_at(job, sent, replies, cuts, m, request),
        m is Writing,
    ensures
        stands(job, sent, replies, after),
{
    let n = replies.len() as int;
    let k = cuts.handshake;
    lemma_shaken_persists(job, sent, replies, k);
    lemma_asks_persists(job, sent, replies, k + 1, plugin::phase_request(FlashPhase::Write));
    let first = transfer_turn(sent, replies, k);
    let turn = host::run(first, replies.subrange(k + 2, n));
    lemma_part_goes_on(first, replies, k + 2);
    lemma_writes_follow(
        job,
        sent,
        replies,
        handshake_writes(replies, k),
        transfer_writes(sent, replies.drop_last(), k, n - 1),
        host::turn_write(turn),
    );
    let after = Cuts { transfer: n, ..cuts };
    lemma_transfer_stands(job, sent, replies, after, turn);
    after
}

/// A job whose confirmation has come to `turn`.
proof fn lemma_confirmation_stands(
    job: &FlashJob,
    sent: Seq<char>,
    replies: Replies,
    cuts: Cuts,
    turn: TurnView<ConfirmUpgradeView, Finished>,
)
    requires
        transferred(job, sent, replies, cuts.handshake, cuts.transfer),
        asks(job, sent, replies, cuts.transfer + 1, plugin::phase_request(FlashPhase::Verify)),
        cuts.transfer + 2 <= replies.len() == cuts.confirmation,
        host::run(
            confirmation_turn(replies, cuts.transfer),
            replies.subrange(cuts.transfer + 2, cuts.confirmation),
        ) == turn,
        host::run(Siwx917Plugin::first_turn(job, sent), replies) == RunFlashView::verifying(turn),
        host::writes(Siwx917Plugin::first_turn(job, sent), replies) == handshake_writes(
            replies,
            cuts.handshake,
        ) + transfer_writes(sent, replies, cuts.handshake, cuts.transfer),
    ensures
        stands(job, sent, replies, cuts),
{
}

proof fn lemma_confirmation_is_announced(
    job: &FlashJob,
    sent: Seq<char>,
    replies: Replies,
    cuts: Cuts,
    m: RunFlashView,
    request: RequestView,
)
    requires
        was_at(job, sent, replies, cuts, m, request),
        m is Written,
    ensures
        stands(job, sent, replies, cuts),
{
    let k = cuts.handshake;
    let l = cuts.transfer;
    lemma_asks_now(job, sent, replies);
    lemma_transferred_persists(job, sent, replies, k, l);
    assert(host::writes(Siwx917Plugin::first_turn(job, sent), replies) =~= handshake_writes(replies, k)
        + transfer_writes(sent, replies, k, l));
}

/// A job in its confirmation has written no more than it had before.
proof fn lemma_confirmation_writes_nothing(
    job: &FlashJob,
    sent: Seq<char>,
    replies: Replies,
    turn: TurnView<ConfirmUpgradeView, Finished>,
)
    requires
        replies.len() > 0,
        host::run(Siwx917Plugin::first_turn(job, sent), replies.drop_last()) is Ask,
        host::run(Siwx917Plugin::first_turn(job, sent), replies) == RunFlashView::verifying(turn),
        host::turn_write(turn).len() == 0,
    ensures
        host::writes(Siwx917Plugin::first_turn(job, sent), replies) == host::writes(
            Siwx917Plugin::first_turn(job, sent),
            replies.drop_last(),
        ),
{
    let first = Siwx917Plugin::first_turn(job, sent);
    assert(host::turn_write(host::run(first, replies)) =~= host::turn_write(turn));
    assert(host::writes(first, replies) =~= host::writes(first, replies.drop_last()));
}

/// The last turn of a conversation that writes nothing writes nothing.
proof fn lemma_silent_turn(at: Moment, replies: Replies)
    ensures
        host::turn_write(host::run(ConfirmUpgradeView::opened(at), replies)).len() == 0,
{
    let first = ConfirmUpgradeView::opened(at);
    report::law_stale_bytes_do_not_count(at, replies);
    if replies.len() > 0 && !(host::run(first, replies.drop_last()) is Ask) {
        assert(host::run(first, replies) == host::run(first, replies.drop_last()));
    }
}

proof fn lemma_confirmation_goes_on(
    job: &FlashJob,
    sent: Seq<char>,
    replies: Replies,
    cuts: Cuts,
    m: RunFlashView,
    request: RequestView,
) -> (after: Cuts)
    requires
        was_at(job, sent, replies, cuts, m, request),
        m is StartingVerify || m is Verifying,
    ensures
        stands(job, sent, replies, after),
{
    let n = replies.len() as int;
    let k = cuts.handshake;
    let l = cuts.transfer;
    lemma_transferred_persists(job, sent, replies, k, l);
    lemma_asks_persists(job, sent, replies, l + 1, plugin::phase_request(FlashPhase::Verify));
    let first = confirmation_turn(replies, l);
    let turn = host::run(first, replies.subrange(l + 2, n));
    if m is StartingVerify {
        lemma_part_begins(first, replies);
    } else {
        lemma_part_goes_on(first, replies, l + 2);
    }
    lemma_silent_turn(replies[l + 1].1, replies.subrange(l + 2, n));
    lemma_confirmation_writes_nothing(job, sent, replies, turn);
    let after = Cuts { confirmation: n, ..cuts };
    lemma_confirmation_stands(job, sent, replies, after, turn);
    after
}

proof fn lemma_session(job: &FlashJob, sent: Seq<char>, replies: Replies) -> (cuts: Cuts)
    ensures
        stands(job, sent, replies, cuts),
    decreases replies.len(),
{
    let first = Siwx917Plugin::first_turn(job, sent);
    if replies.len() == 0 {
        Cuts { handshake: 0, transfer: 0, confirmation: 0 }
    } else {
        let before = replies.drop_last();
        let cuts = lemma_session(job, sent, before);
        match host::run(first, before) {
            TurnView::Ask(m, request) => {
                if m is Loading || m is Opening {
                    lemma_preparation_goes_on(job, sent, replies, cuts, m, request);
                    cuts
                } else if m is Starting {
                    lemma_handshake_begins(job, sent, replies, cuts, m, request)
                } else if m is Handshaking {
                    lemma_handshake_goes_on(job, sent, replies, cuts, m, request)
                } else if m is Shaken {
                    lemma_transfer_is_announced(job, sent, replies, cuts, m, request);
                    cuts
                } else if m is StartingWrite {
                    lemma_transfer_begins(job, sent, replies, cuts, m, request)
                } else if m is Writing {
                    lemma_transfer_goes_on(job, sent, replies, cuts, m, request)
                } else if m is Written {
                    lemma_confirmation_is_announced(job, sent, replies, cuts, m, request);
                    cuts
                } else {
                    lemma_confirmation_goes_on(job, sent, replies, cuts, m, request)
                }
            },
            TurnView::Done(_) => {
                let l = cuts.transfer;
                lemma_transferred_persists(job, sent, replies, cuts.handshake, l);
                lemma_one_more_reply(replies, l + 2, cuts.confirmation);
                lemma_asks_persists(
                    job,
                    sent,
                    replies,
                    l + 1,
                    plugin::phase_request(FlashPhase::Verify),
                );
                cuts
            },
            TurnView::Failed(_) => cuts,
        }
    }
}

/// Whether a request is about the port.
pub open spec fn about_port(request: RequestView) -> bool {
    request is OpenPort || request is Read || request is Write
}

/// A job of any other mode than burning fails at once, and asks for nothing.
pub proof fn law_only_burning_is_done(job: &FlashJob, sent: Seq<char>, replies: Replies)
    requires
        job.mode != FlashMode::Flash,
    ensures
        host::run(Siwx917Plugin::first_turn(job, sent), replies) is Failed,
        host::run(Siwx917Plugin::first_turn(job, sent), replies)->Failed_0 is Plugin,
        host::writes(Siwx917Plugin::first_turn(job, sent), replies).len() == 0,
    decreases replies.len(),
{
    if replies.len() > 0 {
        law_only_burning_is_done(job, sent, replies.drop_last());
    }
}

/// A job depends on its mode, its port and its paths alone: not on the chip, the baud rate or the
/// addresses of its segments.
pub proof fn law_only_mode_port_and_paths_matter(a: &FlashJob, b: &FlashJob, sent: Seq<char>)
    requires
        a.mode == b.mode,
        a.port@ == b.port@,
        job::segment_paths(a) == job::segment_paths(b),
        job::single_path(a) == job::single_path(b),
    ensures
        Siwx917Plugin::first_turn(a, sent) == Siwx917Plugin::first_turn(b, sent),
{
    job::law_only_paths_choose_the_image(a, b);
}

/// The port is not touched before the file of the job has been read and found to be an image.
pub proof fn law_port_is_touched_only_for_a_good_image(job: &FlashJob, sent: Seq<char>, replies: Replies)
    ensures
        host::run(Siwx917Plugin::first_turn(job, sent), replies) matches TurnView::Ask(_, request)
            ==> about_port(request) ==> {
            &&& replies.len() >= 1
            &&& replies[0].0 is Bytes
            &&& image::is_rps(read_file(replies))
        },
{
    lemma_session(job, sent, replies);
}

proof fn lemma_handshake_opens_no_port(kind: ImageKind, at: Moment, replies: Replies)
    ensures
        host::run(EnterIspMenuView::opened(kind, at), replies) matches TurnView::Ask(_, request)
            ==> request !is OpenPort,
    decreases replies.len(),
{
    if replies.len() > 0 {
        lemma_handshake_opens_no_port(kind, at, replies.drop_last());
    }
}

proof fn lemma_transfer_opens_no_port(name: Seq<u8>, data: Seq<u8>, at: Moment, replies: Replies)
    ensures
        host::run(delivery::file_turn(name, data, at), replies) matches TurnView::Ask(_, request)
            ==> request !is OpenPort,
    decreases replies.len(),
{
    if replies.len() > 0 {
        lemma_transfer_opens_no_port(name, data, at, replies.drop_last());
    }
}

proof fn lemma_confirmation_opens_no_port(at: Moment, replies: Replies)
    ensures
        host::run(ConfirmUpgradeView::opened(at), replies) matches TurnView::Ask(_, request)
            ==> request !is OpenPort,
    decreases replies.len(),
{
    if replies.len() > 0 {
        lemma_confirmation_opens_no_port(at, replies.drop_last());
    }
}

/// The port that a job names is opened once, after the file has been read, at the fixed rate: the
/// baud rate of the job does not matter.
pub proof fn law_port_is_opened_once_at_the_fixed_rate(job: &FlashJob, sent: Seq<char>, replies: Replies)
    ensures
        host::run(Siwx917Plugin::first_turn(job, sent), replies) matches TurnView::Ask(_, request)
            ==> request is OpenPort ==> {
            &&& replies.len() == 1
            &&& request == RequestView::OpenPort(job.port@, 115_200, PORT_TIMEOUT)
        },
{
    let cuts = lemma_session(job, sent, replies);
    let n = replies.len() as int;
    match host::run(Siwx917Plugin::first_turn(job, sent), replies) {
        TurnView::Ask(RunFlashView::Handshaking { .. }, _) => {
            lemma_handshake_opens_no_port(
                image::core_of(read_file(replies)),
                replies[2].1,
                replies.subrange(3, n),
            );
        },
        TurnView::Ask(RunFlashView::Writing { .. }, _) => {
            lemma_transfer_opens_no_port(
                encode_utf8(sent),
                read_file(replies),
                replies[cuts.handshake + 1].1,
                replies.subrange(cuts.handshake + 2, n),
            );
        },
        TurnView::Ask(RunFlashView::Verifying { .. }, _) => {
            lemma_confirmation_opens_no_port(
                replies[cuts.transfer + 1].1,
                replies.subrange(cuts.transfer + 2, n),
            );
        },
        _ => {},
    }
}

/// A job that ends well has taken the replies apart into those of a handshake, a transfer and a
/// confirmation that ended well, and reported each as it began and, but for the last, as it ended.
/// What it wrote is what reached the menu and chose the burn entry and the slot of the image's
/// core, and then all packets of the file, in order, from which the receiver has the file.
pub proof fn law_finished_job_burned_its_image(job: &FlashJob, sent: Seq<char>, replies: Replies)
    requires
        host::run(Siwx917Plugin::first_turn(job, sent), replies) is Done,
    ensures
        exists|k: int, l: int, m: int, g: Seq<int>|
            {
                &&& #[trigger] confirmed(job, sent, replies, k, l, m)
                &&& host::writes(Siwx917Plugin::first_turn(job, sent), replies) == handshake_writes(
                    replies,
                    k,
                ) + transfer_writes(sent, replies, k, l)
                &&& menu::written(
                    handshake_writes(replies, k),
                    image::core_of(read_file(replies)),
                    menu::Choices::EntryAndSlot,
                )
                &&& #[trigger] delivery::sent_in_order(
                    transfer_writes(sent, replies, k, l),
                    delivery::frames(encode_utf8(sent), read_file(replies)),
                    g,
                )
                &&& g.len() > 0
                &&& g.last() == delivery::frames(encode_utf8(sent), read_file(replies)).len() - 1
                &&& delivery::stored_file(delivery::fresh(transfer_writes(sent, replies, k, l)))
                    == read_file(replies)
            },
{
    let cuts = lemma_session(job, sent, replies);
    let k = cuts.handshake;
    let l = cuts.transfer;
    menu::law_handshake_chooses_the_core_of_the_image(
        image::core_of(read_file(replies)),
        replies[2].1,
        replies.subrange(3, k),
    );
    delivery::law_transfer_writes_the_packets_in_order(
        encode_utf8(sent),
        read_file(replies),
        replies[k + 1].1,
        replies.subrange(k + 2, l),
    );
    delivery::law_finished_transfer_delivers_the_file(
        encode_utf8(sent),
        read_file(replies),
        replies[k + 1].1,
        replies.subrange(k + 2, l),
    );
    let w = transfer_writes(sent, replies, k, l);
    let f = delivery::frames(encode_utf8(sent), read_file(replies));
    let g = choose|g: Seq<int>| #[trigger]
        delivery::sent_in_order(w, f, g) && g.len() > 0 && g.last() == f.len() - 1;
    assert(confirmed(job, sent, replies, k, l, cuts.confirmation) && delivery::sent_in_order(w, f, g));
}

/// Whether a part ends well with the last of its replies, and not before.
pub open spec fn just_done<M: Machine>(first: TurnView<M, M::Output>, replies: Replies) -> bool {
    &&& host::run(first, replies) is Done
    &&& replies.len() > 0
    &&& host::run(first, replies.drop_last()) is Ask
}

proof fn lemma_handshake_is_part(
    name: Seq<char>,
    data: Seq<u8>,
    first: TurnView<EnterIspMenuView, Finished>,
    replies: Replies,
)
    requires
        replies.len() > 0 ==> host::run(first, replies.drop_last()) is Ask,
    ensures
        host::run(RunFlashView::handshaking(name, data, first), replies)
            == RunFlashView::handshaking(name, data, host::run(first, replies)),
    decreases replies.len(),
{
    if replies.len() > 0 {
        lemma_handshake_is_part(name, data, first, replies.drop_last());
    }
}

proof fn lemma_transfer_is_part(first: TurnView<SendFileView, Finished>, replies: Replies)
    requires
        replies.len() > 0 ==> host::run(first, replies.drop_last()) is Ask,
    ensures
        host::run(RunFlashView::writing(first), replies) == RunFlashView::writing(
            host::run(first, replies),
        ),
    decreases replies.len(),
{
    if replies.len() > 0 {
        lemma_transfer_is_part(first, replies.drop_last());
    }
}

proof fn lemma_confirmation_is_part(first: TurnView<ConfirmUpgradeView, Finished>, replies: Replies)
    requires
        replies.len() > 0 ==> host::run(first, replies.drop_last()) is Ask,
    ensures
        host::run(RunFlashView::verifying(first), replies) == RunFlashView::verifying(
            host::run(first, replies),
        ),
    decreases replies.len(),
{
    if replies.len() > 0 {
        lemma_confirmation_is_part(first, replies.drop_last());
    }
}

/// Where a conversation stands that has taken one more reply.
proof fn lemma_run_one(
    first: TurnView<RunFlashView, Finished>,
    reply: (ReplyView, Moment),
)
    ensures
        host::run(first, seq![reply]) == match first {
            TurnView::Ask(m, _) => m.next(reply.0, reply.1),
            ended => ended,
        },
{
    assert(seq![reply].drop_last() =~= Seq::<(ReplyView, Moment)>::empty());
    assert(host::run(first, seq![reply].drop_last()) == first);
}

/// A job ends well if its file is an image, its port opens, and its handshake, its transfer and
/// its confirmation end well.
pub proof fn law_job_ends_well_if_its_parts_do(
    job: &FlashJob,
    sent: Seq<char>,
    file: (ReplyView, Moment),
    port: (ReplyView, Moment),
    reported: Seq<(ReplyView, Moment)>,
    handshake: Replies,
    transfer: Replies,
    confirmation: Replies,
)
    requires
        job.mode == FlashMode::Flash,
        job::image_path(job) is Ok,
        file.0 is Bytes,
        image::is_rps(file.0->Bytes_0),
        port.0 is Bytes,
        reported.len() == 5,
        just_done(
            EnterIspMenuView::opened(image::core_of(file.0->Bytes_0), reported[0].1),
            handshake,
        ),
        just_done(
            delivery::file_turn(encode_utf8(sent), file.0->Bytes_0, reported[2].1),
            transfer,
        ),
        just_done(ConfirmUpgradeView::opened(reported[4].1), confirmation),
    ensures
        host::run(
            Siwx917Plugin::first_turn(job, sent),
            seq![file] + seq![port] + seq![reported[0]] + handshake + seq![reported[1]]
                + seq![reported[2]] + transfer + seq![reported[3]] + seq![reported[4]]
                + confirmation,
        ) == TurnView::<RunFlashView, Finished>::Done(Finished),
{
    let first = Siwx917Plugin::first_turn(job, sent);
    let d = file.0->Bytes_0;
    let r1 = seq![file];
    lemma_run_one(first, file);
    let r3 = r1 + seq![port];
    host::lemma_run_concat(first, r1, seq![port]);
    lemma_run_one(host::run(first, r1), port);
    let r4 = r3 + seq![reported[0]];
    host::lemma_run_concat(first, r3, seq![reported[0]]);
    lemma_run_one(host::run(first, r3), reported[0]);
    let h = EnterIspMenuView::opened(image::core_of(d), reported[0].1);
    assert(host::run(first, r4) == RunFlashView::handshaking(sent, d, h));
    let r5 = r4 + handshake;
    host::lemma_run_concat(first, r4, handshake);
    lemma_handshake_is_part(sent, d, h, handshake);
    let r6 = r5 + seq![reported[1]];
    host::lemma_run_concat(first, r5, seq![reported[1]]);
    lemma_run_one(host::run(first, r5), reported[1]);
    let r7 = r6 + seq![reported[2]];
    host::lemma_run_concat(first, r6, seq![reported[2]]);
    lemma_run_one(host::run(first, r6), reported[2]);
    let t = delivery::file_turn(encode_utf8(sent), d, reported[2].1);
    assert(host::run(first, r7) == RunFlashView::writing(t));
    let r8 = r7 + transfer;
    host::lemma_run_concat(first, r7, transfer);
    lemma_transfer_is_part(t, transfer);
    let r9 = r8 + seq![reported[3]];
    host::lemma_run_concat(first, r8, seq![reported[3]]);
    lemma_run_one(host::run(first, r8), reported[3]);
    let r10 = r9 + seq![reported[4]];
    host::lemma_run_concat(first, r9, seq![reported[4]]);
    lemma_run_one(host::run(first, r9), reported[4]);
    let c = ConfirmUpgradeView::opened(reported[4].1);
    assert(host::run(first, r10) == RunFlashView::verifying(c));
    host::lemma_run_concat(first, r10, confirmation);
    lemma_confirmation_is_part(c, confirmation);
}

} // verus!
