//! What a job tells its user, from its first event to its last.

use crate::delivery;
use crate::event::{FlashEventView, FlashMilestone, FlashPhase};
use crate::host;
use crate::host::{Finished, Machine, Moment, Replies, ReplyView, RequestView, TurnView};
use crate::image;
use crate::job::FlashJob;
use crate::menu;
use crate::plugin::{RunFlashView, Siwx917Plugin};
use crate::session;
use vstd::prelude::*;

verus! {

/// What a job for a file tells before the first byte of it is sent.
pub open spec fn preamble(data: Seq<u8>) -> Seq<FlashEventView> {
    seq![
        FlashEventView::Phase(FlashPhase::Handshake),
        FlashEventView::Warning(menu::prompt_message(image::core_of(data))),
        FlashEventView::Milestone(FlashMilestone::HandshakeComplete),
        FlashEventView::Phase(FlashPhase::Write),
    ]
}

/// What a job for a file tells if it ends well: that the handshake begins, what the user has to do,
/// that the handshake is complete, that the transfer begins, how much is sent with each chunk, that
/// the transfer is complete, that the confirmation begins, and what it came to.
pub open spec fn story(data: Seq<u8>, verdict: FlashEventView) -> Seq<FlashEventView> {
    preamble(data) + delivery::percentages(data, delivery::chunks_from(data, 0).len()) + seq![
        FlashEventView::Milestone(FlashMilestone::WriteComplete),
        FlashEventView::Phase(FlashPhase::Verify),
        verdict,
    ]
}

/// Whether an event is what a confirmation can come to.
pub open spec fn is_verdict_event(event: FlashEventView) -> bool {
    event == FlashEventView::Milestone(FlashMilestone::VerifyPassed) || event is Warning
}

/// Whether a job has nothing left to do but to have its last event shown.
pub open spec fn at_last_event(m: RunFlashView) -> bool {
    m matches RunFlashView::Verifying { confirmation } && confirmation.phase is Reporting
}

/// How many events of its story a job has told, if its transfer has part `k` under way.
pub open spec fn told(m: RunFlashView, data: Seq<u8>, k: int) -> int {
    let c = delivery::chunks_from(data, 0).len() as int;
    match m {
        RunFlashView::Loading { .. } => 0,
        RunFlashView::Opening { .. } => 0,
        RunFlashView::Starting { .. } => 1,
        RunFlashView::Handshaking { .. } => 2,
        RunFlashView::Shaken { .. } => 3,
        RunFlashView::StartingWrite { .. } => 4,
        RunFlashView::Writing { transfer } => 4int + delivery::chunks_before(
            data,
            k,
            transfer.exchange is None,
        ),
        RunFlashView::Written => 5 + c,
        RunFlashView::StartingVerify => 6 + c,
        RunFlashView::Verifying { confirmation } => if confirmation.phase is Reporting {
            7 + c
        } else {
            6 + c
        },
    }
}

/// Whether a job is about a file.
spec fn about(m: RunFlashView, data: Seq<u8>, k: int) -> bool {
    match m {
        RunFlashView::Opening { kind, data: d, .. } => d == data && kind == image::core_of(data),
        RunFlashView::Starting { kind, data: d, .. } => d == data && kind == image::core_of(data),
        RunFlashView::Handshaking { data: d, .. } => d == data,
        RunFlashView::Shaken { data: d, .. } => d == data,
        RunFlashView::StartingWrite { data: d, .. } => d == data,
        RunFlashView::Writing { transfer } => delivery::at_part(transfer, data, k),
        _ => true,
    }
}

/// How far a story has been told.
#[verifier::opaque]
spec fn tells(
    turn: TurnView<RunFlashView, Finished>,
    data: Seq<u8>,
    k: int,
    verdict: FlashEventView,
    r: Seq<FlashEventView>,
) -> bool {
    let whole = story(data, verdict);
    &&& is_verdict_event(verdict)
    &&& match turn {
        TurnView::Ask(m, _) => {
            &&& about(m, data, k)
            &&& told(m, data, k) <= whole.len()
            &&& r == whole.take(told(m, data, k))
        },
        TurnView::Done(_) => r == whole,
        TurnView::Failed(_) => r.len() < whole.len() && r == whole.take(r.len() as int),
    }
}

proof fn lemma_one_more_event(data: Seq<u8>, verdict: FlashEventView, n: int)
    requires
        0 <= n < story(data, verdict).len(),
    ensures
        story(data, verdict).take(n) + seq![story(data, verdict)[n]] == story(data, verdict).take(
            n + 1,
        ),
{
    let s = story(data, verdict);
    assert(s.take(n) + seq![s[n]] =~= s.take(n + 1));
}

proof fn lemma_no_more_events(r: Seq<FlashEventView>)
    ensures
        r + Seq::<FlashEventView>::empty() == r,
{
    assert(r + Seq::<FlashEventView>::empty() =~= r);
}

/// The story up to some of its percentages.
proof fn lemma_story_of_chunks(data: Seq<u8>, verdict: FlashEventView, n: nat)
    requires
        n <= delivery::chunks_from(data, 0).len(),
    ensures
        story(data, verdict).take(4int + n) == preamble(data) + delivery::percentages(data, n),
{
    assert(story(data, verdict).take(4int + n) =~= preamble(data) + delivery::percentages(data, n));
}

/// The verdict is the last event: what comes before it does not depend on it.
proof fn lemma_verdict_is_last(data: Seq<u8>, a: FlashEventView, b: FlashEventView, n: int)
    requires
        0 <= n < story(data, a).len(),
    ensures
        story(data, a).take(n) == story(data, b).take(n),
        story(data, a).len() == 7 + delivery::chunks_from(data, 0).len(),
        story(data, b).len() == 7 + delivery::chunks_from(data, 0).len(),
{
    assert(story(data, a).take(n) =~= story(data, b).take(n));
}

proof fn lemma_told_before_writing(
    m: RunFlashView,
    data: Seq<u8>,
    k: int,
    verdict: FlashEventView,
    r: Seq<FlashEventView>,
    request: RequestView,
    reply: ReplyView,
    at: Moment,
)
    requires
        tells(TurnView::Ask(m, request), data, k, verdict, r),
        m is Loading || m is Opening || m is Starting || m is Handshaking || m is Shaken,
        m is Loading && reply is Bytes ==> reply->Bytes_0 == data,
    ensures
        tells(m.next(reply, at), data, k, verdict, r + host::turn_report(m.next(reply, at))),
{
    reveal(tells);
    let s = story(data, verdict);
    assert(s[0] == preamble(data)[0]);
    assert(s[1] == preamble(data)[1]);
    assert(s[2] == preamble(data)[2]);
    assert(s[3] == preamble(data)[3]);
    lemma_one_more_event(data, verdict, told(m, data, k));
    lemma_no_more_events(r);
}

proof fn lemma_told_while_writing(
    m: RunFlashView,
    data: Seq<u8>,
    k: int,
    verdict: FlashEventView,
    r: Seq<FlashEventView>,
    request: RequestView,
    reply: ReplyView,
    at: Moment,
) -> (next: int)
    requires
        tells(TurnView::Ask(m, request), data, k, verdict, r),
        m is Writing,
    ensures
        tells(m.next(reply, at), data, next, verdict, r + host::turn_report(m.next(reply, at))),
{
    reveal(tells);
    let s = story(data, verdict);
    let c = delivery::chunks_from(data, 0).len() as int;
    let t = m->transfer;
    let turn = t.next(reply, at);
    let n = delivery::chunks_before(data, k, t.exchange is None);
    let more = if t.part is Chunk && delivery::acknowledges(t, reply, at) {
        1nat
    } else {
        0
    };
    let next = delivery::lemma_report_of_part(t, data, k, reply, at);
    lemma_story_of_chunks(data, verdict, n);
    lemma_story_of_chunks(data, verdict, n + more);
    let report = host::turn_report(turn);
    assert(r + report =~= preamble(data) + (delivery::percentages(data, n) + report));
    assert(r + report == s.take(4int + n + more));
    match turn {
        TurnView::Ask(_, _) => {
            assert(host::turn_report(m.next(reply, at)) =~= report);
        },
        TurnView::Done(_) => {
            lemma_no_more_events(r);
            assert(s[4 + c] == FlashEventView::Milestone(FlashMilestone::WriteComplete));
            lemma_one_more_event(data, verdict, 4 + c);
        },
        TurnView::Failed(_) => {
            lemma_no_more_events(r);
        },
    }
    next
}

proof fn lemma_told_between(
    m: RunFlashView,
    data: Seq<u8>,
    k: int,
    verdict: FlashEventView,
    r: Seq<FlashEventView>,
    request: RequestView,
    reply: ReplyView,
    at: Moment,
)
    requires
        tells(TurnView::Ask(m, request), data, k, verdict, r),
        m is StartingWrite || m is Written,
    ensures
        tells(m.next(reply, at), data, 0, verdict, r + host::turn_report(m.next(reply, at))),
{
    reveal(tells);
    let s = story(data, verdict);
    let c = delivery::chunks_from(data, 0).len() as int;
    lemma_no_more_events(r);
    if m is StartingWrite {
        assert(delivery::plan(data)[0] is Init);
    } else {
        assert(s[5 + c] == FlashEventView::Phase(FlashPhase::Verify));
        lemma_one_more_event(data, verdict, 5 + c);
    }
}

proof fn lemma_told_while_verifying(
    m: RunFlashView,
    data: Seq<u8>,
    k: int,
    verdict: FlashEventView,
    r: Seq<FlashEventView>,
    request: RequestView,
    reply: ReplyView,
    at: Moment,
) -> (said: FlashEventView)
    requires
        tells(TurnView::Ask(m, request), data, k, verdict, r),
        m is StartingVerify || m is Verifying,
    ensures
        tells(m.next(reply, at), data, k, said, r + host::turn_report(m.next(reply, at))),
{
    reveal(tells);
    let c = delivery::chunks_from(data, 0).len() as int;
    let turn = m.next(reply, at);
    lemma_no_more_events(r);
    match turn {
        TurnView::Ask(_, RequestView::Report(event)) => {
            lemma_verdict_is_last(data, verdict, event, 6 + c);
            assert(story(data, event)[6 + c] == event);
            lemma_one_more_event(data, event, 6 + c);
            event
        },
        _ => {
            let s = story(data, verdict);
            assert(s.take(s.len() as int) =~= s);
            verdict
        },
    }
}

proof fn lemma_told_goes_on(
    m: RunFlashView,
    data: Seq<u8>,
    k: int,
    verdict: FlashEventView,
    r: Seq<FlashEventView>,
    request: RequestView,
    reply: ReplyView,
    at: Moment,
) -> (place: (int, FlashEventView))
    requires
        tells(TurnView::Ask(m, request), data, k, verdict, r),
        m is Loading && reply is Bytes ==> reply->Bytes_0 == data,
    ensures
        tells(
            m.next(reply, at),
            data,
            place.0,
            place.1,
            r + host::turn_report(m.next(reply, at)),
        ),
{
    if m is Loading || m is Opening || m is Starting || m is Handshaking || m is Shaken {
        lemma_told_before_writing(m, data, k, verdict, r, request, reply, at);
        (k, verdict)
    } else if m is Writing {
        (lemma_told_while_writing(m, data, k, verdict, r, request, reply, at), verdict)
    } else if m is StartingWrite || m is Written {
        lemma_told_between(m, data, k, verdict, r, request, reply, at);
        (0, verdict)
    } else {
        (k, lemma_told_while_verifying(m, data, k, verdict, r, request, reply, at))
    }
}

/// A story that has not begun can be that of any file.
proof fn lemma_nothing_told(
    turn: TurnView<RunFlashView, Finished>,
    a: Seq<u8>,
    b: Seq<u8>,
    k: int,
    verdict: FlashEventView,
    r: Seq<FlashEventView>,
)
    requires
        tells(turn, a, k, verdict, r),
        turn matches TurnView::Ask(m, _) ==> m is Loading,
        turn !is Done,
        turn is Failed ==> r.len() == 0,
    ensures
        tells(turn, b, k, verdict, r),
{
    reveal(tells);
    assert(r =~= story(b, verdict).take(0));
}

/// A job that has gone on does not read its file again.
proof fn lemma_never_loads_again(m: RunFlashView, reply: ReplyView, at: Moment)
    ensures
        m.next(reply, at) matches TurnView::Ask(n, _) ==> n !is Loading,
{
}

proof fn lemma_loads_first(job: &FlashJob, sent: Seq<char>, replies: Replies)
    requires
        replies.len() > 0,
    ensures
        host::run(Siwx917Plugin::first_turn(job, sent), replies) matches TurnView::Ask(m, _)
            ==> m !is Loading,
{
    match host::run(Siwx917Plugin::first_turn(job, sent), replies.drop_last()) {
        TurnView::Ask(m, _) => {
            lemma_never_loads_again(m, replies.last().0, replies.last().1);
        },
        _ => {},
    }
}

proof fn lemma_story(job: &FlashJob, sent: Seq<char>, replies: Replies) -> (place: (
    int,
    FlashEventView,
))
    ensures
        tells(
            host::run(Siwx917Plugin::first_turn(job, sent), replies),
            session::read_file(replies),
            place.0,
            place.1,
            host::reports(Siwx917Plugin::first_turn(job, sent), replies),
        ),
    decreases replies.len(),
{
    let first = Siwx917Plugin::first_turn(job, sent);
    let data = session::read_file(replies);
    if replies.len() == 0 {
        let passed = FlashEventView::Milestone(FlashMilestone::VerifyPassed);
        assert(tells(host::run(first, replies), data, 0, passed, host::reports(first, replies)))
            by {
            reveal(tells);
            assert(host::reports(first, replies) =~= story(data, passed).take(0));
        }
        (0, passed)
    } else {
        let prev = replies.drop_last();
        let (k, verdict) = lemma_story(job, sent, prev);
        let r = host::reports(first, prev);
        let turn = host::run(first, prev);
        if prev.len() == 0 {
            lemma_nothing_told(turn, session::read_file(prev), data, k, verdict, r);
        } else {
            lemma_loads_first(job, sent, prev);
            assert(replies[0] == prev[0]);
        }
        match turn {
            TurnView::Ask(m, request) => lemma_told_goes_on(
                m,
                data,
                k,
                verdict,
                r,
                request,
                replies.last().0,
                replies.last().1,
            ),
            _ => (k, verdict),
        }
    }
}

/// What a job tells its user is the beginning of the story of its file, event by event and nothing
/// else. It is the whole story exactly when the job has ended well, or waits only for the last
/// event to be shown.
pub proof fn law_job_tells_its_story(job: &FlashJob, sent: Seq<char>, replies: Replies)
    ensures
        exists|verdict: FlashEventView| #[trigger]
            is_verdict_event(verdict) && {
                let first = Siwx917Plugin::first_turn(job, sent);
                let r = host::reports(first, replies);
                let whole = story(session::read_file(replies), verdict);
                &&& r.is_prefix_of(whole)
                &&& r == whole <==> match host::run(first, replies) {
                    TurnView::Ask(m, _) => at_last_event(m),
                    TurnView::Done(_) => true,
                    TurnView::Failed(_) => false,
                }
            },
{
    let first = Siwx917Plugin::first_turn(job, sent);
    let data = session::read_file(replies);
    let (k, verdict) = lemma_story(job, sent, replies);
    reveal(tells);
    let r = host::reports(first, replies);
    let whole = story(data, verdict);
    assert(whole.len() == 7 + delivery::chunks_from(data, 0).len());
    assert(whole.take(whole.len() as int) =~= whole);
    match host::run(first, replies) {
        TurnView::Ask(RunFlashView::Writing { transfer }, _) => {
            assert(told(RunFlashView::Writing { transfer }, data, k) < whole.len());
        },
        _ => {},
    }
    assert(r =~= whole.subrange(0, r.len() as int));
    assert(is_verdict_event(verdict));
}

} // verus!
