//! The ROM's own verdict on a burn, which it prints once the file has been sent.

use crate::error::{FlashError, FlashErrorView};
use crate::event::{FlashEvent, FlashEventView, FlashMilestone};
use crate::host;
use crate::host::{
    Finished, Machine, Moment, Replies, Reply, ReplyView, Request, RequestView, Turn, TurnView,
    MILLISECOND, SECOND,
};
use crate::listen;
use crate::listen::{drain, read_until, ReadUntil, ReadUntilView};
use crate::recognise;
use crate::recognise::{classify_report, Accept};
use crate::text;
use crate::text::trim;
use vstd::prelude::*;
use vstd::string::*;
use vstd::utf8::*;

verus! {

/// How long to drop what is buffered before the report: the end-of-packet character of the last
/// acknowledgement is still unread, and must not count as the beginning of the report.
pub const DRAIN_TIME: u64 = 100 * MILLISECOND;

/// How long to wait for the report in all.
pub const REPORT_TIME: u64 = 60 * SECOND;

/// How long the ROM may be quiet within its report. It works on its flash memory between the
/// lines.
pub const REPORT_IDLE: u64 = 5 * SECOND;

/// What `String::from_utf8_lossy` makes of a byte string.
pub uninterp spec fn utf8_lossy(bytes: Seq<u8>) -> Seq<char>;

/// `String::from_utf8_lossy` decodes a byte string, with a replacement character for what is no
/// UTF-8. What it returns is named, not spelled out; what is UTF-8 it decodes as it stands.
#[verifier::external_body]
fn lossy_text(bytes: &[u8]) -> (out: String)
    ensures
        out@ == utf8_lossy(bytes@),
        valid_utf8(bytes@) ==> out@ == decode_utf8(bytes@),
{
    String::from_utf8_lossy(bytes).into_owned()
}

/// What the `Debug` format makes of a text.
pub uninterp spec fn debug_format(s: Seq<char>) -> Seq<char>;

/// The `Debug` format of `str` puts a text in quotation marks and escapes what would not show.
/// What it returns is named, not spelled out.
#[verifier::external_body]
fn debug_text(s: &str) -> (out: String)
    ensures
        out@ == debug_format(s@),
{
    format!("{:?}", s)
}

pub open spec fn failed_upgrade_message(report: Seq<char>) -> Seq<char> {
    "SIWX917: device reported a failed upgrade: "@ + report
}

pub open spec fn unrecognised_message(shown: Seq<char>) -> Seq<char> {
    "Image sent and acknowledged, but the device's completion report was not recognised — verify the board boots. Report: "@
        + shown
}

/// What a verdict comes to, given the report as text and as it is shown: a milestone, an error,
/// or, if there is no verdict, a warning. A burn that may well have worked is not failed for want
/// of a known wording.
pub open spec fn outcome(said: Option<bool>, report: Seq<char>, shown: Seq<char>) -> Result<
    FlashEventView,
    FlashErrorView,
> {
    match said {
        Some(true) => Ok(FlashEventView::Milestone(FlashMilestone::VerifyPassed)),
        Some(false) => Err(FlashErrorView::Plugin(failed_upgrade_message(report))),
        None => Ok(FlashEventView::Warning(unrecognised_message(shown))),
    }
}

/// Tells what a verdict comes to.
pub fn verdict_outcome(said: Option<bool>, report: &str, shown: &str) -> (res: Result<
    FlashEvent,
    FlashError,
>)
    ensures
        res matches Ok(event) ==> outcome(said, report@, shown@) == Ok::<_, FlashErrorView>(event@),
        res matches Err(e) ==> outcome(said, report@, shown@) == Err::<FlashEventView, _>(e@),
{
    match said {
        Some(true) => Ok(FlashEvent::Milestone { milestone: FlashMilestone::VerifyPassed }),
        Some(false) => {
            let mut m: String = "SIWX917: device reported a failed upgrade: ".to_string();
            m.append(report);
            Err(FlashError::Plugin(m))
        },
        None => {
            let mut message: String =
                "Image sent and acknowledged, but the device's completion report was not recognised — verify the board boots. Report: ".to_string();
            message.append(shown);
            Ok(FlashEvent::Warning { message })
        },
    }
}

/// A report as text, without the white space around it.
pub open spec fn report_text(report: Seq<u8>) -> Seq<char> {
    text::trimmed(utf8_lossy(report))
}

/// What a report comes to.
pub open spec fn report_outcome(report: Seq<u8>) -> Result<FlashEventView, FlashErrorView> {
    outcome(
        recognise::verdict(report),
        report_text(report),
        debug_format(report_text(report)),
    )
}

/// Tells what a report comes to.
pub fn judge_report(report: &[u8]) -> (res: Result<FlashEvent, FlashError>)
    ensures
        res is Ok <==> recognise::verdict(report@) != Some(false),
        res matches Ok(event) ==> report_outcome(report@) == Ok::<_, FlashErrorView>(event@),
        res matches Err(e) ==> report_outcome(report@) == Err::<FlashEventView, _>(e@),
        valid_utf8(report@) ==> report_text(report@) == text::trimmed(decode_utf8(report@)) && (
        res matches Err(e) ==> e@ == FlashErrorView::Plugin(
            failed_upgrade_message(text::trimmed(decode_utf8(report@))),
        )),
{
    let whole: String = lossy_text(report);
    let inner: &str = trim(whole.as_str());
    let shown: String = debug_text(inner);
    verdict_outcome(classify_report(report), inner, shown.as_str())
}

/// Where a confirmation stands; `W` is how a wait for text is represented.
pub enum ConfirmPhase<W> {
    Draining(W),
    Reading(W),
    Reporting,
}

/// A confirmation under way.
pub struct ConfirmUpgrade {
    phase: ConfirmPhase<ReadUntil>,
}

/// A [`ConfirmUpgrade`] over sequences.
pub struct ConfirmUpgradeView {
    pub phase: ConfirmPhase<ReadUntilView>,
}

impl View for ConfirmUpgrade {
    type V = ConfirmUpgradeView;

    closed spec fn view(&self) -> ConfirmUpgradeView {
        ConfirmUpgradeView {
            phase: match self.phase {
                ConfirmPhase::Draining(w) => ConfirmPhase::Draining(w@),
                ConfirmPhase::Reading(w) => ConfirmPhase::Reading(w@),
                ConfirmPhase::Reporting => ConfirmPhase::Reporting,
            },
        }
    }
}

impl ConfirmUpgradeView {
    /// Goes on as the wait for the report does, and judges the report once it is there.
    pub open spec fn reading(turn: TurnView<ReadUntilView, Seq<u8>>) -> TurnView<Self, Finished> {
        match turn {
            TurnView::Ask(w, request) => TurnView::Ask(
                ConfirmUpgradeView { phase: ConfirmPhase::Reading(w) },
                request,
            ),
            TurnView::Done(report) => match report_outcome(report) {
                Ok(event) => TurnView::Ask(
                    ConfirmUpgradeView { phase: ConfirmPhase::Reporting },
                    RequestView::Report(event),
                ),
                Err(e) => TurnView::Failed(e),
            },
            TurnView::Failed(e) => TurnView::Failed(e),
        }
    }

    /// Goes on as the dropping of stale bytes does, and begins to wait for the report after it.
    pub open spec fn draining(turn: TurnView<ReadUntilView, Seq<u8>>, at: Moment) -> TurnView<
        Self,
        Finished,
    > {
        match turn {
            TurnView::Ask(w, request) => TurnView::Ask(
                ConfirmUpgradeView { phase: ConfirmPhase::Draining(w) },
                request,
            ),
            TurnView::Done(_) => Self::reading(
                listen::wait_turn(REPORT_TIME, REPORT_IDLE, Accept::Verdict, at.now),
            ),
            TurnView::Failed(e) => TurnView::Failed(e),
        }
    }

    pub open spec fn opened(at: Moment) -> TurnView<Self, Finished> {
        Self::draining(listen::wait_turn(DRAIN_TIME, DRAIN_TIME, Accept::Never, at.now), at)
    }
}

impl Machine for ConfirmUpgradeView {
    type Output = Finished;

    open spec fn next(self, reply: ReplyView, at: Moment) -> TurnView<Self, Finished> {
        match self.phase {
            ConfirmPhase::Draining(w) => Self::draining(w.next(reply, at), at),
            ConfirmPhase::Reading(w) => Self::reading(w.next(reply, at)),
            ConfirmPhase::Reporting => TurnView::Done(Finished),
        }
    }
}

impl ConfirmUpgrade {
    fn reading(turn: Turn<ReadUntil, Vec<u8>>) -> (res: Turn<ConfirmUpgrade, Finished>)
        ensures
            res@ == ConfirmUpgradeView::reading(turn@),
    {
        match turn {
            Turn::Ask(w, request) => Turn::Ask(
                ConfirmUpgrade { phase: ConfirmPhase::Reading(w) },
                request,
            ),
            Turn::Done(report) => match judge_report(&report) {
                Ok(event) => Turn::Ask(
                    ConfirmUpgrade { phase: ConfirmPhase::Reporting },
                    Request::Report { event },
                ),
                Err(e) => Turn::Failed(e),
            },
            Turn::Failed(e) => Turn::Failed(e),
        }
    }

    fn draining(turn: Turn<ReadUntil, Vec<u8>>, at: Moment) -> (res: Turn<ConfirmUpgrade, Finished>)
        ensures
            res@ == ConfirmUpgradeView::draining(turn@, at),
    {
        match turn {
            Turn::Ask(w, request) => Turn::Ask(
                ConfirmUpgrade { phase: ConfirmPhase::Draining(w) },
                request,
            ),
            Turn::Done(_) => Self::reading(
                read_until(REPORT_TIME, REPORT_IDLE, Accept::Verdict, at.now),
            ),
            Turn::Failed(e) => Turn::Failed(e),
        }
    }

    /// Goes on with the confirmation once the host has replied.
    pub fn step(self, reply: Reply, at: Moment) -> (turn: Turn<ConfirmUpgrade, Finished>)
        ensures
            turn@ == self@.next(reply@, at),
    {
        match self.phase {
            ConfirmPhase::Draining(w) => Self::draining(w.step(reply, at), at),
            ConfirmPhase::Reading(w) => Self::reading(w.step(reply, at)),
            ConfirmPhase::Reporting => Turn::Done(Finished),
        }
    }
}

/// Reads the ROM's verdict on the burn and reports what it comes to.
pub fn confirm_upgrade(at: Moment) -> (turn: Turn<ConfirmUpgrade, Finished>)
    ensures
        turn@ == ConfirmUpgradeView::opened(at),
{
    ConfirmUpgrade::draining(drain(DRAIN_TIME, at.now), at)
}

/// Whether the wait for a report ends with a reply, and with which report.
pub open spec fn report_of(
    turn: TurnView<ConfirmUpgradeView, Finished>,
    reply: ReplyView,
    at: Moment,
) -> Option<Seq<u8>> {
    match turn {
        TurnView::Ask(m, _) => match m.phase {
            ConfirmPhase::Reading(w) => match w.next(reply, at) {
                TurnView::Done(report) => Some(report),
                _ => None,
            },
            _ => None,
        },
        _ => None,
    }
}

/// How a confirmation ends: with an error exactly when the report states a failure, and otherwise
/// well, after having reported the milestone exactly when the report states success, and a warning
/// when it states neither.
pub proof fn law_confirmation_heeds_the_report(
    turn: TurnView<ConfirmUpgradeView, Finished>,
    reply: ReplyView,
    at: Moment,
    done: ReplyView,
    done_at: Moment,
)
    requires
        turn is Ask,
        report_of(turn, reply, at) is Some,
    ensures
        ({
            let report = report_of(turn, reply, at)->0;
            let then = turn->Ask_0.next(reply, at);
            match recognise::verdict(report) {
                Some(true) => {
                    &&& then is Ask
                    &&& then->Ask_1 == RequestView::Report(
                        FlashEventView::Milestone(FlashMilestone::VerifyPassed),
                    )
                    &&& then->Ask_0.next(done, done_at) == TurnView::<
                        ConfirmUpgradeView,
                        Finished,
                    >::Done(Finished)
                },
                Some(false) => then == TurnView::<ConfirmUpgradeView, Finished>::Failed(
                    FlashErrorView::Plugin(failed_upgrade_message(report_text(report))),
                ),
                None => {
                    &&& then is Ask
                    &&& then->Ask_1 is Report
                    &&& then->Ask_1->Report_0 is Warning
                    &&& then->Ask_0.next(done, done_at) == TurnView::<
                        ConfirmUpgradeView,
                        Finished,
                    >::Done(Finished)
                },
            }
        }),
{
}

/// How the wait for the report stands once it has begun: with its full time ahead of it and with
/// nothing heard, so that what was dropped before it does not shorten it.
pub open spec fn fresh_wait(w: ReadUntilView) -> bool {
    &&& w.overall == REPORT_TIME
    &&& w.idle == REPORT_IDLE
    &&& w.accept == Accept::Verdict
    &&& w.buf.len() == 0
    &&& w.last_data is None
}

/// A confirmation never writes to the port, and whatever is dropped before the report does not
/// count as part of it.
pub proof fn law_stale_bytes_do_not_count(at: Moment, replies: Replies)
    ensures
        host::writes(ConfirmUpgradeView::opened(at), replies).len() == 0,
        replies.len() > 0 ==> match (
            host::run(ConfirmUpgradeView::opened(at), replies.drop_last()),
            host::run(ConfirmUpgradeView::opened(at), replies),
        ) {
            (TurnView::Ask(m, _), TurnView::Ask(n, _)) => m.phase is Draining && n.phase is Reading
                ==> fresh_wait(n.phase->Reading_0) && n.phase->Reading_0.start
                == replies.last().1.now,
            _ => true,
        },
    decreases replies.len(),
{
    if replies.len() > 0 {
        law_stale_bytes_do_not_count(at, replies.drop_last());
    }
}

/// Whether a turn of a confirmation begins to wait: for how long in all, how long the board may be
/// quiet, and what ends it early.
pub open spec fn awaits(
    turn: TurnView<ConfirmUpgradeView, Finished>,
    phase: ConfirmPhase<ReadUntilView>,
) -> bool {
    &&& turn is Ask
    &&& turn->Ask_1 == RequestView::Read(256)
    &&& turn->Ask_0.phase == phase
}

/// How a confirmation begins: it drops what comes in within a tenth of a second.
pub proof fn law_how_a_confirmation_begins(at: Moment)
    ensures
        awaits(
            ConfirmUpgradeView::opened(at),
            ConfirmPhase::Draining(
                ReadUntilView {
                    start: at.now,
                    overall: 100_000_000,
                    idle: 100_000_000,
                    accept: Accept::Never,
                    buf: Seq::empty(),
                    last_data: None,
                    pausing: false,
                },
            ),
        ),
{
}

/// How a confirmation goes on. Whatever was dropped, it then waits for the report: for up to a
/// minute, while the board is not quiet for five seconds, until there is a verdict. Of the report it
/// makes a milestone, an error with the text of the report, or a warning with the text as it is
/// shown, and after the milestone or the warning it has ended well.
pub proof fn law_how_a_confirmation_goes_on(m: ConfirmUpgradeView, reply: ReplyView, at: Moment)
    ensures
        ({
            let turn = m.next(reply, at);
            match m.phase {
                ConfirmPhase::Draining(w) => match w.next(reply, at) {
                    TurnView::Ask(v, request) => turn is Ask && turn->Ask_1 == request
                        && turn->Ask_0.phase == ConfirmPhase::Draining(v),
                    TurnView::Failed(e) => turn == TurnView::<
                        ConfirmUpgradeView,
                        Finished,
                    >::Failed(e),
                    TurnView::Done(_) => awaits(
                        turn,
                        ConfirmPhase::Reading(
                            ReadUntilView {
                                start: at.now,
                                overall: 60_000_000_000,
                                idle: 5_000_000_000,
                                accept: Accept::Verdict,
                                buf: Seq::empty(),
                                last_data: None,
                                pausing: false,
                            },
                        ),
                    ),
                },
                ConfirmPhase::Reading(w) => match w.next(reply, at) {
                    TurnView::Ask(v, request) => turn is Ask && turn->Ask_1 == request
                        && turn->Ask_0.phase == ConfirmPhase::Reading(v),
                    TurnView::Failed(e) => turn == TurnView::<
                        ConfirmUpgradeView,
                        Finished,
                    >::Failed(e),
                    TurnView::Done(report) => match recognise::verdict(report) {
                        Some(true) => {
                            &&& turn is Ask
                            &&& turn->Ask_1 == RequestView::Report(
                                FlashEventView::Milestone(FlashMilestone::VerifyPassed),
                            )
                            &&& turn->Ask_0.phase is Reporting
                        },
                        Some(false) => turn == TurnView::<ConfirmUpgradeView, Finished>::Failed(
                            FlashErrorView::Plugin(
                                "SIWX917: device reported a failed upgrade: "@ + text::trimmed(
                                    utf8_lossy(report),
                                ),
                            ),
                        ),
                        None => {
                            &&& turn is Ask
                            &&& turn->Ask_1 == RequestView::Report(
                                FlashEventView::Warning(
                                    "Image sent and acknowledged, but the device's completion report was not recognised — verify the board boots. Report: "@
                                        + debug_format(text::trimmed(utf8_lossy(report))),
                                ),
                            )
                            &&& turn->Ask_0.phase is Reporting
                        },
                    },
                },
                ConfirmPhase::Reporting => turn == TurnView::<ConfirmUpgradeView, Finished>::Done(
                    Finished,
                ),
            }
        }),
{
}

/// What a verdict comes to depends on the verdict alone, and the text of the report goes into the
/// error, the text as it is shown into the warning.
pub proof fn law_what_a_verdict_comes_to(report: Seq<char>, shown: Seq<char>)
    ensures
        outcome(Some(true), report, shown) == Ok::<_, FlashErrorView>(
            FlashEventView::Milestone(FlashMilestone::VerifyPassed),
        ),
        outcome(Some(false), report, shown) == Err::<FlashEventView, _>(
            FlashErrorView::Plugin("SIWX917: device reported a failed upgrade: "@ + report),
        ),
        outcome(None, report, shown) == Ok::<_, FlashErrorView>(
            FlashEventView::Warning(
                "Image sent and acknowledged, but the device's completion report was not recognised — verify the board boots. Report: "@
                    + shown,
            ),
        ),
{
}

/// What a report comes to is what its verdict does, with the report as text and as it is shown.
pub proof fn law_what_a_report_comes_to(report: Seq<u8>)
    ensures
        report_outcome(report) == outcome(
            recognise::verdict(report),
            text::trimmed(utf8_lossy(report)),
            debug_format(text::trimmed(utf8_lossy(report))),
        ),
{
}

} // verus!
