//! Reaching the bootloader and choosing what to burn.
//!
//! The board is put into its bootloader by hand, so the handshake is tried again and again. The
//! menu works only straight after a reset: nothing is chosen before the menu has been seen.

use crate::error::{FlashError, FlashErrorView};
use crate::event::{FlashEvent, FlashEventView};
use crate::host;
use crate::host::{
    Finished, Machine, Moment, Replies, Reply, ReplyView, Request, RequestView, Turn, TurnView,
    MILLISECOND, SECOND,
};
use crate::image::ImageKind;
use crate::listen;
use crate::listen::{read_until, ReadUntil, ReadUntilView};
use crate::recognise;
use crate::recognise::{looks_like_isp_menu, Accept};
use vstd::prelude::*;
use vstd::string::*;

verus! {

/// How often the handshake is tried.
pub const ISP_ENTER_ATTEMPTS: u32 = 20;

/// How long to wait between two tries.
pub const ISP_ENTER_RETRY_GAP: u64 = 2 * SECOND;

/// Wakes the bootloader: `Ctrl+|`.
pub const WAKE: u8 = 0x1c;

/// Has the bootloader print its menu: `U`.
pub const CALL: u8 = 0x55;

/// What is being listened for.
#[derive(Clone, Copy, Debug, PartialEq, Eq, Structural)]
pub enum Wait {
    /// Stale bytes from an earlier try.
    Stale,
    /// An answer to the wake-up, if there is one.
    Awake,
    /// The menu.
    Menu,
    /// The prompt for a slot.
    SlotPrompt,
    /// The status that comes before the bootloader listens for a file.
    Status,
}

/// What is being done.
#[derive(Clone, Copy, Debug, PartialEq, Eq, Structural)]
pub enum Act {
    /// The user is told to put the board into its bootloader.
    Prompt,
    Wake,
    Call,
    /// The burn entry of the menu is chosen.
    Choose,
    /// The slot is chosen.
    Slot,
    /// Nothing, until the next try.
    Rest,
}

/// Where a handshake stands; `W` is how a wait for text is represented.
pub enum MenuPhase<W> {
    Listening(Wait, W),
    Acting(Act),
}

/// How long a wait may last in all, how long the port may be quiet, and what ends the wait.
pub open spec fn window(wait: Wait) -> (u64, u64, Accept) {
    match wait {
        Wait::Stale => ((50 * MILLISECOND) as u64, (50 * MILLISECOND) as u64, Accept::Never),
        Wait::Awake => ((2 * SECOND) as u64, (200 * MILLISECOND) as u64, Accept::Never),
        Wait::Menu => ((4 * SECOND) as u64, (400 * MILLISECOND) as u64, Accept::Menu),
        Wait::SlotPrompt => ((2 * SECOND) as u64, (300 * MILLISECOND) as u64, Accept::Never),
        Wait::Status => ((2 * SECOND) as u64, (300 * MILLISECOND) as u64, Accept::Never),
    }
}

pub open spec fn prompt_message(kind: ImageKind) -> Seq<char> {
    "About to burn the "@ + kind.spec_label()
        + " — put the board into ISP mode now: hold the ISP button, tap Reset, then release ISP (no ISP button: pull GPIO_34/BOOT_MODE low during reset instead)."@
}

pub open spec fn never_entered_message() -> Seq<char> {
    "SIWX917: device never entered ISP mode — hold ISP/BOOT_MODE low during reset and retry (note: on BRD2605A the JLink VCOM port is the console, not the ISP UART)"@
}

/// A handshake under way.
pub struct EnterIspMenu {
    kind: ImageKind,
    attempt: u32,
    phase: MenuPhase<ReadUntil>,
}

/// An [`EnterIspMenu`] over sequences.
pub struct EnterIspMenuView {
    /// What is to be burned.
    pub kind: ImageKind,
    /// How many tries have failed.
    pub attempt: u32,
    pub phase: MenuPhase<ReadUntilView>,
}

impl View for EnterIspMenu {
    type V = EnterIspMenuView;

    closed spec fn view(&self) -> EnterIspMenuView {
        EnterIspMenuView {
            kind: self.kind,
            attempt: self.attempt,
            phase: match self.phase {
                MenuPhase::Listening(wait, w) => MenuPhase::Listening(wait, w@),
                MenuPhase::Acting(act) => MenuPhase::Acting(act),
            },
        }
    }
}

impl EnterIspMenuView {
    pub open spec fn acting(self, act: Act, request: RequestView) -> TurnView<Self, Finished> {
        TurnView::Ask(EnterIspMenuView { phase: MenuPhase::Acting(act), ..self }, request)
    }

    /// Begins a handshake by telling the user what to do.
    pub open spec fn opened(kind: ImageKind, at: Moment) -> TurnView<Self, Finished> {
        if at.cancelled {
            TurnView::Failed(FlashErrorView::Cancelled)
        } else {
            EnterIspMenuView {
                kind,
                attempt: 0,
                phase: MenuPhase::Acting(Act::Prompt),
            }.acting(
                Act::Prompt,
                RequestView::Report(FlashEventView::Warning(prompt_message(kind))),
            )
        }
    }

    pub open spec fn rest(self) -> TurnView<Self, Finished> {
        self.acting(Act::Rest, RequestView::Sleep(ISP_ENTER_RETRY_GAP))
    }

    /// What to do once a wait is over and `text` has come in. The burn entry is chosen only if it
    /// is the menu.
    pub open spec fn heard(self, wait: Wait, text: Seq<u8>) -> TurnView<Self, Finished> {
        match wait {
            Wait::Stale => self.acting(Act::Wake, RequestView::Write(seq![WAKE])),
            Wait::Awake => self.acting(Act::Call, RequestView::Write(seq![CALL])),
            Wait::Menu => if recognise::is_isp_menu(text) {
                self.acting(Act::Choose, RequestView::Write(seq![self.kind.spec_menu_key()]))
            } else {
                self.rest()
            },
            Wait::SlotPrompt => self.acting(
                Act::Slot,
                RequestView::Write(seq![self.kind.spec_image_slot()]),
            ),
            Wait::Status => TurnView::Done(Finished),
        }
    }

    /// Goes on as a wait does.
    pub open spec fn follow(self, wait: Wait, turn: TurnView<ReadUntilView, Seq<u8>>) -> TurnView<
        Self,
        Finished,
    > {
        match turn {
            TurnView::Ask(w, request) => TurnView::Ask(
                EnterIspMenuView { phase: MenuPhase::Listening(wait, w), ..self },
                request,
            ),
            TurnView::Done(text) => self.heard(wait, text),
            TurnView::Failed(e) => TurnView::Failed(e),
        }
    }

    pub open spec fn listen(self, wait: Wait, at: Moment) -> TurnView<Self, Finished> {
        let (overall, idle, accept) = window(wait);
        self.follow(wait, listen::wait_turn(overall, idle, accept, at.now))
    }

    /// Begins the next try, or gives up.
    pub open spec fn try_again(self, at: Moment) -> TurnView<Self, Finished> {
        if self.attempt + 1 >= ISP_ENTER_ATTEMPTS {
            TurnView::Failed(FlashErrorView::Plugin(never_entered_message()))
        } else if at.cancelled {
            TurnView::Failed(FlashErrorView::Cancelled)
        } else {
            EnterIspMenuView { attempt: (self.attempt + 1) as u32, ..self }.listen(Wait::Stale, at)
        }
    }
}

impl Machine for EnterIspMenuView {
    type Output = Finished;

    open spec fn next(self, reply: ReplyView, at: Moment) -> TurnView<Self, Finished> {
        match self.phase {
            MenuPhase::Listening(wait, w) => self.follow(wait, w.next(reply, at)),
            MenuPhase::Acting(act) => match act {
                Act::Prompt => self.listen(Wait::Stale, at),
                Act::Wake => if reply is Failed {
                    self.rest()
                } else {
                    self.listen(Wait::Awake, at)
                },
                Act::Call => if reply is Failed {
                    self.rest()
                } else {
                    self.listen(Wait::Menu, at)
                },
                Act::Choose => match reply {
                    ReplyView::Failed(fault) => TurnView::Failed(FlashErrorView::Io(fault.message)),
                    ReplyView::Bytes(_) => self.listen(Wait::SlotPrompt, at),
                },
                Act::Slot => match reply {
                    ReplyView::Failed(fault) => TurnView::Failed(FlashErrorView::Io(fault.message)),
                    ReplyView::Bytes(_) => self.listen(Wait::Status, at),
                },
                Act::Rest => self.try_again(at),
            },
        }
    }
}

impl EnterIspMenu {
    fn write(self, act: Act, byte: u8) -> (turn: Turn<EnterIspMenu, Finished>)
        ensures
            turn@ == self@.acting(act, RequestView::Write(seq![byte])),
    {
        let bytes: Vec<u8> = vec![byte];
        assert(bytes@ =~= seq![byte]);
        Turn::Ask(
            EnterIspMenu { phase: MenuPhase::Acting(act), ..self },
            Request::Write { bytes },
        )
    }

    fn rest(self) -> (turn: Turn<EnterIspMenu, Finished>)
        ensures
            turn@ == self@.rest(),
    {
        Turn::Ask(
            EnterIspMenu { phase: MenuPhase::Acting(Act::Rest), ..self },
            Request::Sleep { nanos: ISP_ENTER_RETRY_GAP },
        )
    }

    fn heard(self, wait: Wait, text: Vec<u8>) -> (turn: Turn<EnterIspMenu, Finished>)
        ensures
            turn@ == self@.heard(wait, text@),
    {
        match wait {
            Wait::Stale => self.write(Act::Wake, WAKE),
            Wait::Awake => self.write(Act::Call, CALL),
            Wait::Menu => {
                if looks_like_isp_menu(&text) {
                    let key: u8 = self.kind.menu_key();
                    self.write(Act::Choose, key)
                } else {
                    self.rest()
                }
            },
            Wait::SlotPrompt => {
                let slot: u8 = self.kind.image_slot();
                self.write(Act::Slot, slot)
            },
            Wait::Status => Turn::Done(Finished),
        }
    }

    fn follow(self, wait: Wait, turn: Turn<ReadUntil, Vec<u8>>) -> (res: Turn<
        EnterIspMenu,
        Finished,
    >)
        ensures
            res@ == self@.follow(wait, turn@),
    {
        match turn {
            Turn::Ask(w, request) => Turn::Ask(
                EnterIspMenu { phase: MenuPhase::Listening(wait, w), ..self },
                request,
            ),
            Turn::Done(text) => self.heard(wait, text),
            Turn::Failed(e) => Turn::Failed(e),
        }
    }

    fn listen(self, wait: Wait, at: Moment) -> (turn: Turn<EnterIspMenu, Finished>)
        ensures
            turn@ == self@.listen(wait, at),
    {
        let (overall, idle, accept): (u64, u64, Accept) = match wait {
            Wait::Stale => (50 * MILLISECOND, 50 * MILLISECOND, Accept::Never),
            Wait::Awake => (2 * SECOND, 200 * MILLISECOND, Accept::Never),
            Wait::Menu => (4 * SECOND, 400 * MILLISECOND, Accept::Menu),
            Wait::SlotPrompt => (2 * SECOND, 300 * MILLISECOND, Accept::Never),
            Wait::Status => (2 * SECOND, 300 * MILLISECOND, Accept::Never),
        };
        let opened = read_until(overall, idle, accept, at.now);
        self.follow(wait, opened)
    }

    fn try_again(self, at: Moment) -> (turn: Turn<EnterIspMenu, Finished>)
        ensures
            turn@ == self@.try_again(at),
    {
        if self.attempt >= ISP_ENTER_ATTEMPTS - 1 {
            return Turn::Failed(
                FlashError::Plugin(
                    "SIWX917: device never entered ISP mode — hold ISP/BOOT_MODE low during reset and retry (note: on BRD2605A the JLink VCOM port is the console, not the ISP UART)".to_string(),
                ),
            );
        }
        if at.cancelled {
            return Turn::Failed(FlashError::Cancelled);
        }
        EnterIspMenu { attempt: self.attempt + 1, ..self }.listen(Wait::Stale, at)
    }

    /// Goes on with the handshake once the host has replied.
    pub fn step(self, reply: Reply, at: Moment) -> (turn: Turn<EnterIspMenu, Finished>)
        ensures
            turn@ == self@.next(reply@, at),
    {
        let EnterIspMenu { kind, attempt, phase } = self;
        match phase {
            MenuPhase::Listening(wait, w) => {
                let turn = w.step(reply, at);
                EnterIspMenu { kind, attempt, phase: MenuPhase::Acting(Act::Rest) }.follow(
                    wait,
                    turn,
                )
            },
            MenuPhase::Acting(act) => {
                let menu = EnterIspMenu { kind, attempt, phase: MenuPhase::Acting(act) };
                match act {
                    Act::Prompt => menu.listen(Wait::Stale, at),
                    Act::Wake => match reply {
                        Reply::Failed(_) => menu.rest(),
                        Reply::Bytes(_) => menu.listen(Wait::Awake, at),
                    },
                    Act::Call => match reply {
                        Reply::Failed(_) => menu.rest(),
                        Reply::Bytes(_) => menu.listen(Wait::Menu, at),
                    },
                    Act::Choose => match reply {
                        Reply::Failed(fault) => Turn::Failed(FlashError::Io(fault.message)),
                        Reply::Bytes(_) => menu.listen(Wait::SlotPrompt, at),
                    },
                    Act::Slot => match reply {
                        Reply::Failed(fault) => Turn::Failed(FlashError::Io(fault.message)),
                        Reply::Bytes(_) => menu.listen(Wait::Status, at),
                    },
                    Act::Rest => menu.try_again(at),
                }
            },
        }
    }
}

/// Wakes the bootloader, has it print its menu, and chooses the burn entry and the slot for an
/// image.
pub fn enter_isp_menu(kind: ImageKind, at: Moment) -> (turn: Turn<EnterIspMenu, Finished>)
    ensures
        turn@ == EnterIspMenuView::opened(kind, at),
{
    if at.cancelled {
        return Turn::Failed(FlashError::Cancelled);
    }
    let mut message: String = "About to burn the ".to_string();
    message.append(kind.label());
    message.append(
        " — put the board into ISP mode now: hold the ISP button, tap Reset, then release ISP (no ISP button: pull GPIO_34/BOOT_MODE low during reset instead).",
    );
    Turn::Ask(
        EnterIspMenu { kind, attempt: 0, phase: MenuPhase::Acting(Act::Prompt) },
        Request::Report { event: FlashEvent::Warning { message } },
    )
}

/// Whether a reply completes a text that is the menu.
pub open spec fn brings_menu(turn: TurnView<EnterIspMenuView, Finished>, reply: ReplyView, at: Moment) -> bool {
    match turn {
        TurnView::Ask(m, _) => match m.phase {
            MenuPhase::Listening(Wait::Menu, w) => match w.next(reply, at) {
                TurnView::Done(text) => recognise::is_isp_menu(text),
                _ => false,
            },
            _ => false,
        },
        _ => false,
    }
}

/// Whether the menu has come in as the answer to a call for it.
pub open spec fn menu_seen(first: TurnView<EnterIspMenuView, Finished>, replies: Replies) -> bool
    decreases replies.len(),
{
    replies.len() > 0 && (menu_seen(first, replies.drop_last()) || brings_menu(
        host::run(first, replies.drop_last()),
        replies.last().0,
        replies.last().1,
    ))
}

/// Whether nothing was written but wake-ups and calls for the menu.
pub open spec fn only_calls(w: Seq<Seq<u8>>) -> bool {
    forall|i: int| 0 <= i < w.len() ==> #[trigger] w[i] == seq![WAKE] || w[i] == seq![CALL]
}

/// How many of the choices that start a burn have been made.
pub enum Choices {
    Nothing,
    Entry,
    EntryAndSlot,
}

/// Whether what was written is wake-ups and calls for the menu, and then the choices, once each.
pub open spec fn written(w: Seq<Seq<u8>>, kind: ImageKind, choices: Choices) -> bool {
    match choices {
        Choices::Nothing => only_calls(w),
        Choices::Entry => w.len() > 0 && w.last() == seq![kind.spec_menu_key()] && only_calls(
            w.drop_last(),
        ),
        Choices::EntryAndSlot => w.len() > 1 && w.last() == seq![kind.spec_image_slot()]
            && w.drop_last().last() == seq![kind.spec_menu_key()] && only_calls(
            w.drop_last().drop_last(),
        ),
    }
}

/// How many wake-ups were written.
pub open spec fn wake_ups(w: Seq<Seq<u8>>) -> nat
    decreases w.len(),
{
    if w.len() == 0 {
        0
    } else {
        wake_ups(w.drop_last()) + if w.last() == seq![WAKE] {
            1nat
        } else {
            0
        }
    }
}

/// The choices that have been made in a phase.
pub open spec fn choices_in(phase: MenuPhase<ReadUntilView>) -> Choices {
    match phase {
        MenuPhase::Acting(Act::Choose) => Choices::Entry,
        MenuPhase::Listening(Wait::SlotPrompt, _) => Choices::Entry,
        MenuPhase::Acting(Act::Slot) => Choices::EntryAndSlot,
        MenuPhase::Listening(Wait::Status, _) => Choices::EntryAndSlot,
        _ => Choices::Nothing,
    }
}

/// Whether the try under way has sent its wake-up.
pub open spec fn has_woken(phase: MenuPhase<ReadUntilView>) -> bool {
    match phase {
        MenuPhase::Acting(Act::Prompt) => false,
        MenuPhase::Listening(Wait::Stale, _) => false,
        _ => true,
    }
}

/// How a handshake that is still open stands.
pub open spec fn handshake_stands(m: EnterIspMenuView, kind: ImageKind, w: Seq<Seq<u8>>, seen: bool) -> bool {
    &&& m.kind == kind
    &&& m.attempt < ISP_ENTER_ATTEMPTS
    &&& written(w, kind, choices_in(m.phase))
    &&& choices_in(m.phase) !is Nothing <==> seen
    &&& wake_ups(w) == m.attempt + if has_woken(m.phase) {
        1nat
    } else {
        0
    }
}

/// How a handshake that has ended stands.
pub open spec fn handshake_ended(turn: TurnView<EnterIspMenuView, Finished>, kind: ImageKind, w: Seq<Seq<u8>>, seen: bool) -> bool {
    &&& wake_ups(w) <= ISP_ENTER_ATTEMPTS
    &&& match turn {
        TurnView::Ask(_, _) => false,
        TurnView::Done(_) => seen && written(w, kind, Choices::EntryAndSlot),
        TurnView::Failed(e) => {
            ||| e is Cancelled && !seen && written(w, kind, Choices::Nothing)
            ||| e == FlashErrorView::Plugin(never_entered_message()) && !seen && written(
                w,
                kind,
                Choices::Nothing,
            ) && wake_ups(w) == ISP_ENTER_ATTEMPTS
            ||| e is Io && seen && (written(w, kind, Choices::Entry) || written(
                w,
                kind,
                Choices::EntryAndSlot,
            ))
        },
    }
}

proof fn lemma_wake_ups_push(w: Seq<Seq<u8>>, bytes: Seq<u8>)
    ensures
        wake_ups(w.push(bytes)) == wake_ups(w) + if bytes == seq![WAKE] {
            1nat
        } else {
            0
        },
        w.push(bytes).drop_last() == w,
{
    assert(w.push(bytes).drop_last() =~= w);
}

proof fn lemma_handshake_step(
    m: EnterIspMenuView,
    kind: ImageKind,
    w: Seq<Seq<u8>>,
    seen: bool,
    request: RequestView,
    reply: ReplyView,
    at: Moment,
)
    requires
        handshake_stands(m, kind, w, seen),
    ensures
        ({
            let turn = m.next(reply, at);
            let now_seen = seen || brings_menu(TurnView::Ask(m, request), reply, at);
            let v = w + host::turn_write(turn);
            match turn {
                TurnView::Ask(n, _) => handshake_stands(n, kind, v, now_seen),
                _ => handshake_ended(turn, kind, v, now_seen),
            }
        }),
{
    let turn = m.next(reply, at);
    let key = seq![kind.spec_menu_key()];
    let slot = seq![kind.spec_image_slot()];
    assert(key[0] != WAKE && slot[0] != WAKE && seq![CALL][0] != WAKE && seq![WAKE][0] == WAKE);
    match turn {
        TurnView::Ask(n, RequestView::Write(bytes)) => {
            assert(w + host::turn_write(turn) =~= w.push(bytes));
            lemma_wake_ups_push(w, bytes);
        },
        _ => {
            assert(w + host::turn_write(turn) =~= w);
        },
    }
}

proof fn lemma_handshake(kind: ImageKind, at: Moment, replies: Replies)
    ensures
        ({
            let first = EnterIspMenuView::opened(kind, at);
            let w = host::writes(first, replies);
            match host::run(first, replies) {
                TurnView::Ask(m, _) => handshake_stands(m, kind, w, menu_seen(first, replies)),
                turn => handshake_ended(turn, kind, w, menu_seen(first, replies)),
            }
        }),
    decreases replies.len(),
{
    let first = EnterIspMenuView::opened(kind, at);
    if replies.len() > 0 {
        let prev = replies.drop_last();
        lemma_handshake(kind, at, prev);
        match host::run(first, prev) {
            TurnView::Ask(m, request) => {
                lemma_handshake_step(
                    m,
                    kind,
                    host::writes(first, prev),
                    menu_seen(first, prev),
                    request,
                    replies.last().0,
                    replies.last().1,
                );
            },
            _ => {},
        }
    }
}

/// A handshake that ends well has seen the menu, and what it wrote is wake-ups and calls for the
/// menu, then the burn entry of the image's core, then the slot of that core, once each and last.
pub proof fn law_handshake_chooses_the_core_of_the_image(
    kind: ImageKind,
    at: Moment,
    replies: Replies,
)
    requires
        host::run(EnterIspMenuView::opened(kind, at), replies) is Done,
    ensures
        menu_seen(EnterIspMenuView::opened(kind, at), replies),
        written(
            host::writes(EnterIspMenuView::opened(kind, at), replies),
            kind,
            Choices::EntryAndSlot,
        ),
{
    lemma_handshake(kind, at, replies);
}

/// As long as the menu has not been seen nothing is written but wake-ups and calls for it.
pub proof fn law_nothing_is_chosen_before_the_menu(kind: ImageKind, at: Moment, replies: Replies)
    requires
        !menu_seen(EnterIspMenuView::opened(kind, at), replies),
    ensures
        only_calls(host::writes(EnterIspMenuView::opened(kind, at), replies)),
{
    lemma_handshake(kind, at, replies);
}

/// The bootloader is woken at most twenty times, and a handshake gives up on the board only after
/// twenty wake-ups without the menu. Otherwise it fails only because the job was cancelled before
/// the menu was seen, with nothing chosen, or because a choice could not be written.
pub proof fn law_handshake_gives_up_after_twenty_tries(
    kind: ImageKind,
    at: Moment,
    replies: Replies,
)
    ensures
        ({
            let first = EnterIspMenuView::opened(kind, at);
            let w = host::writes(first, replies);
            &&& wake_ups(w) <= ISP_ENTER_ATTEMPTS
            &&& host::run(first, replies) matches TurnView::Failed(e) ==> {
                ||| e is Cancelled && !menu_seen(first, replies) && only_calls(w)
                ||| e == FlashErrorView::Plugin(never_entered_message()) && !menu_seen(
                    first,
                    replies,
                ) && only_calls(w) && wake_ups(w) == ISP_ENTER_ATTEMPTS
                ||| e is Io && menu_seen(first, replies)
            }
        }),
{
    lemma_handshake(kind, at, replies);
}

/// The text that a reply completes as the answer to a call for the menu.
pub open spec fn answer_of(
    turn: TurnView<EnterIspMenuView, Finished>,
    reply: ReplyView,
    at: Moment,
) -> Seq<Seq<u8>> {
    match turn {
        TurnView::Ask(m, _) => match m.phase {
            MenuPhase::Listening(Wait::Menu, w) => match w.next(reply, at) {
                TurnView::Done(text) => seq![text],
                _ => Seq::empty(),
            },
            _ => Seq::empty(),
        },
        _ => Seq::empty(),
    }
}

/// What has come in as answers to the calls for the menu, in order.
pub open spec fn answers(first: TurnView<EnterIspMenuView, Finished>, replies: Replies) -> Seq<
    Seq<u8>,
>
    decreases replies.len(),
{
    if replies.len() == 0 {
        Seq::empty()
    } else {
        answers(first, replies.drop_last()) + answer_of(
            host::run(first, replies.drop_last()),
            replies.last().0,
            replies.last().1,
        )
    }
}

/// A wake-up and a call for the menu, `n` times.
pub open spec fn calls(n: nat) -> Seq<Seq<u8>>
    decreases n,
{
    if n == 0 {
        Seq::empty()
    } else {
        calls((n - 1) as nat).push(seq![WAKE]).push(seq![CALL])
    }
}

/// Whether none of the texts is the menu.
pub open spec fn no_menu(texts: Seq<Seq<u8>>) -> bool {
    forall|i: int| 0 <= i < texts.len() ==> !recognise::is_isp_menu(#[trigger] texts[i])
}

/// Whether the last of the texts is the menu, and none before it.
pub open spec fn menu_at_last(texts: Seq<Seq<u8>>) -> bool {
    &&& texts.len() > 0
    &&& recognise::is_isp_menu(texts.last())
    &&& no_menu(texts.drop_last())
}

/// How a handshake that is still open stands, given what it wrote and was answered, if everything
/// could be written.
spec fn tries_stand(m: EnterIspMenuView, w: Seq<Seq<u8>>, texts: Seq<Seq<u8>>) -> bool {
    let n = m.attempt as nat;
    let key = seq![m.kind.spec_menu_key()];
    let slot = seq![m.kind.spec_image_slot()];
    &&& n < ISP_ENTER_ATTEMPTS
    &&& match m.phase {
        MenuPhase::Acting(Act::Prompt) | MenuPhase::Listening(Wait::Stale, _) => w == calls(n)
            && texts.len() == n && no_menu(texts),
        MenuPhase::Acting(Act::Wake) | MenuPhase::Listening(Wait::Awake, _) => w == calls(n).push(
            seq![WAKE],
        ) && texts.len() == n && no_menu(texts),
        MenuPhase::Acting(Act::Call) | MenuPhase::Listening(Wait::Menu, _) => w == calls(n + 1)
            && texts.len() == n && no_menu(texts),
        MenuPhase::Acting(Act::Rest) => w == calls(n + 1) && texts.len() == n + 1 && no_menu(texts),
        MenuPhase::Acting(Act::Choose) | MenuPhase::Listening(Wait::SlotPrompt, _) => w == calls(
            n + 1,
        ).push(key) && texts.len() == n + 1 && menu_at_last(texts),
        MenuPhase::Acting(Act::Slot) | MenuPhase::Listening(Wait::Status, _) => w == calls(
            n + 1,
        ).push(key).push(slot) && texts.len() == n + 1 && menu_at_last(texts),
    }
}

/// How a handshake has ended, given what it wrote and was answered, if everything could be written:
/// it called for the menu as often as it was answered, and went on to choose only at the menu.
pub open spec fn tries_ended(
    turn: TurnView<EnterIspMenuView, Finished>,
    kind: ImageKind,
    w: Seq<Seq<u8>>,
    texts: Seq<Seq<u8>>,
) -> bool {
    match turn {
        TurnView::Ask(_, _) => false,
        TurnView::Done(_) => {
            &&& 1 <= texts.len() <= ISP_ENTER_ATTEMPTS
            &&& menu_at_last(texts)
            &&& w == calls(texts.len()).push(seq![kind.spec_menu_key()]).push(
                seq![kind.spec_image_slot()],
            )
        },
        TurnView::Failed(e) => {
            &&& no_menu(texts)
            &&& w == calls(texts.len())
            &&& e == FlashErrorView::Plugin(never_entered_message()) && texts.len()
                == ISP_ENTER_ATTEMPTS || e is Cancelled && texts.len() < ISP_ENTER_ATTEMPTS
        },
    }
}

proof fn lemma_try_goes_on(
    m: EnterIspMenuView,
    request: RequestView,
    w: Seq<Seq<u8>>,
    texts: Seq<Seq<u8>>,
    reply: ReplyView,
    at: Moment,
)
    requires
        tries_stand(m, w, texts),
        m.phase matches MenuPhase::Acting(act) && act !is Prompt && act !is Rest
            ==> reply is Bytes,
    ensures
        ({
            let turn = m.next(reply, at);
            let v = w + host::turn_write(turn);
            let heard = texts + answer_of(TurnView::Ask(m, request), reply, at);
            match turn {
                TurnView::Ask(n, r) => {
                    &&& tries_stand(n, v, heard)
                    &&& n.kind == m.kind
                    &&& n.phase is Acting && n.phase->Acting_0 !is Prompt && n.phase->Acting_0
                        !is Rest ==> r is Write
                },
                _ => tries_ended(turn, m.kind, v, heard),
            }
        }),
{
    let turn = m.next(reply, at);
    let answer = answer_of(TurnView::Ask(m, request), reply, at);
    match turn {
        TurnView::Ask(_, RequestView::Write(bytes)) => {
            assert(w + host::turn_write(turn) =~= w.push(bytes));
        },
        _ => {
            assert(w + host::turn_write(turn) =~= w);
        },
    }
    if answer.len() > 0 {
        assert(texts + answer =~= texts.push(answer[0]));
        assert(texts.push(answer[0]).drop_last() =~= texts);
    } else {
        assert(texts + answer =~= texts);
    }
}

proof fn lemma_tries(kind: ImageKind, at: Moment, replies: Replies)
    requires
        host::all_written(EnterIspMenuView::opened(kind, at), replies),
    ensures
        ({
            let first = EnterIspMenuView::opened(kind, at);
            let w = host::writes(first, replies);
            let texts = answers(first, replies);
            match host::run(first, replies) {
                TurnView::Ask(m, r) => {
                    &&& tries_stand(m, w, texts)
                    &&& m.kind == kind
                    &&& m.phase is Acting && m.phase->Acting_0 !is Prompt && m.phase->Acting_0
                        !is Rest ==> r is Write
                },
                turn => tries_ended(turn, kind, w, texts),
            }
        }),
    decreases replies.len(),
{
    let first = EnterIspMenuView::opened(kind, at);
    if replies.len() > 0 {
        let prev = replies.drop_last();
        lemma_tries(kind, at, prev);
        match host::run(first, prev) {
            TurnView::Ask(m, request) => {
                lemma_try_goes_on(
                    m,
                    request,
                    host::writes(first, prev),
                    answers(first, prev),
                    replies.last().0,
                    replies.last().1,
                );
            },
            _ => {
                let texts = answers(first, prev);
                assert(texts + Seq::<Seq<u8>>::empty() =~= texts);
            },
        }
    }
}

/// If everything can be written, a handshake that ends well has sent a wake-up and a call, in turn,
/// at least once and at most twenty times, as often as it was answered, and then the burn entry and
/// the slot of the image's core; the last answer is the menu, and none before it. One that gives up
/// has sent the pair twenty times and got twenty answers without the menu, and one that was
/// cancelled fewer.
pub proof fn law_tries_until_the_menu(kind: ImageKind, at: Moment, replies: Replies)
    requires
        host::all_written(EnterIspMenuView::opened(kind, at), replies),
        host::run(EnterIspMenuView::opened(kind, at), replies) !is Ask,
    ensures
        tries_ended(
            host::run(EnterIspMenuView::opened(kind, at), replies),
            kind,
            host::writes(EnterIspMenuView::opened(kind, at), replies),
            answers(EnterIspMenuView::opened(kind, at), replies),
        ),
{
    lemma_tries(kind, at, replies);
}

/// Whether a turn of a handshake begins to listen for something: for how long in all, how long the
/// board may be quiet, and what ends it early.
pub open spec fn listens(
    turn: TurnView<EnterIspMenuView, Finished>,
    wait: Wait,
    overall: u64,
    idle: u64,
    accept: Accept,
    at: Moment,
) -> bool {
    &&& turn is Ask
    &&& turn->Ask_1 == RequestView::Read(256)
    &&& turn->Ask_0.phase == MenuPhase::Listening(
        wait,
        ReadUntilView {
            start: at.now,
            overall,
            idle,
            accept,
            buf: Seq::empty(),
            last_data: None,
            pausing: false,
        },
    )
}

/// Whether a turn of a handshake does something.
pub open spec fn acts(
    turn: TurnView<EnterIspMenuView, Finished>,
    act: Act,
    request: RequestView,
) -> bool {
    &&& turn is Ask
    &&& turn->Ask_1 == request
    &&& turn->Ask_0.phase == MenuPhase::<ReadUntilView>::Acting(act)
}

/// How a handshake begins: by telling the user what to do, unless the job was cancelled.
pub proof fn law_how_a_handshake_begins(kind: ImageKind, at: Moment)
    ensures
        ({
            let first = EnterIspMenuView::opened(kind, at);
            &&& at.cancelled ==> first == TurnView::<EnterIspMenuView, Finished>::Failed(
                FlashErrorView::Cancelled,
            )
            &&& !at.cancelled ==> acts(
                first,
                Act::Prompt,
                RequestView::Report(
                    FlashEventView::Warning(
                        "About to burn the "@ + (match kind {
                            ImageKind::M4 => "M4 application"@,
                            ImageKind::Nwp => "NWP/TA wireless firmware"@,
                        })
                            + " — put the board into ISP mode now: hold the ISP button, tap Reset, then release ISP (no ISP button: pull GPIO_34/BOOT_MODE low during reset instead)."@,
                    ),
                ),
            ) && first->Ask_0.kind == kind && first->Ask_0.attempt == 0
        }),
{
}

/// What a handshake does next once it has listened: it listens on as the wait does, and once the wait
/// is over it wakes the board, calls for the menu, chooses the burn entry if what has come in is the
/// menu and rests for two seconds if not, chooses the slot, and has ended well.
pub proof fn law_what_follows_listening(m: EnterIspMenuView, reply: ReplyView, at: Moment)
    requires
        m.phase is Listening,
    ensures
        ({
            let turn = m.next(reply, at);
            let wait = m.phase->Listening_0;
            &&& turn matches TurnView::Ask(n, _) ==> n.kind == m.kind && n.attempt == m.attempt
            &&& match m.phase->Listening_1.next(reply, at) {
                TurnView::Ask(w, request) => turn is Ask && turn->Ask_1 == request
                    && turn->Ask_0.phase == MenuPhase::Listening(wait, w),
                TurnView::Failed(e) => turn == TurnView::<EnterIspMenuView, Finished>::Failed(e),
                TurnView::Done(text) => match wait {
                    Wait::Stale => acts(turn, Act::Wake, RequestView::Write(seq![0x1cu8])),
                    Wait::Awake => acts(turn, Act::Call, RequestView::Write(seq![0x55u8])),
                    Wait::Menu => {
                        &&& recognise::is_isp_menu(text) && m.kind == ImageKind::M4 ==> acts(
                            turn,
                            Act::Choose,
                            RequestView::Write(seq![0x34u8]),
                        )
                        &&& recognise::is_isp_menu(text) && m.kind == ImageKind::Nwp ==> acts(
                            turn,
                            Act::Choose,
                            RequestView::Write(seq![0x42u8]),
                        )
                        &&& !recognise::is_isp_menu(text) ==> acts(
                            turn,
                            Act::Rest,
                            RequestView::Sleep(2_000_000_000),
                        )
                    },
                    Wait::SlotPrompt => {
                        &&& m.kind == ImageKind::M4 ==> acts(
                            turn,
                            Act::Slot,
                            RequestView::Write(seq![0x31u8]),
                        )
                        &&& m.kind == ImageKind::Nwp ==> acts(
                            turn,
                            Act::Slot,
                            RequestView::Write(seq![0x30u8]),
                        )
                    },
                    Wait::Status => turn == TurnView::<EnterIspMenuView, Finished>::Done(Finished),
                },
            }
        }),
{
}

/// What a handshake does next once it has acted. It listens: for 50 milliseconds for stale bytes, for
/// up to two seconds for an answer to the wake-up, up to four for the menu, which ends that wait, and
/// up to two each for the slot prompt and the status. A wake-up or a call that could not be written
/// makes it rest for two seconds; a choice that could not be written is an error. After a rest the
/// next try begins, unless there have been twenty or the job was cancelled.
pub proof fn law_what_follows_acting(m: EnterIspMenuView, reply: ReplyView, at: Moment)
    requires
        m.phase is Acting,
        m.attempt < 20,
    ensures
        ({
            let turn = m.next(reply, at);
            let act = m.phase->Acting_0;
            &&& turn matches TurnView::Ask(n, _) ==> n.kind == m.kind && n.attempt == m.attempt + (
            if act is Rest {
                1int
            } else {
                0
            })
            &&& match (act, reply) {
                (Act::Prompt, _) => listens(
                    turn,
                    Wait::Stale,
                    50_000_000,
                    50_000_000,
                    Accept::Never,
                    at,
                ),
                (Act::Wake, ReplyView::Bytes(_)) => listens(
                    turn,
                    Wait::Awake,
                    2_000_000_000,
                    200_000_000,
                    Accept::Never,
                    at,
                ),
                (Act::Call, ReplyView::Bytes(_)) => listens(
                    turn,
                    Wait::Menu,
                    4_000_000_000,
                    400_000_000,
                    Accept::Menu,
                    at,
                ),
                (Act::Choose, ReplyView::Bytes(_)) => listens(
                    turn,
                    Wait::SlotPrompt,
                    2_000_000_000,
                    300_000_000,
                    Accept::Never,
                    at,
                ),
                (Act::Slot, ReplyView::Bytes(_)) => listens(
                    turn,
                    Wait::Status,
                    2_000_000_000,
                    300_000_000,
                    Accept::Never,
                    at,
                ),
                (Act::Wake, ReplyView::Failed(_)) => acts(
                    turn,
                    Act::Rest,
                    RequestView::Sleep(2_000_000_000),
                ),
                (Act::Call, ReplyView::Failed(_)) => acts(
                    turn,
                    Act::Rest,
                    RequestView::Sleep(2_000_000_000),
                ),
                (Act::Choose, ReplyView::Failed(fault)) => turn == TurnView::<
                    EnterIspMenuView,
                    Finished,
                >::Failed(FlashErrorView::Io(fault.message)),
                (Act::Slot, ReplyView::Failed(fault)) => turn == TurnView::<
                    EnterIspMenuView,
                    Finished,
                >::Failed(FlashErrorView::Io(fault.message)),
                (Act::Rest, _) => if m.attempt == 19 {
                    turn == TurnView::<EnterIspMenuView, Finished>::Failed(
                        FlashErrorView::Plugin(
                            "SIWX917: device never entered ISP mode — hold ISP/BOOT_MODE low during reset and retry (note: on BRD2605A the JLink VCOM port is the console, not the ISP UART)"@,
                        ),
                    )
                } else if at.cancelled {
                    turn == TurnView::<EnterIspMenuView, Finished>::Failed(
                        FlashErrorView::Cancelled,
                    )
                } else {
                    listens(turn, Wait::Stale, 50_000_000, 50_000_000, Accept::Never, at)
                },
            }
        }),
{
}

proof fn lemma_rest_is_asked_for(kind: ImageKind, at: Moment, replies: Replies)
    ensures
        host::run(EnterIspMenuView::opened(kind, at), replies) matches TurnView::Ask(m, request)
            ==> request == RequestView::Sleep(2_000_000_000) ==> m.phase == MenuPhase::<
            ReadUntilView,
        >::Acting(Act::Rest),
{
    if replies.len() > 0 {
        let first = EnterIspMenuView::opened(kind, at);
        let turn = host::run(first, replies.drop_last());
        if turn is Ask {
            let m = turn->Ask_0;
            let (reply, then) = replies.last();
            match m.phase {
                MenuPhase::Listening(_, w) => {
                    assert(w.next(reply, then) matches TurnView::Ask(_, request) ==> request
                        != RequestView::Sleep(2_000_000_000));
                },
                MenuPhase::Acting(_) => {},
            }
        }
    }
}

proof fn lemma_nothing_more_is_written(
    first: TurnView<EnterIspMenuView, Finished>,
    replies: Replies,
    more: Replies,
)
    requires
        host::run(first, replies) !is Ask,
    ensures
        host::writes(first, replies + more) == host::writes(first, replies),
        host::run(first, replies + more) == host::run(first, replies),
    decreases more.len(),
{
    if more.len() == 0 {
        assert(replies + more =~= replies);
    } else {
        lemma_nothing_more_is_written(first, replies, more.drop_last());
        assert((replies + more).drop_last() =~= replies + more.drop_last());
    }
}

/// Once the job is cancelled no further try begins. If a handshake rests between two tries, having
/// woken the board fewer than twenty times, and the job is cancelled by the time the rest is over,
/// it ends with that, and nothing is written from then on.
pub proof fn law_cancelled_handshake_begins_no_further_try(
    kind: ImageKind,
    at: Moment,
    replies: Replies,
    more: Replies,
)
    requires
        replies.len() > 0,
        replies.last().1.cancelled,
        host::run(EnterIspMenuView::opened(kind, at), replies.drop_last()) is Ask,
        host::run(EnterIspMenuView::opened(kind, at), replies.drop_last())->Ask_1
            == RequestView::Sleep(2_000_000_000),
        wake_ups(host::writes(EnterIspMenuView::opened(kind, at), replies.drop_last())) < 20,
    ensures
        host::run(EnterIspMenuView::opened(kind, at), replies + more) == TurnView::<
            EnterIspMenuView,
            Finished,
        >::Failed(FlashErrorView::Cancelled),
        host::writes(EnterIspMenuView::opened(kind, at), replies + more) == host::writes(
            EnterIspMenuView::opened(kind, at),
            replies.drop_last(),
        ),
{
    let first = EnterIspMenuView::opened(kind, at);
    let prev = replies.drop_last();
    lemma_rest_is_asked_for(kind, at, prev);
    lemma_handshake(kind, at, prev);
    lemma_nothing_more_is_written(first, replies, more);
    let w = host::writes(first, prev);
    assert(w + Seq::<Seq<u8>>::empty() =~= w);
}

} // verus!
