//! A whole job: from the file on disk to the verdict of the board.

use crate::error::{FlashError, FlashErrorView};
use crate::event::{FlashEvent, FlashEventView, FlashMilestone, FlashPhase};
use crate::exchange;
use crate::exchange::{Note, NoteView};
use crate::host::{
    Finished, Machine, Moment, Reply, ReplyView, Request, RequestView, Turn, TurnView,
    MILLISECOND,
};
use crate::image;
use crate::image::ImageKind;
use crate::job;
use crate::job::{resolve_single_image, FlashJob, FlashMode};
use crate::menu::{enter_isp_menu, EnterIspMenu, EnterIspMenuView};
use crate::report::{confirm_upgrade, ConfirmUpgrade, ConfirmUpgradeView};
use crate::transfer::{send_file, Part, SendFile, SendFileView};
use vstd::prelude::*;
use vstd::string::*;
use vstd::utf8::*;

verus! {

/// The rate of the bootloader's port. It is fixed: the baud rate of a job does not matter.
pub const ISP_BAUD: u32 = 115_200;

/// How long one read from the port may take.
pub const PORT_TIMEOUT: u64 = 300 * MILLISECOND;

pub open spec fn unreadable_message(path: Seq<char>, why: Seq<char>) -> Seq<char> {
    "cannot read firmware '"@ + path + "': "@ + why
}

pub open spec fn empty_message(path: Seq<char>) -> Seq<char> {
    "firmware file '"@ + path + "' is empty"@
}

/// What stands behind the last slash of a path; all of it, if there is none.
pub open spec fn behind_last_slash(path: Seq<char>) -> Seq<char>
    decreases path.len(),
{
    if path.len() == 0 || path.last() == '/' {
        Seq::empty()
    } else {
        behind_last_slash(path.drop_last()).push(path.last())
    }
}

/// The last component of a path whose components are separated by slashes alone. Slashes and single
/// dots at the end do not count. There is none if nothing else is left, or if what is left ends in
/// two dots.
pub open spec fn last_component(path: Seq<char>) -> Option<Seq<char>>
    decreases path.len(),
{
    let last = behind_last_slash(path);
    if path.len() == 0 {
        None
    } else if path.last() == '/' {
        last_component(path.drop_last())
    } else if last == seq!['.'] {
        last_component(path.drop_last())
    } else if last == seq!['.', '.'] {
        None
    } else {
        Some(last)
    }
}

/// What stands in front of the first slash of a path; all of it, if there is none.
pub open spec fn before_first_slash(path: Seq<char>) -> Seq<char>
    decreases path.len(),
{
    if path.len() == 0 || path[0] == '/' {
        Seq::empty()
    } else {
        seq![path[0]] + before_first_slash(path.drop_first())
    }
}

/// Whether every system finds the same last component in a path: slashes are all that separates its
/// components, it does not begin like the name of a server, and the last component is not the first
/// one with a colon in it, which may be a drive.
pub open spec fn portable(path: Seq<char>) -> bool {
    let first = before_first_slash(path);
    &&& !path.contains('\\')
    &&& !(path.len() >= 2 && path[0] == '/' && path[1] == '/')
    &&& !(first.contains(':') && last_component(path) == Some(first))
}

/// Whether a text stands in another.
pub open spec fn stands_in(part: Seq<char>, whole: Seq<char>) -> bool {
    exists|i: int|
        0 <= i && i + part.len() <= whole.len() && #[trigger] whole.subrange(i, i + part.len())
            == part
}

/// Whether a path may turn out to have this last component. It is a part of the path and, unless
/// there are backslashes in the path, without a slash. What else counts as a separator depends on
/// the system, so only portable paths are certain.
pub open spec fn may_be_base_name(path: Seq<char>, base: Option<Seq<char>>) -> bool {
    &&& base matches Some(name) ==> {
        &&& name.len() > 0
        &&& stands_in(name, path)
        &&& !path.contains('\\') ==> !name.contains('/')
    }
    &&& portable(path) ==> base == last_component(path)
}

/// A text that may be missing, as a sequence of characters.
pub open spec fn text_of(text: Option<String>) -> Option<Seq<char>> {
    match text {
        Some(s) => Some(s@),
        None => None,
    }
}

/// `std::path::Path::file_name` takes the last component of a path, if there is one. The claim is
/// that it is a part of the path, not empty, and without a slash unless there are backslashes; and
/// that of a portable path it is what stands last behind a slash, with slashes and single dots at
/// the end left out, and none if that is two dots. Which component of another path is the last is
/// not said: it depends on the system.
#[verifier::external_body]
fn base_name(path: &str) -> (base: Option<String>)
    ensures
        may_be_base_name(path@, text_of(base)),
{
    std::path::Path::new(path).file_name().and_then(|n| n.to_str()).map(|n| n.to_string())
}

/// The name under which an image is sent, given the last component of its path.
pub open spec fn sent_name(base: Option<Seq<char>>) -> Seq<char> {
    match base {
        Some(name) => name,
        None => "firmware.rps"@,
    }
}

/// Where a job stands.
enum Stage {
    Loading { port: String, path: String, name: String },
    Opening { kind: ImageKind, name: String, data: Vec<u8> },
    Starting { kind: ImageKind, name: String, data: Vec<u8> },
    Handshaking { handshake: EnterIspMenu, name: String, data: Vec<u8> },
    Shaken { name: String, data: Vec<u8> },
    StartingWrite { name: String, data: Vec<u8> },
    Writing { transfer: SendFile },
    Written,
    StartingVerify,
    Verifying { confirmation: ConfirmUpgrade },
}

/// A job under way.
pub struct RunFlash {
    stage: Stage,
}

/// Where a job stands, over sequences.
pub enum RunFlashView {
    /// The image is being read from its path.
    Loading { port: Seq<char>, path: Seq<char>, name: Seq<char> },
    /// The image is good, and the port is being opened.
    Opening { kind: ImageKind, name: Seq<char>, data: Seq<u8> },
    /// The begin of the handshake is being reported.
    Starting { kind: ImageKind, name: Seq<char>, data: Seq<u8> },
    Handshaking { handshake: EnterIspMenuView, name: Seq<char>, data: Seq<u8> },
    /// The end of the handshake is being reported.
    Shaken { name: Seq<char>, data: Seq<u8> },
    /// The begin of the transfer is being reported.
    StartingWrite { name: Seq<char>, data: Seq<u8> },
    Writing { transfer: SendFileView },
    /// The end of the transfer is being reported.
    Written,
    /// The begin of the confirmation is being reported.
    StartingVerify,
    Verifying { confirmation: ConfirmUpgradeView },
}

impl View for RunFlash {
    type V = RunFlashView;

    closed spec fn view(&self) -> RunFlashView {
        match self.stage {
            Stage::Loading { port, path, name } => RunFlashView::Loading {
                port: port@,
                path: path@,
                name: name@,
            },
            Stage::Opening { kind, name, data } => RunFlashView::Opening {
                kind,
                name: name@,
                data: data@,
            },
            Stage::Starting { kind, name, data } => RunFlashView::Starting {
                kind,
                name: name@,
                data: data@,
            },
            Stage::Handshaking { handshake, name, data } => RunFlashView::Handshaking {
                handshake: handshake@,
                name: name@,
                data: data@,
            },
            Stage::Shaken { name, data } => RunFlashView::Shaken { name: name@, data: data@ },
            Stage::StartingWrite { name, data } => RunFlashView::StartingWrite {
                name: name@,
                data: data@,
            },
            Stage::Writing { transfer } => RunFlashView::Writing { transfer: transfer@ },
            Stage::Written => RunFlashView::Written,
            Stage::StartingVerify => RunFlashView::StartingVerify,
            Stage::Verifying { confirmation } => RunFlashView::Verifying {
                confirmation: confirmation@,
            },
        }
    }
}

pub open spec fn phase_request(phase: FlashPhase) -> RequestView {
    RequestView::Report(FlashEventView::Phase(phase))
}

pub open spec fn milestone_request(milestone: FlashMilestone) -> RequestView {
    RequestView::Report(FlashEventView::Milestone(milestone))
}

impl RunFlashView {
    /// Begins to burn the image at a path by reading it.
    pub open spec fn load(port: Seq<char>, path: Seq<char>, name: Seq<char>) -> TurnView<
        Self,
        Finished,
    > {
        TurnView::Ask(RunFlashView::Loading { port, path, name }, RequestView::LoadFile(path))
    }

    /// Begins a job that sends its image under a name.
    pub open spec fn opened(job: &FlashJob, name: Seq<char>) -> TurnView<Self, Finished> {
        match job::image_path(job) {
            Ok(path) => Self::load(job.port@, path, name),
            Err(e) => TurnView::Failed(e),
        }
    }

    /// Whether a job can take a reply: the name of its image has to fit into a packet when the reply
    /// has it sent.
    pub open spec fn can_take(self, reply: ReplyView) -> bool {
        self matches RunFlashView::Writing { transfer } ==> transfer.can_take(reply)
    }

    /// What the last step of the transfer has met with.
    pub open spec fn note(self) -> Option<NoteView> {
        match self {
            RunFlashView::Writing { transfer } => transfer.note(),
            _ => None,
        }
    }

    /// Takes in the image, before anything is done with the port: burning the wrong core would be
    /// worse than burning none.
    pub open spec fn loaded(
        port: Seq<char>,
        path: Seq<char>,
        name: Seq<char>,
        reply: ReplyView,
    ) -> TurnView<Self, Finished> {
        match reply {
            ReplyView::Failed(fault) => TurnView::Failed(
                FlashErrorView::Plugin(unreadable_message(path, fault.message)),
            ),
            ReplyView::Bytes(data) => if data.len() == 0 {
                TurnView::Failed(FlashErrorView::InvalidJob(empty_message(path)))
            } else if !image::is_rps(data) {
                TurnView::Failed(image::rejection(data))
            } else {
                TurnView::Ask(
                    RunFlashView::Opening { kind: image::core_of(data), name, data },
                    RequestView::OpenPort(port, ISP_BAUD, PORT_TIMEOUT),
                )
            },
        }
    }

    pub open spec fn handshaking(
        name: Seq<char>,
        data: Seq<u8>,
        turn: TurnView<EnterIspMenuView, Finished>,
    ) -> TurnView<Self, Finished> {
        match turn {
            TurnView::Ask(handshake, request) => TurnView::Ask(
                RunFlashView::Handshaking { handshake, name, data },
                request,
            ),
            TurnView::Done(_) => TurnView::Ask(
                RunFlashView::Shaken { name, data },
                milestone_request(FlashMilestone::HandshakeComplete),
            ),
            TurnView::Failed(e) => TurnView::Failed(e),
        }
    }

    pub open spec fn writing(turn: TurnView<SendFileView, Finished>) -> TurnView<Self, Finished> {
        match turn {
            TurnView::Ask(transfer, request) => TurnView::Ask(
                RunFlashView::Writing { transfer },
                request,
            ),
            TurnView::Done(_) => TurnView::Ask(
                RunFlashView::Written,
                milestone_request(FlashMilestone::WriteComplete),
            ),
            TurnView::Failed(e) => TurnView::Failed(e),
        }
    }

    pub open spec fn verifying(turn: TurnView<ConfirmUpgradeView, Finished>) -> TurnView<
        Self,
        Finished,
    > {
        match turn {
            TurnView::Ask(confirmation, request) => TurnView::Ask(
                RunFlashView::Verifying { confirmation },
                request,
            ),
            TurnView::Done(_) => TurnView::Done(Finished),
            TurnView::Failed(e) => TurnView::Failed(e),
        }
    }
}

impl Machine for RunFlashView {
    type Output = Finished;

    open spec fn next(self, reply: ReplyView, at: Moment) -> TurnView<Self, Finished> {
        match self {
            RunFlashView::Loading { port, path, name } => Self::loaded(port, path, name, reply),
            RunFlashView::Opening { kind, name, data } => match reply {
                ReplyView::Failed(fault) => TurnView::Failed(FlashErrorView::Serial(fault.message)),
                ReplyView::Bytes(_) => TurnView::Ask(
                    RunFlashView::Starting { kind, name, data },
                    phase_request(FlashPhase::Handshake),
                ),
            },
            RunFlashView::Starting { kind, name, data } => Self::handshaking(
                name,
                data,
                EnterIspMenuView::opened(kind, at),
            ),
            RunFlashView::Handshaking { handshake, name, data } => Self::handshaking(
                name,
                data,
                handshake.next(reply, at),
            ),
            RunFlashView::Shaken { name, data } => TurnView::Ask(
                RunFlashView::StartingWrite { name, data },
                phase_request(FlashPhase::Write),
            ),
            RunFlashView::StartingWrite { name, data } => Self::writing(
                SendFileView::launch(encode_utf8(name), data, Part::Init, 0, at),
            ),
            RunFlashView::Writing { transfer } => Self::writing(transfer.next(reply, at)),
            RunFlashView::Written => TurnView::Ask(
                RunFlashView::StartingVerify,
                phase_request(FlashPhase::Verify),
            ),
            RunFlashView::StartingVerify => Self::verifying(ConfirmUpgradeView::opened(at)),
            RunFlashView::Verifying { confirmation } => Self::verifying(
                confirmation.next(reply, at),
            ),
        }
    }
}

fn phase_turn(stage: Stage, phase: FlashPhase) -> (turn: Turn<RunFlash, Finished>)
    ensures
        turn@ == TurnView::<_, Finished>::Ask((RunFlash { stage })@, phase_request(phase)),
{
    Turn::Ask(RunFlash { stage }, Request::Report { event: FlashEvent::Phase { phase } })
}

fn milestone_turn(stage: Stage, milestone: FlashMilestone) -> (turn: Turn<RunFlash, Finished>)
    ensures
        turn@ == TurnView::<_, Finished>::Ask(
            (RunFlash { stage })@,
            milestone_request(milestone),
        ),
{
    Turn::Ask(RunFlash { stage }, Request::Report { event: FlashEvent::Milestone { milestone } })
}

impl RunFlash {
    fn loaded(port: String, path: String, name: String, reply: Reply) -> (turn: Turn<
        RunFlash,
        Finished,
    >)
        ensures
            turn@ == RunFlashView::loaded(port@, path@, name@, reply@),
    {
        match reply {
            Reply::Failed(fault) => {
                let mut m: String = "cannot read firmware '".to_string();
                m.append(path.as_str());
                m.append("': ");
                m.append(fault.message.as_str());
                Turn::Failed(FlashError::Plugin(m))
            },
            Reply::Bytes(data) => {
                if data.len() == 0 {
                    let mut m: String = "firmware file '".to_string();
                    m.append(path.as_str());
                    m.append("' is empty");
                    return Turn::Failed(FlashError::InvalidJob(m));
                }
                match ImageKind::detect(&data) {
                    Ok(kind) => Turn::Ask(
                        RunFlash { stage: Stage::Opening { kind, name, data } },
                        Request::OpenPort { name: port, baud: ISP_BAUD, timeout: PORT_TIMEOUT },
                    ),
                    Err(e) => Turn::Failed(e),
                }
            },
        }
    }

    fn handshaking(
        name: String,
        data: Vec<u8>,
        turn: Turn<EnterIspMenu, Finished>,
    ) -> (res: Turn<RunFlash, Finished>)
        ensures
            res@ == RunFlashView::handshaking(name@, data@, turn@),
    {
        match turn {
            Turn::Ask(handshake, request) => Turn::Ask(
                RunFlash { stage: Stage::Handshaking { handshake, name, data } },
                request,
            ),
            Turn::Done(_) => milestone_turn(
                Stage::Shaken { name, data },
                FlashMilestone::HandshakeComplete,
            ),
            Turn::Failed(e) => Turn::Failed(e),
        }
    }

    fn writing(turn: Turn<SendFile, Finished>) -> (res: Turn<RunFlash, Finished>)
        ensures
            res@ == RunFlashView::writing(turn@),
    {
        match turn {
            Turn::Ask(transfer, request) => Turn::Ask(
                RunFlash { stage: Stage::Writing { transfer } },
                request,
            ),
            Turn::Done(_) => milestone_turn(Stage::Written, FlashMilestone::WriteComplete),
            Turn::Failed(e) => Turn::Failed(e),
        }
    }

    fn verifying(turn: Turn<ConfirmUpgrade, Finished>) -> (res: Turn<RunFlash, Finished>)
        ensures
            res@ == RunFlashView::verifying(turn@),
    {
        match turn {
            Turn::Ask(confirmation, request) => Turn::Ask(
                RunFlash { stage: Stage::Verifying { confirmation } },
                request,
            ),
            Turn::Done(_) => Turn::Done(Finished),
            Turn::Failed(e) => Turn::Failed(e),
        }
    }

    /// Tells whether the job can take a reply. It cannot if the reply has the name of the image sent
    /// and the name does not fit into a packet.
    pub fn can_take(&self, reply: &Reply) -> (yes: bool)
        ensures
            yes == self@.can_take(reply@),
    {
        match &self.stage {
            Stage::Writing { transfer } => transfer.can_take(reply),
            _ => true,
        }
    }

    /// What the last step of the transfer has met with: why a packet is being sent again, or which
    /// packet was ignored.
    pub fn note(&self) -> (note: Option<&Note>)
        ensures
            exchange::same_note(note, self@.note()),
    {
        match &self.stage {
            Stage::Writing { transfer } => transfer.note(),
            _ => None,
        }
    }

    /// Goes on with the job once the host has replied.
    pub fn step(self, reply: Reply, at: Moment) -> (turn: Turn<RunFlash, Finished>)
        requires
            self@.can_take(reply@),
        ensures
            turn@ == self@.next(reply@, at),
    {
        match self.stage {
            Stage::Loading { port, path, name } => Self::loaded(port, path, name, reply),
            Stage::Opening { kind, name, data } => match reply {
                Reply::Failed(fault) => Turn::Failed(FlashError::Serial(fault.message)),
                Reply::Bytes(_) => phase_turn(
                    Stage::Starting { kind, name, data },
                    FlashPhase::Handshake,
                ),
            },
            Stage::Starting { kind, name, data } => Self::handshaking(
                name,
                data,
                enter_isp_menu(kind, at),
            ),
            Stage::Handshaking { handshake, name, data } => Self::handshaking(
                name,
                data,
                handshake.step(reply, at),
            ),
            Stage::Shaken { name, data } => phase_turn(
                Stage::StartingWrite { name, data },
                FlashPhase::Write,
            ),
            Stage::StartingWrite { name, data } => Self::writing(
                send_file(name.as_str(), data.as_slice(), at),
            ),
            Stage::Writing { transfer } => Self::writing(transfer.step(reply, at)),
            Stage::Written => phase_turn(Stage::StartingVerify, FlashPhase::Verify),
            Stage::StartingVerify => Self::verifying(confirm_upgrade(at)),
            Stage::Verifying { confirmation } => Self::verifying(confirmation.step(reply, at)),
        }
    }
}

/// Burns the image at a path, given the last component of the path: reads the image, makes sure
/// what it is, opens the port, reaches the menu, sends the image and reads the verdict.
pub fn burn(port: &str, path: &str, base: Option<String>) -> (turn: Turn<RunFlash, Finished>)
    ensures
        turn@ == RunFlashView::load(port@, path@, sent_name(text_of(base))),
{
    let name: String = match base {
        Some(name) => name,
        None => "firmware.rps".to_string(),
    };
    Turn::Ask(
        RunFlash { stage: Stage::Loading { port: port.to_string(), path: path.to_string(), name } },
        Request::LoadFile { path: path.to_string() },
    )
}

proof fn lemma_last_slash(path: Seq<char>)
    ensures
        behind_last_slash(path).len() <= path.len(),
        path.skip(path.len() - behind_last_slash(path).len()) == behind_last_slash(path),
        !behind_last_slash(path).contains('/'),
    decreases path.len(),
{
    if path.len() > 0 && path.last() != '/' {
        let rest = path.drop_last();
        let b = behind_last_slash(rest);
        lemma_last_slash(rest);
        let n = path.len() - b.push(path.last()).len();
        assert(path.skip(n) =~= rest.skip(n).push(path.last()));
        assert forall|i: int| 0 <= i < b.push(path.last()).len() implies b.push(path.last())[i]
            != '/' by {
            if i < b.len() {
                assert(b.contains(b[i]));
            }
        }
    } else {
        assert(path.skip(path.len() as int) =~= Seq::<char>::empty());
    }
}

proof fn lemma_last_component(path: Seq<char>)
    ensures
        last_component(path) matches Some(name) ==> {
            &&& name.len() > 0
            &&& stands_in(name, path)
            &&& !name.contains('/')
        },
    decreases path.len(),
{
    let last = behind_last_slash(path);
    if path.len() > 0 {
        let rest = path.drop_last();
        lemma_last_component(rest);
        lemma_last_slash(path);
        if let Some(name) = last_component(rest) {
            let i = choose|i: int|
                0 <= i && i + name.len() <= rest.len() && #[trigger] rest.subrange(
                    i,
                    i + name.len(),
                ) == name;
            assert(path.subrange(i, i + name.len()) =~= rest.subrange(i, i + name.len()));
        }
        let n = path.len() - last.len();
        assert(path.subrange(n, n + last.len()) =~= path.skip(n));
    }
}

/// Every path may turn out to have the last component of its slashes, if it is portable, and none
/// otherwise.
proof fn lemma_some_base_name(path: Seq<char>) -> (base: Option<Seq<char>>)
    ensures
        may_be_base_name(path, base),
{
    lemma_last_component(path);
    if portable(path) {
        last_component(path)
    } else {
        None
    }
}

/// Burns the image of a job, under the name that stands last in its path.
pub fn run_flash(job: &FlashJob) -> (turn: Turn<RunFlash, Finished>)
    ensures
        exists|base: Option<Seq<char>>| #[trigger]
            may_be_base_name(job::image_path(job)->Ok_0, base) && turn@ == RunFlashView::opened(
                job,
                sent_name(base),
            ),
{
    match resolve_single_image(job) {
        Ok(path) => {
            let base: Option<String> = base_name(path.as_str());
            burn(job.port.as_str(), path.as_str(), base)
        },
        Err(e) => {
            proof {
                lemma_some_base_name(job::image_path(job)->Ok_0);
            }
            Turn::Failed(e)
        },
    }
}

/// The plugin for the SiWx917.
pub struct Siwx917Plugin;

impl Siwx917Plugin {
    /// The chip that the plugin is for.
    pub fn id(&self) -> (id: &'static str)
        ensures
            id@ == "SIWX917"@,
    {
        "SIWX917"
    }

    /// What a job that sends its image under a name comes to at first. The bootloader's menu can
    /// only burn, so every other mode is an error, without a single request.
    pub open spec fn first_turn(job: &FlashJob, name: Seq<char>) -> TurnView<
        RunFlashView,
        Finished,
    > {
        match job.mode {
            FlashMode::Flash => RunFlashView::opened(job, name),
            FlashMode::Erase => TurnView::Failed(
                FlashErrorView::Plugin(
                    "SIWX917: erase is not exposed by the ROM ISP menu — not supported"@,
                ),
            ),
            FlashMode::Read => TurnView::Failed(
                FlashErrorView::Plugin(
                    "SIWX917: flash read-back is not exposed by the ROM ISP menu — not supported"@,
                ),
            ),
            FlashMode::Authorize => TurnView::Failed(
                FlashErrorView::Plugin("SIWX917: authorize mode not supported by this plugin"@),
            ),
        }
    }

    /// Runs a job.
    pub fn run(&self, job: &FlashJob) -> (turn: Turn<RunFlash, Finished>)
        ensures
            exists|base: Option<Seq<char>>| #[trigger]
                may_be_base_name(job::image_path(job)->Ok_0, base) && turn@ == Self::first_turn(
                    job,
                    sent_name(base),
                ),
    {
        proof {
            lemma_some_base_name(job::image_path(job)->Ok_0);
        }
        match job.mode {
            FlashMode::Flash => run_flash(job),
            FlashMode::Erase => Turn::Failed(
                FlashError::Plugin(
                    "SIWX917: erase is not exposed by the ROM ISP menu — not supported".to_string(),
                ),
            ),
            FlashMode::Read => Turn::Failed(
                FlashError::Plugin(
                    "SIWX917: flash read-back is not exposed by the ROM ISP menu — not supported".to_string(),
                ),
            ),
            FlashMode::Authorize => Turn::Failed(
                FlashError::Plugin(
                    "SIWX917: authorize mode not supported by this plugin".to_string(),
                ),
            ),
        }
    }
}

/// How a job begins. One that burns and has one image reads that image; every other fails at once,
/// with the error of its paths or the reason why its mode is not supported.
pub proof fn law_how_a_job_begins(job: &FlashJob, name: Seq<char>)
    ensures
        ({
            let first = Siwx917Plugin::first_turn(job, name);
            match job.mode {
                FlashMode::Flash => match job::image_path(job) {
                    Ok(path) => first == TurnView::<_, Finished>::Ask(
                        RunFlashView::Loading { port: job.port@, path, name },
                        RequestView::LoadFile(path),
                    ),
                    Err(e) => first == TurnView::<RunFlashView, Finished>::Failed(e),
                },
                FlashMode::Erase => first == TurnView::<RunFlashView, Finished>::Failed(
                    FlashErrorView::Plugin(
                        "SIWX917: erase is not exposed by the ROM ISP menu — not supported"@,
                    ),
                ),
                FlashMode::Read => first == TurnView::<RunFlashView, Finished>::Failed(
                    FlashErrorView::Plugin(
                        "SIWX917: flash read-back is not exposed by the ROM ISP menu — not supported"@,
                    ),
                ),
                FlashMode::Authorize => first == TurnView::<RunFlashView, Finished>::Failed(
                    FlashErrorView::Plugin(
                        "SIWX917: authorize mode not supported by this plugin"@,
                    ),
                ),
            }
        }),
        sent_name(None) == "firmware.rps"@,
        sent_name(Some(name)) == name,
{
}

/// What a job makes of the file that it asked for. One that cannot be read, is empty or is no image
/// ends the job with the reason. With an image the port is opened, at 115200 baud and with 300
/// milliseconds for a read.
pub proof fn law_what_becomes_of_the_file(
    port: Seq<char>,
    path: Seq<char>,
    name: Seq<char>,
    reply: ReplyView,
    at: Moment,
)
    ensures
        ({
            let turn = (RunFlashView::Loading { port, path, name }).next(reply, at);
            match reply {
                ReplyView::Failed(fault) => turn == TurnView::<RunFlashView, Finished>::Failed(
                    FlashErrorView::Plugin(
                        "cannot read firmware '"@ + path + "': "@ + fault.message,
                    ),
                ),
                ReplyView::Bytes(data) => {
                    &&& data.len() == 0 ==> turn == TurnView::<RunFlashView, Finished>::Failed(
                        FlashErrorView::InvalidJob("firmware file '"@ + path + "' is empty"@),
                    )
                    &&& data.len() > 0 && !image::is_rps(data) ==> turn == TurnView::<
                        RunFlashView,
                        Finished,
                    >::Failed(image::rejection(data))
                    &&& image::is_rps(data) ==> turn == TurnView::<_, Finished>::Ask(
                        RunFlashView::Opening { kind: image::core_of(data), name, data },
                        RequestView::OpenPort(port, 115_200, 300_000_000),
                    )
                },
            }
        }),
{
}

/// How a job goes on once the port is asked for. A port that does not open ends it. Then come the
/// handshake for the core of the image, the transfer of the file under its name, and the
/// confirmation, each announced, each but the last reported when it is complete, and each the end of
/// the job if it fails.
pub proof fn law_how_a_job_goes_on(m: RunFlashView, reply: ReplyView, at: Moment)
    requires
        m !is Loading,
    ensures
        ({
            let turn = m.next(reply, at);
            match m {
                RunFlashView::Loading { .. } => true,
                RunFlashView::Opening { kind, name, data } => match reply {
                    ReplyView::Failed(fault) => turn == TurnView::<RunFlashView, Finished>::Failed(
                        FlashErrorView::Serial(fault.message),
                    ),
                    ReplyView::Bytes(_) => turn == TurnView::<_, Finished>::Ask(
                        RunFlashView::Starting { kind, name, data },
                        RequestView::Report(FlashEventView::Phase(FlashPhase::Handshake)),
                    ),
                },
                RunFlashView::Starting { kind, name, data } => shakes(
                    turn,
                    EnterIspMenuView::opened(kind, at),
                    name,
                    data,
                ),
                RunFlashView::Handshaking { handshake, name, data } => shakes(
                    turn,
                    handshake.next(reply, at),
                    name,
                    data,
                ),
                RunFlashView::Shaken { name, data } => turn == TurnView::<_, Finished>::Ask(
                    RunFlashView::StartingWrite { name, data },
                    RequestView::Report(FlashEventView::Phase(FlashPhase::Write)),
                ),
                RunFlashView::StartingWrite { name, data } => transfers(
                    turn,
                    SendFileView::launch(encode_utf8(name), data, Part::Init, 0, at),
                ),
                RunFlashView::Writing { transfer } => transfers(turn, transfer.next(reply, at)),
                RunFlashView::Written => turn == TurnView::<_, Finished>::Ask(
                    RunFlashView::StartingVerify,
                    RequestView::Report(FlashEventView::Phase(FlashPhase::Verify)),
                ),
                RunFlashView::StartingVerify => confirms(turn, ConfirmUpgradeView::opened(at)),
                RunFlashView::Verifying { confirmation } => confirms(
                    turn,
                    confirmation.next(reply, at),
                ),
            }
        }),
{
}

/// Whether a job does what its handshake does.
pub open spec fn shakes(
    turn: TurnView<RunFlashView, Finished>,
    part: TurnView<EnterIspMenuView, Finished>,
    name: Seq<char>,
    data: Seq<u8>,
) -> bool {
    match part {
        TurnView::Ask(handshake, request) => turn == TurnView::<_, Finished>::Ask(
            RunFlashView::Handshaking { handshake, name, data },
            request,
        ),
        TurnView::Failed(e) => turn == TurnView::<RunFlashView, Finished>::Failed(e),
        TurnView::Done(_) => turn == TurnView::<_, Finished>::Ask(
            RunFlashView::Shaken { name, data },
            RequestView::Report(FlashEventView::Milestone(FlashMilestone::HandshakeComplete)),
        ),
    }
}

/// Whether a job does what its transfer does.
pub open spec fn transfers(
    turn: TurnView<RunFlashView, Finished>,
    part: TurnView<SendFileView, Finished>,
) -> bool {
    match part {
        TurnView::Ask(transfer, request) => turn == TurnView::<_, Finished>::Ask(
            RunFlashView::Writing { transfer },
            request,
        ),
        TurnView::Failed(e) => turn == TurnView::<RunFlashView, Finished>::Failed(e),
        TurnView::Done(_) => turn == TurnView::<_, Finished>::Ask(
            RunFlashView::Written,
            RequestView::Report(FlashEventView::Milestone(FlashMilestone::WriteComplete)),
        ),
    }
}

/// Whether a job does what its confirmation does.
pub open spec fn confirms(
    turn: TurnView<RunFlashView, Finished>,
    part: TurnView<ConfirmUpgradeView, Finished>,
) -> bool {
    match part {
        TurnView::Ask(confirmation, request) => turn == TurnView::<_, Finished>::Ask(
            RunFlashView::Verifying { confirmation },
            request,
        ),
        TurnView::Failed(e) => turn == TurnView::<RunFlashView, Finished>::Failed(e),
        TurnView::Done(_) => turn == TurnView::<RunFlashView, Finished>::Done(Finished),
    }
}

/// The only reply that a job cannot take is one that its transfer cannot, and what a job notes is
/// what its transfer does.
pub proof fn law_job_takes_what_its_transfer_takes(m: RunFlashView, reply: ReplyView)
    ensures
        !m.can_take(reply) <==> m is Writing && !m->transfer.can_take(reply),
        m.note() == match m {
            RunFlashView::Writing { transfer } => match transfer.exchange {
                Some(x) => x.note,
                None => None,
            },
            _ => None,
        },
{
}

/// The last component of a portable path, `dir` being empty or ending in a slash: behind any
/// directory a name is the last component, which slashes and single dots behind it do not change;
/// two dots have none.
pub proof fn law_last_component_of_a_path(dir: Seq<char>, name: Seq<char>)
    requires
        dir.len() == 0 || dir.last() == '/',
        name.len() > 0,
        !name.contains('/'),
        name != seq!['.'],
    ensures
        name != seq!['.', '.'] ==> last_component(dir + name) == Some(name),
        name == seq!['.', '.'] ==> last_component(dir + name) is None,
        last_component((dir + name).push('/')) == last_component(dir + name),
        last_component((dir + name).push('/').push('.')) == last_component(dir + name),
        last_component(Seq::empty()) is None,
        last_component(seq!['/']) is None,
        last_component(seq!['.']) is None,
{
    let path = dir + name;
    lemma_behind_dir(dir, name);
    assert(path.last() == name.last());
    assert(name.contains(name.last()));
    assert(path.push('/').drop_last() =~= path);
    let dotted = path.push('/').push('.');
    let dot = seq!['.'];
    assert(dotted =~= path.push('/') + dot);
    lemma_behind_dir(path.push('/'), dot);
    assert(dotted.drop_last() =~= path.push('/'));
    reveal_with_fuel(last_component, 3);
    let nothing = Seq::<char>::empty();
    assert(seq!['/'].drop_last() =~= nothing);
    assert(dot.drop_last() =~= nothing);
    assert(nothing + dot =~= dot);
    lemma_behind_dir(nothing, dot);
}

proof fn lemma_behind_dir(dir: Seq<char>, name: Seq<char>)
    requires
        dir.len() == 0 || dir.last() == '/',
        forall|i: int| 0 <= i < name.len() ==> #[trigger] name[i] != '/',
    ensures
        behind_last_slash(dir + name) == name,
    decreases name.len(),
{
    if name.len() == 0 {
        assert(dir + name =~= dir);
        assert(behind_last_slash(dir) =~= name);
    } else {
        let path = dir + name;
        assert(path.drop_last() =~= dir + name.drop_last());
        assert(path.last() == name[name.len() - 1]);
        lemma_behind_dir(dir, name.drop_last());
        assert(behind_last_slash(path) =~= name);
    }
}

} // verus!
