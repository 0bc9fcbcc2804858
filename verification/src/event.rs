//! What a job reports while it runs.

use vstd::prelude::*;

verus! {

/// The parts of a job.
#[derive(Clone, Copy, Debug, PartialEq, Eq, Structural)]
pub enum FlashPhase {
    Handshake,
    Write,
    Verify,
}

/// What a job has achieved.
#[derive(Clone, Copy, Debug, PartialEq, Eq, Structural)]
pub enum FlashMilestone {
    HandshakeComplete,
    WriteComplete,
    VerifyPassed,
}

/// What a job reports while it runs.
#[derive(Debug)]
pub enum FlashEvent {
    /// A part of the job begins.
    Phase { phase: FlashPhase },
    /// A part of the job has ended well.
    Milestone { milestone: FlashMilestone },
    /// How much of the image has been acknowledged.
    Percent { value: u8 },
    /// Something the user should read.
    Warning { message: String },
}

/// A [`FlashEvent`] with its message as a sequence of characters.
pub enum FlashEventView {
    Phase(FlashPhase),
    Milestone(FlashMilestone),
    Percent(u8),
    Warning(Seq<char>),
}

impl View for FlashEvent {
    type V = FlashEventView;

    open spec fn view(&self) -> FlashEventView {
        match *self {
            FlashEvent::Phase { phase } => FlashEventView::Phase(phase),
            FlashEvent::Milestone { milestone } => FlashEventView::Milestone(milestone),
            FlashEvent::Percent { value } => FlashEventView::Percent(value),
            FlashEvent::Warning { message } => FlashEventView::Warning(message@),
        }
    }
}

} // verus!
