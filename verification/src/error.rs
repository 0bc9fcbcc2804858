//! Why a job ends without success.

use vstd::prelude::*;

verus! {

/// Why a job ends without success.
#[derive(Debug)]
pub enum FlashError {
    /// The user cancelled the job.
    Cancelled,
    /// The job cannot be run as it stands.
    InvalidJob(String),
    /// The plugin or the device gave up.
    Plugin(String),
    /// Reading from or writing to the port failed.
    Io(String),
    /// The port could not be opened.
    Serial(String),
}

/// A [`FlashError`] with its message as a sequence of characters.
pub enum FlashErrorView {
    Cancelled,
    InvalidJob(Seq<char>),
    Plugin(Seq<char>),
    Io(Seq<char>),
    Serial(Seq<char>),
}

impl View for FlashError {
    type V = FlashErrorView;

    open spec fn view(&self) -> FlashErrorView {
        match *self {
            FlashError::Cancelled => FlashErrorView::Cancelled,
            FlashError::InvalidJob(m) => FlashErrorView::InvalidJob(m@),
            FlashError::Plugin(m) => FlashErrorView::Plugin(m@),
            FlashError::Io(m) => FlashErrorView::Io(m@),
            FlashError::Serial(m) => FlashErrorView::Serial(m@),
        }
    }
}

} // verus!
