use crate::memory::page::frame_text;
use crate::memory::page::Frame;
use vstd::prelude::*;

verus! {

/// Why a mapping could not be established.
#[derive(Debug)]
pub enum Error {
    /// The page already resolves to the frame given.
    PageAlreadyMapped(Frame),
    /// No physical frame is left to hand out.
    FrameAllocationFailed,
    /// The translation tables are in a state that forbids the mapping.
    Other(&'static str),
}

impl Error {
    /// What the error says in the log.
    pub open spec fn message(self) -> Seq<char> {
        match self {
            Error::PageAlreadyMapped(frame) => "page is already mapped to frame "@ + frame_text(
                frame@,
            ),
            Error::FrameAllocationFailed => "frame allocation failed"@,
            Error::Other(text) => text@,
        }
    }

    /// What the error says in the log.
    pub fn to_string(&self) -> (text: String)
        ensures
            text@ == self.message(),
    {
        match self {
            Error::PageAlreadyMapped(frame) => {
                let mut text: String = String::from_str("page is already mapped to frame ");
                let frame: String = frame.to_string();
                text.append(frame.as_str());
                text
            },
            Error::FrameAllocationFailed => String::from_str("frame allocation failed"),
            Error::Other(text) => String::from_str(text),
        }
    }
}

/// An address given as the start of a page or frame is not a multiple of
/// the page size.
#[derive(Debug, PartialEq, Eq, Structural)]
pub struct NotAlignedError;

impl NotAlignedError {
    /// What the error says in the log.
    pub fn to_string(&self) -> (text: String)
        ensures
            text@ == "address is not properly aligned"@,
    {
        String::from_str("address is not properly aligned")
    }
}

} // verus!
