//! The commands that travel between control sources and the session manager.

use vstd::prelude::*;

verus! {

/// A command for the recorder, its acknowledgement, or the report of a
/// failure.
#[derive(Debug, Clone, PartialEq, Eq)]
pub enum Action {
    /// Begin a new recording session.
    Start,
    /// End the running recording session.
    Stop,
    /// Something went wrong; the text says what.
    Error(String),
}

/// An [`Action`] with its text as characters.
pub enum ActionView {
    Start,
    Stop,
    Error(Seq<char>),
}

impl View for Action {
    type V = ActionView;

    open spec fn view(&self) -> ActionView {
        match self {
            Action::Start => ActionView::Start,
            Action::Stop => ActionView::Stop,
            Action::Error(text) => ActionView::Error(text@),
        }
    }
}

} // verus!
