//! What the outside world is asked to do, and what it reports back.

use crate::definition::{Definition, DefinitionView, StoredDefinition, StoredView};
use crate::protocol::{Reply, ReplyView, Request, RequestView};
use crate::text::{outcome_of, Text};
use vstd::prelude::*;

verus! {

/// Something to be done outside.
#[derive(Debug, PartialEq, Eq)]
pub enum Action {
    /// Send a request to herdr.
    Call(Request),
    /// Read all files that hold definitions.
    LoadDefinitions,
    /// Write a definition to the named file.
    SaveDefinition { file_name: String, definition: Definition },
    /// Put a question to the user and read a line.
    Ask(String),
    /// Let the user pick one of the given lines.
    Pick(String),
    /// Stop: with what is printed, or with what went wrong.
    Finish(Result<String, String>),
}

/// What came of an action.
#[derive(Debug, PartialEq, Eq)]
pub enum Event {
    /// herdr's reply.
    Reply(Reply),
    /// What the files hold.
    Definitions(Vec<StoredDefinition>),
    /// The file is written.
    Saved,
    /// The line that the user entered.
    Answer(String),
    /// What the picker printed, unless it was left without a choice.
    Picked(Option<String>),
    /// The action failed.
    Failed(String),
}

/// Something for the user to read, besides what is done.
#[derive(Debug, PartialEq, Eq)]
pub enum Note {
    /// A line for the standard output.
    Line(String),
    /// A line for the standard error.
    Warning(String),
}

/// The model of an `Action`.
pub enum ActionView {
    Call(RequestView),
    LoadDefinitions,
    SaveDefinition { file_name: Text, definition: DefinitionView },
    Ask(Text),
    Pick(Text),
    Finish(Result<Text, Text>),
}

/// The model of an `Event`.
pub enum EventView {
    Reply(ReplyView),
    Definitions(Seq<StoredView>),
    Saved,
    Answer(Text),
    Picked(Option<Text>),
    Failed(Text),
}

/// The model of a `Note`.
pub enum NoteView {
    Line(Text),
    Warning(Text),
}

impl DeepView for Action {
    type V = ActionView;

    open spec fn deep_view(&self) -> ActionView {
        match *self {
            Action::Call(request) => ActionView::Call(request.deep_view()),
            Action::LoadDefinitions => ActionView::LoadDefinitions,
            Action::SaveDefinition { file_name, definition } => ActionView::SaveDefinition {
                file_name: file_name@,
                definition: definition.deep_view(),
            },
            Action::Ask(prompt) => ActionView::Ask(prompt@),
            Action::Pick(lines) => ActionView::Pick(lines@),
            Action::Finish(result) => ActionView::Finish(outcome_of(result)),
        }
    }
}

impl DeepView for Event {
    type V = EventView;

    open spec fn deep_view(&self) -> EventView {
        match *self {
            Event::Reply(reply) => EventView::Reply(reply.deep_view()),
            Event::Definitions(stored) => EventView::Definitions(stored.deep_view()),
            Event::Saved => EventView::Saved,
            Event::Answer(line) => EventView::Answer(line@),
            Event::Picked(output) => EventView::Picked(output.deep_view()),
            Event::Failed(message) => EventView::Failed(message@),
        }
    }
}

impl DeepView for Note {
    type V = NoteView;

    open spec fn deep_view(&self) -> NoteView {
        match *self {
            Note::Line(text) => NoteView::Line(text@),
            Note::Warning(text) => NoteView::Warning(text@),
        }
    }
}

/// What is reported where something else happened than what was asked for.
pub open spec fn unexpected() -> Text {
    "something else happened than what was asked for"@
}

/// What is reported where something else happened than what was asked for.
pub fn unexpected_event() -> (result: String)
    ensures
        result@ == unexpected(),
{
    "something else happened than what was asked for".to_owned()
}

} // verus!
