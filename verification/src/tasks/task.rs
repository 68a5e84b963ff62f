//! What a user can ask of the assistant.
use vstd::prelude::*;

verus! {

/// One bounded JSON object per line. The model cannot create or execute these events.
#[derive(Debug)]
pub enum Task {
    Status,
    Ask { text: String, complex: bool },
    Email { path: String },
    Research { query: String },
    Discord { channel: String },
    Speak { text: String },
    Listen,
    Quit,
}

pub enum TaskView {
    Status,
    Ask { text: Seq<char>, complex: bool },
    Email { path: Seq<char> },
    Research { query: Seq<char> },
    Discord { channel: Seq<char> },
    Speak { text: Seq<char> },
    Listen,
    Quit,
}

impl View for Task {
    type V = TaskView;

    open spec fn view(&self) -> TaskView {
        match self {
            Task::Status => TaskView::Status,
            Task::Ask { text, complex } => TaskView::Ask { text: text@, complex: *complex },
            Task::Email { path } => TaskView::Email { path: path@ },
            Task::Research { query } => TaskView::Research { query: query@ },
            Task::Discord { channel } => TaskView::Discord { channel: channel@ },
            Task::Speak { text } => TaskView::Speak { text: text@ },
            Task::Listen => TaskView::Listen,
            Task::Quit => TaskView::Quit,
        }
    }
}

} // verus!
