//! What a run is asked to do and in which encoding it answers.

use vstd::prelude::*;

verus! {

/// The encodings of the output.
#[derive(Clone, Copy, Debug, PartialEq, Eq, Structural)]
pub enum Format {
    Json,
    Markdown,
    Csv,
    LaTeX,
    Dot,
}

/// The views that a run can be asked for.
#[derive(Clone, Debug, PartialEq, Eq)]
pub enum Command {
    /// The lineage forest of the processes of one log.
    PsTree {
        /// Show only the processes of this user, given as a regular
        /// expression that is matched without regard to case.
        username: Option<String>,
        /// The log to read.
        evtx_file: String,
    },
    /// All sessions of some logs.
    Sessions {
        /// Where the logs are.
        evtx_files_dir: String,
        /// Whether sessions without a known user are shown too.
        include_anonymous: bool,
    },
    /// One session.
    Session {
        /// Where the logs are.
        evtx_files_dir: String,
        /// The text of the session's key.
        session_id: String,
    },
}

impl Format {
    /// The word by which the encoding is chosen.
    pub open spec fn word(self) -> Seq<char> {
        match self {
            Format::Json => "json"@,
            Format::Markdown => "markdown"@,
            Format::Csv => "csv"@,
            Format::LaTeX => "latex"@,
            Format::Dot => "dot"@,
        }
    }

    /// The word by which the encoding is chosen.
    pub fn name(&self) -> (text: &'static str)
        ensures
            text@ == self.word(),
    {
        match self {
            Format::Json => "json",
            Format::Markdown => "markdown",
            Format::Csv => "csv",
            Format::LaTeX => "latex",
            Format::Dot => "dot",
        }
    }

    /// The encoding in which sessions are shown where none is asked for.
    pub fn default_for_sessions() -> (format: Format)
        ensures
            format == Format::Csv,
    {
        Format::Csv
    }
}

impl Command {
    /// Whether the anonymous sessions take part in the view: in the view
    /// of one session always, in the view of all sessions on demand.
    pub open spec fn wants_anonymous(self) -> bool {
        match self {
            Command::PsTree { .. } => false,
            Command::Sessions { include_anonymous, .. } => include_anonymous,
            Command::Session { .. } => true,
        }
    }

    /// Whether the anonymous sessions take part in the view.
    pub fn includes_anonymous(&self) -> (wanted: bool)
        ensures
            wanted == self.wants_anonymous(),
    {
        match self {
            Command::PsTree { .. } => false,
            Command::Sessions { include_anonymous, .. } => *include_anonymous,
            Command::Session { .. } => true,
        }
    }
}

} // verus!
