//! The fields of a process-creation event.

use vstd::prelude::*;
use crate::record::{AuditRecord, Timestamp, event_code_of, event_text_of};
use crate::text::{digits, hex_value, number_text, pad_left, padded, parse_hex};

verus! {

/// The event code under which the creation of a process is audited.
pub const PROCESS_CREATION: u64 = 4688;

/// What a process-creation event says of the new process. The two process
/// identifiers are those of the operating system, which uses one again once
/// its process has ended: only together with `timestamp` does
/// `new_process_id` name one process.
#[derive(Clone, Debug)]
pub struct Process {
    pub timestamp: Timestamp,
    pub event_record_id: u64,
    pub subject_user_sid: String,
    pub subject_user_name: String,
    pub subject_domain_name: String,
    pub subject_logon_id: String,
    pub new_process_id: u64,
    pub new_process_name: String,
    pub token_elevation_type: String,
    pub process_id: u64,
    pub command_line: String,
    pub target_user_sid: String,
    pub target_user_name: String,
    pub target_domain_name: String,
    pub target_logon_id: String,
    pub parent_process_name: String,
    pub mandatory_label: String,
}

/// A `Process` with its texts as sequences of characters.
pub struct ProcessView {
    pub timestamp: Timestamp,
    pub event_record_id: u64,
    pub subject_user_sid: Seq<char>,
    pub subject_user_name: Seq<char>,
    pub subject_domain_name: Seq<char>,
    pub subject_logon_id: Seq<char>,
    pub new_process_id: u64,
    pub new_process_name: Seq<char>,
    pub token_elevation_type: Seq<char>,
    pub process_id: u64,
    pub command_line: Seq<char>,
    pub target_user_sid: Seq<char>,
    pub target_user_name: Seq<char>,
    pub target_domain_name: Seq<char>,
    pub target_logon_id: Seq<char>,
    pub parent_process_name: Seq<char>,
    pub mandatory_label: Seq<char>,
}

impl View for Process {
    type V = ProcessView;

    open spec fn view(&self) -> ProcessView {
        ProcessView {
            timestamp: self.timestamp,
            event_record_id: self.event_record_id,
            subject_user_sid: self.subject_user_sid@,
            subject_user_name: self.subject_user_name@,
            subject_domain_name: self.subject_domain_name@,
            subject_logon_id: self.subject_logon_id@,
            new_process_id: self.new_process_id,
            new_process_name: self.new_process_name@,
            token_elevation_type: self.token_elevation_type@,
            process_id: self.process_id,
            command_line: self.command_line@,
            target_user_sid: self.target_user_sid@,
            target_user_name: self.target_user_name@,
            target_domain_name: self.target_domain_name@,
            target_logon_id: self.target_logon_id@,
            parent_process_name: self.parent_process_name@,
            mandatory_label: self.mandatory_label@,
        }
    }
}

/// Why a record gives no `Process`.
#[derive(Clone, Copy, Debug, PartialEq, Eq, Structural)]
pub enum ProcessError {
    /// The record has no event code, or another one than that of a process creation.
    NotProcessCreation,
    /// A field that a process creation must carry is absent, is no text, or
    /// is no hexadecimal number where it holds a process identifier.
    Malformed,
}

/// The hexadecimal number at `Event.EventData.<key>`.
pub open spec fn event_hex_of(data: crate::value::FieldValue, key: Seq<char>) -> Option<u64> {
    match event_text_of(data, key) {
        Some(text) => hex_value(text),
        None => None,
    }
}

fn hex_field(record: &AuditRecord, key: &str) -> (number: Option<u64>)
    ensures
        number == event_hex_of(record.data, key@),
{
    match record.event_text(key) {
        Some(s) => parse_hex(s),
        None => None,
    }
}

/// The line that shows a process created at the instant written as
/// `created`: its image, its identifier in hexadecimal with at least four
/// digits, the instant, and the user for whom it was started.
pub open spec fn line_of(process: ProcessView, created: Seq<char>) -> Seq<char> {
    "`"@ + process.new_process_name + "` (`0x"@ + padded(
        digits(process.new_process_id as nat, 16),
        4,
        '0',
    ) + "`, created *`"@ + created + "`*, user is `"@ + process.target_user_name + "`)"@
}

impl Process {
    /// Writes the line that shows the process, given the text of its instant.
    pub fn describe_with(&self, created: &str) -> (line: String)
        ensures
            line@ == line_of(self@, created@),
    {
        proof {
            reveal_strlit("0");
        }
        let number = pad_left(number_text(self.new_process_id, 16), 4, "0");
        let mut line = String::from_str("`");
        line.append(self.new_process_name.as_str());
        line.append("` (`0x");
        line.append(number.as_str());
        line.append("`, created *`");
        line.append(created);
        line.append("`*, user is `");
        line.append(self.target_user_name.as_str());
        line.append("`)");
        line
    }

    /// Writes the line that shows the process, with its instant cut to
    /// whole seconds; `None` where the instant has no text.
    pub fn describe(&self) -> (line: Option<String>)
        ensures
            match line {
                Some(l) => self.timestamp.text(true) matches Some(created) && l@ == line_of(
                    self@,
                    created,
                ),
                None => self.timestamp.text(true) is None,
            },
    {
        match self.timestamp.to_rfc3339(true) {
            Some(created) => Some(self.describe_with(created.as_str())),
            None => None,
        }
    }

    /// Every field of a process creation is there and well-formed.
    pub open spec fn complete(record: AuditRecord) -> bool {
        &&& event_text_of(record.data, "SubjectUserSid"@) is Some
        &&& event_text_of(record.data, "SubjectUserName"@) is Some
        &&& event_text_of(record.data, "SubjectDomainName"@) is Some
        &&& event_text_of(record.data, "SubjectLogonId"@) is Some
        &&& event_hex_of(record.data, "NewProcessId"@) is Some
        &&& event_text_of(record.data, "NewProcessName"@) is Some
        &&& event_text_of(record.data, "TokenElevationType"@) is Some
        &&& event_hex_of(record.data, "ProcessId"@) is Some
        &&& event_text_of(record.data, "CommandLine"@) is Some
        &&& event_text_of(record.data, "TargetUserSid"@) is Some
        &&& event_text_of(record.data, "TargetUserName"@) is Some
        &&& event_text_of(record.data, "TargetDomainName"@) is Some
        &&& event_text_of(record.data, "TargetLogonId"@) is Some
        &&& event_text_of(record.data, "ParentProcessName"@) is Some
        &&& event_text_of(record.data, "MandatoryLabel"@) is Some
    }

    /// The fields as `record` gives them.
    pub open spec fn fields_of(record: AuditRecord) -> ProcessView {
        ProcessView {
            timestamp: record.timestamp,
            event_record_id: record.event_record_id,
            subject_user_sid: event_text_of(record.data, "SubjectUserSid"@).unwrap(),
            subject_user_name: event_text_of(record.data, "SubjectUserName"@).unwrap(),
            subject_domain_name: event_text_of(record.data, "SubjectDomainName"@).unwrap(),
            subject_logon_id: event_text_of(record.data, "SubjectLogonId"@).unwrap(),
            new_process_id: event_hex_of(record.data, "NewProcessId"@).unwrap(),
            new_process_name: event_text_of(record.data, "NewProcessName"@).unwrap(),
            token_elevation_type: event_text_of(record.data, "TokenElevationType"@).unwrap(),
            process_id: event_hex_of(record.data, "ProcessId"@).unwrap(),
            command_line: event_text_of(record.data, "CommandLine"@).unwrap(),
            target_user_sid: event_text_of(record.data, "TargetUserSid"@).unwrap(),
            target_user_name: event_text_of(record.data, "TargetUserName"@).unwrap(),
            target_domain_name: event_text_of(record.data, "TargetDomainName"@).unwrap(),
            target_logon_id: event_text_of(record.data, "TargetLogonId"@).unwrap(),
            parent_process_name: event_text_of(record.data, "ParentProcessName"@).unwrap(),
            mandatory_label: event_text_of(record.data, "MandatoryLabel"@).unwrap(),
        }
    }

    /// What `try_from` returns for `record`.
    pub open spec fn parsed(record: AuditRecord) -> Result<ProcessView, ProcessError> {
        if event_code_of(record.data) != Some(PROCESS_CREATION) {
            Err(ProcessError::NotProcessCreation)
        } else if !Self::complete(record) {
            Err(ProcessError::Malformed)
        } else {
            Ok(Self::fields_of(record))
        }
    }

    /// Reads the fields of a process creation out of `record`.
    pub fn try_from(record: &AuditRecord) -> (result: Result<Process, ProcessError>)
        ensures
            match result {
                Ok(process) => Self::parsed(*record) == Ok::<ProcessView, ProcessError>(process@),
                Err(e) => Self::parsed(*record) == Err::<ProcessView, ProcessError>(e),
            },
    {
        match record.event_code() {
            Some(code) => {
                if code != PROCESS_CREATION {
                    return Err(ProcessError::NotProcessCreation);
                }
            },
            None => {
                return Err(ProcessError::NotProcessCreation);
            },
        }
        let subject_user_sid: String = match record.owned_event_text("SubjectUserSid") {
            Some(found) => found,
            None => {
                return Err(ProcessError::Malformed);
            },
        };
        let subject_user_name: String = match record.owned_event_text("SubjectUserName") {
            Some(found) => found,
            None => {
                return Err(ProcessError::Malformed);
            },
        };
        let subject_domain_name: String = match record.owned_event_text("SubjectDomainName") {
            Some(found) => found,
            None => {
                return Err(ProcessError::Malformed);
            },
        };
        let subject_logon_id: String = match record.owned_event_text("SubjectLogonId") {
            Some(found) => found,
            None => {
                return Err(ProcessError::Malformed);
            },
        };
        let new_process_id: u64 = match hex_field(record, "NewProcessId") {
            Some(found) => found,
            None => {
                return Err(ProcessError::Malformed);
            },
        };
        let new_process_name: String = match record.owned_event_text("NewProcessName") {
            Some(found) => found,
            None => {
                return Err(ProcessError::Malformed);
            },
        };
        let token_elevation_type: String = match record.owned_event_text("TokenElevationType") {
            Some(found) => found,
            None => {
                return Err(ProcessError::Malformed);
            },
        };
        let process_id: u64 = match hex_field(record, "ProcessId") {
            Some(found) => found,
            None => {
                return Err(ProcessError::Malformed);
            },
        };
        let command_line: String = match record.owned_event_text("CommandLine") {
            Some(found) => found,
            None => {
                return Err(ProcessError::Malformed);
            },
        };
        let target_user_sid: String = match record.owned_event_text("TargetUserSid") {
            Some(found) => found,
            None => {
                return Err(ProcessError::Malformed);
            },
        };
        let target_user_name: String = match record.owned_event_text("TargetUserName") {
            Some(found) => found,
            None => {
                return Err(ProcessError::Malformed);
            },
        };
        let target_domain_name: String = match record.owned_event_text("TargetDomainName") {
            Some(found) => found,
            None => {
                return Err(ProcessError::Malformed);
            },
        };
        let target_logon_id: String = match record.owned_event_text("TargetLogonId") {
            Some(found) => found,
            None => {
                return Err(ProcessError::Malformed);
            },
        };
        let parent_process_name: String = match record.owned_event_text("ParentProcessName") {
            Some(found) => found,
            None => {
                return Err(ProcessError::Malformed);
            },
        };
        let mandatory_label: String = match record.owned_event_text("MandatoryLabel") {
            Some(found) => found,
            None => {
                return Err(ProcessError::Malformed);
            },
        };
        Ok(Process {
            timestamp: record.timestamp,
            event_record_id: record.event_record_id,
            subject_user_sid,
            subject_user_name,
            subject_domain_name,
            subject_logon_id,
            new_process_id,
            new_process_name,
            token_elevation_type,
            process_id,
            command_line,
            target_user_sid,
            target_user_name,
            target_domain_name,
            target_logon_id,
            parent_process_name,
            mandatory_label,
        })
    }
}

} // verus!
