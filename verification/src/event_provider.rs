//! The subsystem that wrote a record.

use vstd::prelude::*;
use crate::record::AuditRecord;
use crate::text::same_text;

verus! {

/// The providers whose records are looked at, and one for all others.
#[derive(Clone, Copy, Debug, PartialEq, Eq, Structural)]
pub enum EventProvider {
    TerminalServicesRemoteConnectionManager,
    TerminalServicesLocalConnectionManager,
    SecurityAuditing,
    DesktopWindowManager,
    UnsupportedProvider,
}

/// The text at `Event.System.Provider.#attributes.Name`.
pub open spec fn provider_name_of(record: AuditRecord) -> Option<Seq<char>> {
    match record.data.member3("Event"@, "System"@, "Provider"@) {
        Some(provider) => match provider.member2("#attributes"@, "Name"@) {
            Some(name) => name.text(),
            None => None,
        },
        None => None,
    }
}

impl EventProvider {
    /// The name under which the provider signs its records.
    pub open spec fn label(self) -> Seq<char> {
        match self {
            EventProvider::TerminalServicesRemoteConnectionManager => "Microsoft-Windows-Terminal-Services-RemoteConnectionManager"@,
            EventProvider::TerminalServicesLocalConnectionManager => "Microsoft-Windows-TerminalServices-LocalSessionManager"@,
            EventProvider::SecurityAuditing => "Microsoft-Windows-Security-Auditing"@,
            EventProvider::DesktopWindowManager => "Desktop Window Manager"@,
            EventProvider::UnsupportedProvider => "UNSUPPORTED PROVIDER"@,
        }
    }

    /// The name under which the provider signs its records.
    pub fn name(&self) -> (text: &'static str)
        ensures
            text@ == self.label(),
    {
        match self {
            EventProvider::TerminalServicesRemoteConnectionManager => "Microsoft-Windows-Terminal-Services-RemoteConnectionManager",
            EventProvider::TerminalServicesLocalConnectionManager => "Microsoft-Windows-TerminalServices-LocalSessionManager",
            EventProvider::SecurityAuditing => "Microsoft-Windows-Security-Auditing",
            EventProvider::DesktopWindowManager => "Desktop Window Manager",
            EventProvider::UnsupportedProvider => "UNSUPPORTED PROVIDER",
        }
    }

    /// The provider that signs as `name`; every name that is not known
    /// stands for `UnsupportedProvider`.
    pub open spec fn named(name: Seq<char>) -> EventProvider {
        if name == EventProvider::TerminalServicesRemoteConnectionManager.label() {
            EventProvider::TerminalServicesRemoteConnectionManager
        } else if name == EventProvider::TerminalServicesLocalConnectionManager.label() {
            EventProvider::TerminalServicesLocalConnectionManager
        } else if name == EventProvider::SecurityAuditing.label() {
            EventProvider::SecurityAuditing
        } else if name == EventProvider::DesktopWindowManager.label() {
            EventProvider::DesktopWindowManager
        } else {
            EventProvider::UnsupportedProvider
        }
    }

    /// The provider that signs as `name`.
    pub fn from_name(name: &str) -> (provider: EventProvider)
        ensures
            provider == Self::named(name@),
    {
        if same_text(name, EventProvider::TerminalServicesRemoteConnectionManager.name()) {
            EventProvider::TerminalServicesRemoteConnectionManager
        } else if same_text(name, EventProvider::TerminalServicesLocalConnectionManager.name()) {
            EventProvider::TerminalServicesLocalConnectionManager
        } else if same_text(name, EventProvider::SecurityAuditing.name()) {
            EventProvider::SecurityAuditing
        } else if same_text(name, EventProvider::DesktopWindowManager.name()) {
            EventProvider::DesktopWindowManager
        } else {
            EventProvider::UnsupportedProvider
        }
    }

    /// The provider of `record`; a record that names none has an unsupported one.
    pub open spec fn of_record(record: AuditRecord) -> EventProvider {
        match provider_name_of(record) {
            Some(name) => Self::named(name),
            None => EventProvider::UnsupportedProvider,
        }
    }

    /// Reads the provider of `record`.
    pub fn try_from(record: &AuditRecord) -> (provider: EventProvider)
        ensures
            provider == Self::of_record(*record),
    {
        let name: Option<&str> = match record.data.get3("Event", "System", "Provider") {
            Some(provider) => match provider.get2("#attributes", "Name") {
                Some(name) => name.as_str(),
                None => None,
            },
            None => None,
        };
        match name {
            Some(name) => Self::from_name(name),
            None => EventProvider::UnsupportedProvider,
        }
    }
}

} // verus!
