//! The printer handle the coordinator shares: the host's id and name
//! for a printer and its last known status.

use vstd::prelude::*;

verus! {

/// The status a host printer was last seen in.
#[derive(Debug, Clone)]
pub enum PrinterStatus {
    Online,
    Offline,
    Busy,
    Error(String),
}

impl PrinterStatus {
    /// The lowercase keyword for this status.
    pub fn as_str(&self) -> (r: &'static str)
        ensures
            r@ == match self {
                PrinterStatus::Online => "online"@,
                PrinterStatus::Offline => "offline"@,
                PrinterStatus::Busy => "busy"@,
                PrinterStatus::Error(_) => "error"@,
            },
    {
        match self {
            PrinterStatus::Online => "online",
            PrinterStatus::Offline => "offline",
            PrinterStatus::Busy => "busy",
            PrinterStatus::Error(_) => "error",
        }
    }
}

/// One host printer.  Its identity is `id`; `name` is what humans and
/// the mDNS advertisement see.
#[derive(Debug)]
pub struct Printer {
    pub name: String,
    pub id: String,
    pub status: PrinterStatus,
}

impl Printer {
    /// A field-by-field copy.
    pub fn duplicate(&self) -> (r: Printer)
        ensures
            r.id@ == self.id@,
            r.name@ == self.name@,
            r.status == self.status,
    {
        Printer {
            name: self.name.clone(),
            id: self.id.clone(),
            status: match &self.status {
                PrinterStatus::Online => PrinterStatus::Online,
                PrinterStatus::Offline => PrinterStatus::Offline,
                PrinterStatus::Busy => PrinterStatus::Busy,
                PrinterStatus::Error(s) => PrinterStatus::Error(s.clone()),
            },
        }
    }
}

} // verus!
