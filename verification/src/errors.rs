//! Error kinds of the library.

use vstd::prelude::*;

verus! {

/// Why a byte sequence was rejected by the IPP decoder.
#[derive(Clone, Copy, Debug, PartialEq, Eq, Structural)]
pub enum ParseError {
    /// Fewer than nine bytes: not even a full message header.
    Short,
    /// A group delimiter tag outside the known set.
    BadTag,
    /// A declared length runs past the end of the input.
    Truncated,
    /// A value whose length contradicts its tag (boolean not 1 byte,
    /// integer or enum not 4 bytes).
    BadValue,
}

/// Every failure the library reports to its callers.
#[derive(Clone, Debug, PartialEq, Eq)]
pub enum AirPrintError {
    /// `share` was called for a printer id that is already shared.
    AlreadyShared,
    /// `stop` was called for a printer id that is not shared.
    NotShared,
    /// The requested printer does not exist on the host.
    PrinterNotFound,
    /// The IPP listener could not be started.
    IppStartFailed(String),
    /// The mDNS daemon or a service registration failed.
    MdnsStartFailed(String),
    /// A hostname does not end with `.local` or `.local.`.
    InvalidHostname,
    /// No non-link-local address is available for advertisement.
    NoRoutableAddress,
    /// An IPP request could not be decoded.
    IppParseError(ParseError),
    /// An IPP response could not be encoded.
    IppEncodeError,
    /// A spool file could not be written.
    TempFileError,
    /// The host printing subsystem rejected a job.
    PrintSubmitFailed,
}

impl AirPrintError {
    /// A short English description; the embedding application may
    /// translate it before showing it to a user.
    pub fn message(&self) -> (r: String)
        ensures
            r@ == match self {
                AirPrintError::AlreadyShared => "printer is already shared"@,
                AirPrintError::NotShared => "printer is not shared"@,
                AirPrintError::PrinterNotFound => "printer not found"@,
                AirPrintError::IppStartFailed(_) => "failed to start the IPP server"@,
                AirPrintError::MdnsStartFailed(_) => "failed to start mDNS broadcasting"@,
                AirPrintError::InvalidHostname => {
                    "hostname must end with '.local' or '.local.'"@
                },
                AirPrintError::NoRoutableAddress => {
                    "no routable local IP address; the host seems to have no LAN connection"@
                },
                AirPrintError::IppParseError(_) => "malformed IPP request"@,
                AirPrintError::IppEncodeError => "could not encode the IPP response"@,
                AirPrintError::TempFileError => "could not write the spool file"@,
                AirPrintError::PrintSubmitFailed => "the host print command failed"@,
            },
    {
        let s: &str = match self {
            AirPrintError::AlreadyShared => "printer is already shared",
            AirPrintError::NotShared => "printer is not shared",
            AirPrintError::PrinterNotFound => "printer not found",
            AirPrintError::IppStartFailed(_) => "failed to start the IPP server",
            AirPrintError::MdnsStartFailed(_) => "failed to start mDNS broadcasting",
            AirPrintError::InvalidHostname => "hostname must end with '.local' or '.local.'",
            AirPrintError::NoRoutableAddress => {
                "no routable local IP address; the host seems to have no LAN connection"
            },
            AirPrintError::IppParseError(_) => "malformed IPP request",
            AirPrintError::IppEncodeError => "could not encode the IPP response",
            AirPrintError::TempFileError => "could not write the spool file",
            AirPrintError::PrintSubmitFailed => "the host print command failed",
        };
        proof {
            reveal_strlit("printer is already shared");
            reveal_strlit("printer is not shared");
            reveal_strlit("printer not found");
            reveal_strlit("failed to start the IPP server");
            reveal_strlit("failed to start mDNS broadcasting");
            reveal_strlit("hostname must end with '.local' or '.local.'");
            reveal_strlit("no routable local IP address; the host seems to have no LAN connection");
            reveal_strlit("malformed IPP request");
            reveal_strlit("could not encode the IPP response");
            reveal_strlit("could not write the spool file");
            reveal_strlit("the host print command failed");
        }
        s.to_owned()
    }
}

} // verus!
