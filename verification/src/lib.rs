//! A verified core for sharing local printers to AirPrint clients.
//!
//! The crate covers three cooperating pieces: an IPP/2.0 wire codec and
//! request dispatcher, an mDNS/DNS-SD advertiser that publishes the
//! AirPrint TXT records, and a lifecycle coordinator that binds a shared
//! printer to both.  Network listeners, host printer enumeration and file
//! I/O live in the embedding application; everything that decides or
//! computes is here, with contracts.

pub mod airprint;
pub mod caps;
pub mod errors;
pub mod ipp_decode;
pub mod ipp_msg;
pub mod ipp_options;
pub mod ipp_respond;
pub mod jobs;
pub mod lang;
pub mod mdns;
pub mod models;
pub mod resolver;
pub mod text;
pub mod txt;
