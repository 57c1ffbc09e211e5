//! Language normalisation and error messages.

use airprinter::errors::{AirPrintError, ParseError};
use airprinter::lang::normalize_language;
use airprinter::models::PrinterStatus;

#[test]
fn regional_codes_reduce_to_base() {
    assert_eq!(normalize_language("zh-CN"), "zh");
    assert_eq!(normalize_language("zh-TW"), "zh");
    assert_eq!(normalize_language("fr-FR"), "fr");
}

#[test]
fn offered_bases_pass_through() {
    assert_eq!(normalize_language("en"), "en");
    assert_eq!(normalize_language("ja"), "ja");
}

#[test]
fn unknown_codes_fall_back_to_english() {
    assert_eq!(normalize_language("eo"), "en");
    assert_eq!(normalize_language("x"), "en");
    assert_eq!(normalize_language(""), "en");
}

#[test]
fn every_error_has_a_message() {
    let errors = vec![
        AirPrintError::AlreadyShared,
        AirPrintError::NotShared,
        AirPrintError::PrinterNotFound,
        AirPrintError::IppStartFailed("x".to_string()),
        AirPrintError::MdnsStartFailed("x".to_string()),
        AirPrintError::InvalidHostname,
        AirPrintError::NoRoutableAddress,
        AirPrintError::IppParseError(ParseError::Short),
        AirPrintError::IppEncodeError,
        AirPrintError::TempFileError,
        AirPrintError::PrintSubmitFailed,
    ];
    for e in errors {
        assert!(!e.message().is_empty());
    }
}

#[test]
fn printer_status_labels() {
    assert_eq!(PrinterStatus::Online.as_str(), "online");
    assert_eq!(PrinterStatus::Offline.as_str(), "offline");
    assert_eq!(PrinterStatus::Busy.as_str(), "busy");
    assert_eq!(PrinterStatus::Error("paper jam".to_string()).as_str(), "error");
}
