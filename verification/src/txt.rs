//! The AirPrint TXT record.
//!
//! These are the DNS-SD TXT keys iOS reads when it decides whether a
//! `_ipp._tcp` instance is an AirPrint printer.  IPP-Everywhere
//! conformance is advertised with the `universal=true` key (and only
//! that way: no `_universal._sub` sub-service is registered), and the
//! `URF` value carries exactly the tokens that the IPP responder
//! advertises as `urf-supported`.

use vstd::prelude::*;

use crate::caps::{join_comma, urf_tokens, urf_value};
use crate::jobs::new_uuid_string;
use crate::text::{ascii_chars, dec_bytes, dec_string};
use std::collections::HashMap;

verus! {

/// The TXT keys of one advertised printer.
#[derive(Debug)]
pub struct AirPrintTxtRecords {
    /// TXT format version; always `1`.
    pub txtvers: String,
    /// Number of queues; always `1`.
    pub qtotal: String,
    /// The accepted document formats; must include `image/urf`.
    pub pdl: String,
    /// The resource path of the print endpoint.
    pub rp: String,
    /// The model name shown to users.
    pub ty: String,
    /// The product name, in parentheses.
    pub product: String,
    /// A human-readable location note.
    pub note: Option<String>,
    /// The URF capability tokens, comma-separated.
    pub urf: String,
    /// Colour support flag, `T` or `F`.
    pub color: String,
    /// Duplex support flag, `T` or `F`.
    pub duplex: String,
    /// Copies support flag, `T` or `F`.
    pub copies: String,
    /// The printer's UUID; iOS uses it as the printer's identity.
    pub uuid: String,
    /// The administration URL.
    pub adminurl: Option<String>,
    /// Advertisement priority.
    pub priority: String,
    /// The kind of material printed.
    pub kind: String,
    /// The largest supported paper size.
    pub paper_max: String,
    /// USB manufacturer hint.
    pub usb_mfg: Option<String>,
    /// USB model hint.
    pub usb_mdl: Option<String>,
    /// USB command-set hint.
    pub usb_cmd: Option<String>,
    /// The printer state, `3` for idle.
    pub printer_state: String,
    /// The printer type bitmask.
    pub printer_type: String,
    /// Authentication; `none`.
    pub air: String,
    /// Scanning support flag.
    pub scan: String,
    /// Fax support flag.
    pub fax: String,
    /// IPP-Everywhere conformance; always `true`.
    pub universal: String,
}

/// The view of an optional string field.
pub open spec fn opt_view(o: Option<String>) -> Option<Seq<char>> {
    match o {
        Some(s) => Some(s@),
        None => None,
    }
}

/// An optional pair: present when the field is.
pub open spec fn opt_pair(key: Seq<char>, v: Option<Seq<char>>) -> Seq<(Seq<char>, Seq<char>)> {
    match v {
        Some(s) => seq![(key, s)],
        None => Seq::<(Seq<char>, Seq<char>)>::empty(),
    }
}

/// Every key/value pair of the record, in registration order.
pub open spec fn txt_pairs_model(t: &AirPrintTxtRecords) -> Seq<(Seq<char>, Seq<char>)> {
    seq![
        ("txtvers"@, t.txtvers@),
        ("qtotal"@, t.qtotal@),
        ("pdl"@, t.pdl@),
        ("rp"@, t.rp@),
        ("ty"@, t.ty@),
        ("product"@, t.product@),
        ("URF"@, t.urf@),
        ("Color"@, t.color@),
        ("Duplex"@, t.duplex@),
        ("Copies"@, t.copies@),
        ("UUID"@, t.uuid@),
        ("priority"@, t.priority@),
        ("kind"@, t.kind@),
        ("PaperMax"@, t.paper_max@),
        ("printer-state"@, t.printer_state@),
        ("printer-type"@, t.printer_type@),
        ("air"@, t.air@),
        ("Scan"@, t.scan@),
        ("Fax"@, t.fax@),
        ("universal"@, t.universal@),
    ] + opt_pair("note"@, opt_view(t.note)) + opt_pair("adminurl"@, opt_view(t.adminurl))
        + opt_pair("usb_MFG"@, opt_view(t.usb_mfg)) + opt_pair("usb_MDL"@, opt_view(t.usb_mdl))
        + opt_pair("usb_CMD"@, opt_view(t.usb_cmd))
}

/// The views of a vector of string pairs.
pub open spec fn pairs_view(v: Seq<(String, String)>) -> Seq<(Seq<char>, Seq<char>)> {
    Seq::new(v.len(), |i: int| (v[i].0@, v[i].1@))
}

/// What `AirPrintTxtRecords::new` builds for a printer: every key
/// pinned — the URF value shared with the IPP responder, the
/// administration URL of `http://<hostname>:<port>/`, the
/// IPP-Everywhere marker `universal=true` — except the UUID, which
/// is fresh and random (only its 36-character shape is fixed).
pub open spec fn fresh_txt_record(
    t: AirPrintTxtRecords,
    printer_name: Seq<char>,
    hostname: Seq<char>,
    port: u16,
) -> bool {
    &&& t.txtvers@ == "1"@
    &&& t.qtotal@ == "1"@
    &&& t.pdl@ == "application/pdf,image/urf,image/jpeg,image/pwg-raster"@
    &&& t.rp@ == "ipp/print"@
    &&& t.ty@ == printer_name
    &&& t.product@ == "("@ + printer_name + ")"@
    &&& opt_view(t.note) == Some("Virtual AirPrint Printer"@)
    &&& t.urf@ == join_comma(urf_tokens())
    &&& t.color@ == "T"@
    &&& t.duplex@ == "T"@
    &&& t.copies@ == "T"@
    &&& t.uuid@.len() == 36
    &&& opt_view(t.adminurl) == Some(
        "http://"@ + hostname + ":"@ + ascii_chars(dec_bytes(port as int)) + "/"@,
    )
    &&& t.priority@ == "25"@
    &&& t.kind@ == "document"@
    &&& t.paper_max@ == "legal-A4"@
    &&& opt_view(t.usb_mfg) == Some("Generic"@)
    &&& opt_view(t.usb_mdl) == Some("AirPrint Virtual"@)
    &&& opt_view(t.usb_cmd) == Some("URF"@)
    &&& t.printer_state@ == "3"@
    &&& t.printer_type@ == "0x0480FFFC"@
    &&& t.air@ == "none"@
    &&& t.scan@ == "F"@
    &&& t.fax@ == "F"@
    &&& t.universal@ == "true"@
}

impl AirPrintTxtRecords {
    /// The records for one printer: the AirPrint-mandated keys, the
    /// URF tokens shared with the IPP responder, a fresh UUID, and an
    /// administration URL of `http://<hostname>:<port>/`.
    pub fn new(printer_name: &str, hostname: &str, port: u16) -> (t: AirPrintTxtRecords)
        ensures
            fresh_txt_record(t, printer_name@, hostname@, port),
    {
        let mut product = String::from_str("(");
        product.append(printer_name);
        product.append(")");
        let mut adminurl = String::from_str("http://");
        adminurl.append(hostname);
        adminurl.append(":");
        let port_str = dec_string(port as u64);
        adminurl.append(port_str.as_str());
        adminurl.append("/");
        AirPrintTxtRecords {
            txtvers: "1".to_owned(),
            qtotal: "1".to_owned(),
            pdl: "application/pdf,image/urf,image/jpeg,image/pwg-raster".to_owned(),
            rp: "ipp/print".to_owned(),
            ty: printer_name.to_owned(),
            product,
            note: Some("Virtual AirPrint Printer".to_owned()),
            urf: urf_value(),
            color: "T".to_owned(),
            duplex: "T".to_owned(),
            copies: "T".to_owned(),
            uuid: new_uuid_string(),
            adminurl: Some(adminurl),
            priority: "25".to_owned(),
            kind: "document".to_owned(),
            paper_max: "legal-A4".to_owned(),
            usb_mfg: Some("Generic".to_owned()),
            usb_mdl: Some("AirPrint Virtual".to_owned()),
            usb_cmd: Some("URF".to_owned()),
            printer_state: "3".to_owned(),
            printer_type: "0x0480FFFC".to_owned(),
            air: "none".to_owned(),
            scan: "F".to_owned(),
            fax: "F".to_owned(),
            universal: "true".to_owned(),
        }
    }

    /// Every key/value pair, in registration order; this is the exact
    /// content handed to the mDNS daemon.
    pub fn to_pairs(&self) -> (r: Vec<(String, String)>)
        ensures
            pairs_view(r@) =~= txt_pairs_model(self),
    {
        let mut out: Vec<(String, String)> = Vec::new();
        out.push(("txtvers".to_owned(), self.txtvers.clone()));
        out.push(("qtotal".to_owned(), self.qtotal.clone()));
        out.push(("pdl".to_owned(), self.pdl.clone()));
        out.push(("rp".to_owned(), self.rp.clone()));
        out.push(("ty".to_owned(), self.ty.clone()));
        out.push(("product".to_owned(), self.product.clone()));
        out.push(("URF".to_owned(), self.urf.clone()));
        out.push(("Color".to_owned(), self.color.clone()));
        out.push(("Duplex".to_owned(), self.duplex.clone()));
        out.push(("Copies".to_owned(), self.copies.clone()));
        out.push(("UUID".to_owned(), self.uuid.clone()));
        out.push(("priority".to_owned(), self.priority.clone()));
        out.push(("kind".to_owned(), self.kind.clone()));
        out.push(("PaperMax".to_owned(), self.paper_max.clone()));
        out.push(("printer-state".to_owned(), self.printer_state.clone()));
        out.push(("printer-type".to_owned(), self.printer_type.clone()));
        out.push(("air".to_owned(), self.air.clone()));
        out.push(("Scan".to_owned(), self.scan.clone()));
        out.push(("Fax".to_owned(), self.fax.clone()));
        out.push(("universal".to_owned(), self.universal.clone()));
        match &self.note {
            Some(v) => {
                out.push(("note".to_owned(), v.clone()));
            },
            None => {},
        }
        match &self.adminurl {
            Some(v) => {
                out.push(("adminurl".to_owned(), v.clone()));
            },
            None => {},
        }
        match &self.usb_mfg {
            Some(v) => {
                out.push(("usb_MFG".to_owned(), v.clone()));
            },
            None => {},
        }
        match &self.usb_mdl {
            Some(v) => {
                out.push(("usb_MDL".to_owned(), v.clone()));
            },
            None => {},
        }
        match &self.usb_cmd {
            Some(v) => {
                out.push(("usb_CMD".to_owned(), v.clone()));
            },
            None => {},
        }
        out
    }

    /// The pairs as a `HashMap`, for callers that want keyed lookup.
    /// The statement of what the record holds lives on
    /// [`Self::to_pairs`]; a map keyed by `String` is beyond what the
    /// verifier can usefully describe.
    pub fn to_hashmap(&self) -> HashMap<String, String> {
        let pairs = self.to_pairs();
        let mut map: HashMap<String, String> = HashMap::new();
        let mut i: usize = 0;
        while i < pairs.len()
            decreases pairs.len() - i,
        {
            let (k, v) = &pairs[i];
            map.insert(k.clone(), v.clone());
            i = i + 1;
        }
        map
    }
}

} // verus!
