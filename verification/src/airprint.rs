//! The lifecycle coordinator.
//!
//! `AirPrintServer` owns the set of currently shared printers, the
//! mDNS broadcaster, and the decision when the IPP listener must run.
//! Binding TCP port 631 is host I/O, so the embedding application
//! opens and closes the listener; it learns when to do either from
//! `ipp_should_run`, and `share` is told through `ipp_up` whether the
//! listener could be brought up.  The invariant that the listener is
//! wanted exactly while at least one printer is shared, and that no
//! printer id is shared twice, holds at every method boundary.

use vstd::prelude::*;

use crate::errors::AirPrintError;
use crate::mdns::{find_service, instance_name, MdnsBroadcaster, RegisteredService};
use crate::models::Printer;
use crate::txt::{fresh_txt_record, pairs_view, txt_pairs_model, AirPrintTxtRecords};
use crate::resolver::{get_local_ip, ip_bytes, is_link_local, normalize_hostname,
    normalized_hostname, IpAddress};
use crate::text::{ascii_chars, bytes_all_ascii, bytes_to_string, ends_with, str_eq};

verus! {

/// The coordinator's record of one shared printer.
#[derive(Debug)]
pub struct SharedPrinterEntry {
    /// The printer as the host reported it.
    pub printer: Printer,
    /// The hostname it is advertised under, ending in `.local.`.
    pub hostname: String,
    /// The address in its mDNS address record.
    pub advertised_ip: IpAddress,
    /// The advertised port (631).
    pub port: u16,
    /// The fully qualified mDNS instance name, for withdrawal.
    pub registered_instance: String,
}

/// Whether some entry carries the given printer id.
pub open spec fn contains_id(s: Seq<SharedPrinterEntry>, id: Seq<char>) -> bool {
    exists|i: int| 0 <= i < s.len() && #[trigger] s[i].printer.id@ == id
}

/// The index of the first entry with the given printer id, or the
/// length of the run.
pub open spec fn find_entry(s: Seq<SharedPrinterEntry>, id: Seq<char>, i: int) -> int
    decreases s.len() - i,
    when 0 <= i <= s.len()
{
    if i == s.len() {
        i
    } else if s[i].printer.id@ == id {
        i
    } else {
        find_entry(s, id, i + 1)
    }
}

/// What a successful share adds to the held mDNS registrations: one
/// record, after the existing ones, carrying the `_ipp._tcp.local.`
/// type, the printer's instance name, the coordinator's hostname and
/// port, the advertised address's text, and the TXT pairs of a fresh
/// record for this printer (spec scenario: instance `air-HP`
/// targeting `hp.local.` on port 631 with the AirPrint TXT keys).
pub open spec fn shared_registration(
    pre: &AirPrintServer,
    post: &AirPrintServer,
    printer_name: Seq<char>,
) -> bool {
    &&& post.registrations().len() == pre.registrations().len() + 1
    &&& post.registrations().take(pre.registrations().len() as int) =~= pre.registrations()
    &&& ({
        let reg = post.registrations().last();
        &&& reg.fullname@ == post@.last().registered_instance@
        &&& reg.service_type@ == "_ipp._tcp.local."@
        &&& (vstd::utf8::is_ascii_chars(printer_name) ==> reg.instance@ == instance_name(
            printer_name,
        ))
        &&& reg.hostname@ == pre.hostname_model()
        &&& reg.port == pre.port_model()
        &&& reg.ip_text@ == ascii_chars(ip_bytes(post@.last().advertised_ip))
        &&& exists|t: AirPrintTxtRecords| #![auto]
            fresh_txt_record(t, printer_name, pre.hostname_model(), pre.port_model())
                && pairs_view(reg.txt@) =~= txt_pairs_model(&t)
    })
}

/// No two entries share a printer id.
pub open spec fn unique_ids(s: Seq<SharedPrinterEntry>) -> bool {
    forall|i: int, j: int|
        0 <= i < j < s.len() ==> #[trigger] s[i].printer.id@ != #[trigger] s[j].printer.id@
}

/// The coordinator.  Its view is the sequence of shared entries in
/// share order.
pub struct AirPrintServer {
    shared: Vec<SharedPrinterEntry>,
    mdns: Option<MdnsBroadcaster>,
    ipp_running: bool,
    hostname: String,
    port: u16,
}

impl View for AirPrintServer {
    type V = Seq<SharedPrinterEntry>;

    closed spec fn view(&self) -> Seq<SharedPrinterEntry> {
        self.shared@
    }
}

/// A hostname the coordinator may advertise: normalised, ASCII, and
/// within the DNS length limit.
pub open spec fn valid_hostname(h: Seq<char>) -> bool {
    &&& ends_with(h, ".local."@)
    &&& h.len() <= 255
    &&& vstd::utf8::is_ascii_chars(h)
}

impl AirPrintServer {
    /// Whether the coordinator wants the IPP listener bound.
    pub closed spec fn ipp_running_model(&self) -> bool {
        self.ipp_running
    }

    /// The configured hostname.
    pub closed spec fn hostname_model(&self) -> Seq<char> {
        self.hostname@
    }

    /// The configured port.
    pub closed spec fn port_model(&self) -> u16 {
        self.port@
    }

    /// The mDNS registrations currently held on the shared printers'
    /// behalf: the broadcaster's record sequence, or empty when no
    /// daemon is running.
    pub closed spec fn registrations(&self) -> Seq<RegisteredService> {
        match self.mdns {
            Some(m) => m.services(),
            None => Seq::<RegisteredService>::empty(),
        }
    }

    /// The coordinator's invariant: ids are unique, the IPP listener
    /// is wanted exactly while something is shared, and the hostname
    /// is advertisable.
    pub open spec fn wf(&self) -> bool {
        &&& unique_ids(self@)
        &&& self.ipp_running_model() == (self@.len() > 0)
        &&& valid_hostname(self.hostname_model())
        &&& self.port_model() == 631
    }

    /// A coordinator with nothing shared, the standard IPP port, and
    /// the default hostname.
    pub fn new() -> (r: AirPrintServer)
        ensures
            r@ =~= Seq::<SharedPrinterEntry>::empty(),
            r.registrations() =~= Seq::<RegisteredService>::empty(),
            !r.ipp_running_model(),
            r.hostname_model() == "airprinter.local."@,
            r.port_model() == 631,
            r.wf(),
    {
        proof {
            reveal_strlit("airprinter.local.");
            reveal_strlit(".local.");
        }
        let r = AirPrintServer {
            shared: Vec::new(),
            mdns: None,
            ipp_running: false,
            hostname: "airprinter.local.".to_owned(),
            port: 631,
        };
        proof {
            assert(r.hostname_model().skip(r.hostname_model().len() - 7) =~= ".local."@);
        }
        r
    }

    /// The same coordinator advertising under another hostname.
    /// `foo.local` is accepted and normalised to `foo.local.`; a name
    /// without the `.local` suffix is rejected with
    /// `InvalidHostname`.
    pub fn with_hostname(self, hostname: &str) -> (r: Result<AirPrintServer, AirPrintError>)
        requires
            self.wf(),
        ensures
            match r {
                Ok(s) => {
                    &&& s@ =~= self@
                    &&& s.registrations() =~= self.registrations()
                    &&& s.ipp_running_model() == self.ipp_running_model()
                    &&& s.port_model() == self.port_model()
                    &&& Some(s.hostname_model()) == normalized_hostname(hostname@)
                    &&& s.wf()
                },
                Err(e) => normalized_hostname(hostname@) is None && e
                    == AirPrintError::InvalidHostname,
            },
    {
        match normalize_hostname(hostname) {
            Ok(h) => {
                proof {
                    crate::resolver::lemma_normalized_hostname_valid(hostname@, h@);
                    assert(valid_hostname(h@));
                }
                Ok(AirPrintServer { hostname: h, ..self })
            },
            Err(e) => Err(e),
        }
    }

    /// Whether the embedding application should have the IPP listener
    /// bound right now.
    pub fn ipp_should_run(&self) -> (r: bool)
        ensures
            r == self.ipp_running_model(),
    {
        self.ipp_running
    }

    /// The configured hostname.
    pub fn hostname(&self) -> (r: String)
        ensures
            r@ == self.hostname_model(),
    {
        self.hostname.clone()
    }

    /// The configured port.
    pub fn port(&self) -> (r: u16)
        ensures
            r == self.port_model(),
    {
        self.port
    }

    /// Share a printer whose advertise address is already known:
    /// reject a duplicate id, make sure the IPP listener is up
    /// (`ipp_up` reports whether the host could bind it), advertise
    /// over mDNS, and record the entry.  On any failure nothing is
    /// recorded and the listener demand is unchanged.
    pub fn share_with_ip(&mut self, printer: Printer, ipp_up: bool, ip: IpAddress) -> (r: Result<
        String,
        AirPrintError,
    >)
        requires
            old(self).wf(),
        ensures
            final(self).wf(),
            final(self).hostname_model() == old(self).hostname_model(),
            final(self).port_model() == old(self).port_model(),
            match r {
                Ok(id) => {
                    &&& id@ == printer.id@
                    &&& !contains_id(old(self)@, printer.id@)
                    &&& ipp_up
                    &&& final(self)@.len() == old(self)@.len() + 1
                    &&& final(self)@.take(old(self)@.len() as int) =~= old(self)@
                    &&& final(self)@.last().printer.id@ == printer.id@
                    &&& final(self)@.last().printer.name@ == printer.name@
                    &&& final(self)@.last().hostname@ == old(self).hostname_model()
                    &&& final(self)@.last().port == old(self).port_model()
                    &&& final(self)@.last().advertised_ip == ip
                    &&& !is_link_local(final(self)@.last().advertised_ip)
                    &&& contains_id(final(self)@, printer.id@)
                    &&& final(self).ipp_running_model()
                    &&& shared_registration(old(self), final(self), printer.name@)
                },
                Err(e) => {
                    &&& final(self)@ =~= old(self)@
                    &&& final(self).registrations() =~= old(self).registrations()
                    &&& final(self).ipp_running_model() == old(self).ipp_running_model()
                    &&& (e is AlreadyShared <==> contains_id(old(self)@, printer.id@))
                    &&& (!contains_id(old(self)@, printer.id@) ==> (e is IppStartFailed <==> !ipp_up
                    ))
                    &&& (!contains_id(old(self)@, printer.id@) && ipp_up ==> (
                    e is NoRoutableAddress <==> is_link_local(ip)))
                    &&& (e is NoRoutableAddress || e is MdnsStartFailed ==> ipp_up && !contains_id(
                        old(self)@,
                        printer.id@,
                    ))
                    &&& (e is AlreadyShared || e is IppStartFailed || e is NoRoutableAddress
                        || e is MdnsStartFailed)
                },
            },
    {
        proof {
            reveal_strlit(".local.");
        }
        // 1. A printer is shared at most once.
        let n = self.shared.len();
        let mut i: usize = 0;
        while i < n
            invariant
                0 <= i <= n,
                n == self.shared@.len(),
                self.shared@ == old(self).shared@,
                self.mdns == old(self).mdns,
                self.ipp_running == old(self).ipp_running,
                self.hostname@ == old(self).hostname@,
                self.port == old(self).port,
                old(self).wf(),
                forall|j: int| 0 <= j < i ==> #[trigger] self.shared@[j].printer.id@ != printer.id@,
            decreases n - i,
        {
            if str_eq(self.shared[i].printer.id.as_str(), printer.id.as_str()) {
                assert(contains_id(self@, printer.id@));
                return Err(AirPrintError::AlreadyShared);
            }
            i = i + 1;
        }
        assert(!contains_id(self@, printer.id@));
        // 2. The host must have the IPP listener up.
        if !ipp_up {
            return Err(AirPrintError::IppStartFailed("could not bind TCP port 631".to_owned()));
        }
        // 3. Only a routable address is worth advertising.
        if crate::resolver::is_link_local_ip(&ip) {
            return Err(AirPrintError::NoRoutableAddress);
        }
        // 4. Advertise over mDNS, creating the daemon on first use.
        // The broadcaster is taken out of its slot while it works and
        // put back on every path, so a registration failure keeps the
        // daemon (and everyone else's registrations) alive.
        let mut broadcaster = match self.mdns.take() {
            Some(m) => m,
            None => {
                match MdnsBroadcaster::new() {
                    Ok(b) => b,
                    Err(e) => {
                        assert(self.registrations() =~= old(self).registrations());
                        return Err(e);
                    },
                }
            },
        };
        assert(broadcaster.services() =~= old(self).registrations());
        let hostname = self.hostname.clone();
        let port = self.port;
        proof {
            assert(ends_with(hostname@, ".local."@));
        }
        let fullname = match broadcaster.broadcast_airprint(
            printer.name.as_str(),
            hostname.as_str(),
            &ip,
            port,
        ) {
            Ok(name) => name,
            Err(e) => {
                proof {
                    assert(!(e is InvalidHostname));
                    assert(!(e is NoRoutableAddress));
                }
                self.mdns = Some(broadcaster);
                assert(self.registrations() =~= old(self).registrations());
                return Err(e);
            },
        };
        self.mdns = Some(broadcaster);
        // 5. Record the entry.
        let id = printer.id.clone();
        let ghost printer_name_view = printer.name@;
        let entry = SharedPrinterEntry {
            printer,
            hostname,
            advertised_ip: ip,
            port,
            registered_instance: fullname,
        };
        self.shared.push(entry);
        self.ipp_running = true;
        proof {
            assert(self@.take(old(self)@.len() as int) =~= old(self)@);
            assert(self@.last().printer.id@ == id@);
            assert(contains_id(self@, id@)) by {
                assert(self@[self@.len() - 1].printer.id@ == id@);
            }
            assert(unique_ids(self@)) by {
                assert(forall|j: int|
                    0 <= j < old(self)@.len() ==> #[trigger] self@[j].printer.id@ == old(
                        self,
                    )@[j].printer.id@);
            }
            assert(self.registrations().take(old(self).registrations().len() as int) =~= old(
                self,
            ).registrations());
            assert(shared_registration(old(self), self, printer_name_view));
        }
        Ok(id)
    }

    /// Share a printer, resolving the advertise address from the
    /// host: `share_with_ip` applied to what the resolver found.
    /// When the host has no routable address the printer is not
    /// shared and the caller gets `NoRoutableAddress`.
    pub fn share(&mut self, printer: Printer, ipp_up: bool) -> (r: Result<String, AirPrintError>)
        requires
            old(self).wf(),
        ensures
            final(self).wf(),
            final(self).hostname_model() == old(self).hostname_model(),
            final(self).port_model() == old(self).port_model(),
            match r {
                Ok(id) => {
                    &&& id@ == printer.id@
                    &&& !contains_id(old(self)@, printer.id@)
                    &&& ipp_up
                    &&& final(self)@.len() == old(self)@.len() + 1
                    &&& final(self)@.take(old(self)@.len() as int) =~= old(self)@
                    &&& final(self)@.last().printer.id@ == printer.id@
                    &&& final(self)@.last().printer.name@ == printer.name@
                    &&& final(self)@.last().hostname@ == old(self).hostname_model()
                    &&& final(self)@.last().port == old(self).port_model()
                    &&& !is_link_local(final(self)@.last().advertised_ip)
                    &&& contains_id(final(self)@, printer.id@)
                    &&& final(self).ipp_running_model()
                    &&& shared_registration(old(self), final(self), printer.name@)
                },
                Err(e) => {
                    &&& final(self)@ =~= old(self)@
                    &&& final(self).registrations() =~= old(self).registrations()
                    &&& final(self).ipp_running_model() == old(self).ipp_running_model()
                    &&& (e is AlreadyShared <==> contains_id(old(self)@, printer.id@))
                    &&& (!contains_id(old(self)@, printer.id@) ==> (e is IppStartFailed <==> !ipp_up
                    ))
                    &&& (e is NoRoutableAddress || e is MdnsStartFailed ==> ipp_up && !contains_id(
                        old(self)@,
                        printer.id@,
                    ))
                    &&& (e is AlreadyShared || e is IppStartFailed || e is NoRoutableAddress
                        || e is MdnsStartFailed)
                },
            },
    {
        let n = self.shared.len();
        let mut i: usize = 0;
        while i < n
            invariant
                0 <= i <= n,
                n == self.shared@.len(),
                self.shared@ == old(self).shared@,
                self.mdns == old(self).mdns,
                self.ipp_running == old(self).ipp_running,
                self.hostname@ == old(self).hostname@,
                self.port == old(self).port,
                old(self).wf(),
                forall|j: int| 0 <= j < i ==> #[trigger] self.shared@[j].printer.id@ != printer.id@,
            decreases n - i,
        {
            if str_eq(self.shared[i].printer.id.as_str(), printer.id.as_str()) {
                assert(contains_id(self@, printer.id@));
                return Err(AirPrintError::AlreadyShared);
            }
            i = i + 1;
        }
        assert(!contains_id(self@, printer.id@));
        if !ipp_up {
            return Err(AirPrintError::IppStartFailed("could not bind TCP port 631".to_owned()));
        }
        let ip = match get_local_ip() {
            Ok(ip) => ip,
            Err(e) => {
                return Err(e);
            },
        };
        self.share_with_ip(printer, ipp_up, ip)
    }

    /// Stop sharing the printer with the given id: withdraw its mDNS
    /// registration and drop its entry.  When the last entry goes,
    /// the daemon is dropped too and the IPP listener is no longer
    /// wanted, freeing port 631.  An id that is not shared is
    /// `NotShared` and changes nothing.
    pub fn stop(&mut self, printer_id: &str) -> (r: Result<(), AirPrintError>)
        requires
            old(self).wf(),
        ensures
            final(self).wf(),
            final(self).hostname_model() == old(self).hostname_model(),
            final(self).port_model() == old(self).port_model(),
            match r {
                Ok(()) => {
                    &&& contains_id(old(self)@, printer_id@)
                    &&& final(self)@ =~= old(self)@.remove(
                        find_entry(old(self)@, printer_id@, 0),
                    )
                    &&& !contains_id(final(self)@, printer_id@)
                    &&& final(self).ipp_running_model() == (final(self)@.len() > 0)
                    // The stopped printer's own mDNS registration is
                    // withdrawn; with the last entry gone the daemon
                    // is dropped and nothing stays registered.
                    &&& ({
                        let fname = old(self)@[find_entry(
                            old(self)@,
                            printer_id@,
                            0,
                        )].registered_instance@;
                        let r0 = old(self).registrations();
                        let j = find_service(r0, fname, 0);
                        if final(self)@.len() == 0 {
                            final(self).registrations() =~= Seq::<RegisteredService>::empty()
                        } else if j < r0.len() {
                            final(self).registrations() =~= r0.remove(j)
                        } else {
                            final(self).registrations() =~= r0
                        }
                    })
                },
                Err(e) => {
                    &&& e == AirPrintError::NotShared
                    &&& !contains_id(old(self)@, printer_id@)
                    &&& final(self)@ =~= old(self)@
                    &&& final(self).registrations() =~= old(self).registrations()
                    &&& final(self).ipp_running_model() == old(self).ipp_running_model()
                },
            },
    {
        let n = self.shared.len();
        let mut i: usize = 0;
        while i < n
            invariant
                0 <= i <= n,
                n == self.shared@.len(),
                self.shared@ == old(self).shared@,
                self.mdns == old(self).mdns,
                self.ipp_running == old(self).ipp_running,
                self.hostname@ == old(self).hostname@,
                self.port == old(self).port,
                old(self).wf(),
                find_entry(self.shared@, printer_id@, i as int) == find_entry(
                    self.shared@,
                    printer_id@,
                    0,
                ),
                forall|j: int| 0 <= j < i ==> #[trigger] self.shared@[j].printer.id@ != printer_id@,
            decreases n - i,
        {
            if str_eq(self.shared[i].printer.id.as_str(), printer_id) {
                let entry = self.shared.remove(i);
                match self.mdns.take() {
                    Some(mut m) => {
                        m.withdraw(entry.registered_instance.as_str());
                        self.mdns = Some(m);
                    },
                    None => {},
                }
                if self.shared.len() == 0 {
                    self.ipp_running = false;
                    self.mdns = None;
                }
                proof {
                    assert(contains_id(old(self)@, printer_id@)) by {
                        assert(old(self)@[i as int].printer.id@ == printer_id@);
                    }
                    assert(find_entry(old(self)@, printer_id@, 0) == i);
                    assert(self@ =~= old(self)@.remove(i as int));
                    assert(!contains_id(self@, printer_id@)) by {
                        assert forall|k: int|
                            0 <= k < self@.len() implies #[trigger] self@[k].printer.id@
                            != printer_id@ by {
                            if k < i {
                                assert(self@[k] == old(self)@[k]);
                            } else {
                                assert(self@[k] == old(self)@[k + 1]);
                                assert(old(self)@[i as int].printer.id@ == printer_id@);
                            }
                        };
                    }
                    assert(unique_ids(self@)) by {
                        assert forall|p: int, q: int|
                            0 <= p < q < self@.len() implies #[trigger] self@[p].printer.id@
                            != #[trigger] self@[q].printer.id@ by {
                            let p0: int = if p < i {
                                p
                            } else {
                                p + 1
                            };
                            let q0: int = if q < i {
                                q
                            } else {
                                q + 1
                            };
                            assert(self@[p] == old(self)@[p0]);
                            assert(self@[q] == old(self)@[q0]);
                        };
                    }
                }
                return Ok(());
            }
            i = i + 1;
        }
        assert(!contains_id(self@, printer_id@));
        Err(AirPrintError::NotShared)
    }

    /// Re-register every mDNS advertisement, defending against stale
    /// caches; the heartbeat calls this once a minute.  Nothing held
    /// changes.
    pub fn renew_advertisements(&self) {
        match &self.mdns {
            Some(m) => m.renew_all(),
            None => {},
        }
    }

    /// Whether the printer with the given id is currently shared.
    pub fn is_shared(&self, printer_id: &str) -> (r: bool)
        ensures
            r == contains_id(self@, printer_id@),
    {
        let n = self.shared.len();
        let mut i: usize = 0;
        while i < n
            invariant
                0 <= i <= n,
                n == self.shared@.len(),
                forall|j: int| 0 <= j < i ==> #[trigger] self.shared@[j].printer.id@ != printer_id@,
            decreases n - i,
        {
            if str_eq(self.shared[i].printer.id.as_str(), printer_id) {
                assert(contains_id(self@, printer_id@));
                return true;
            }
            i = i + 1;
        }
        assert(!contains_id(self@, printer_id@));
        false
    }

    /// A snapshot of the shared printers, in share order.
    pub fn get_shared_printers(&self) -> (r: Vec<Printer>)
        ensures
            r@.len() == self@.len(),
            forall|i: int|
                0 <= i < r@.len() ==> #[trigger] r@[i].id@ == self@[i].printer.id@ && r@[i].name@
                    == self@[i].printer.name@ && r@[i].status == self@[i].printer.status,
    {
        let n = self.shared.len();
        let mut out: Vec<Printer> = Vec::new();
        let mut i: usize = 0;
        while i < n
            invariant
                0 <= i <= n,
                n == self.shared@.len(),
                out@.len() == i,
                forall|j: int|
                    0 <= j < i ==> #[trigger] out@[j].id@ == self.shared@[j].printer.id@
                        && out@[j].name@ == self.shared@[j].printer.name@ && out@[j].status
                        == self.shared@[j].printer.status,
            decreases n - i,
        {
            out.push(self.shared[i].printer.duplicate());
            i = i + 1;
        }
        out
    }

    /// A `.local.` hostname derived from a printer's name: lowercase,
    /// with spaces, underscores and dots dashed.  For an ASCII name
    /// the result is pinned exactly.  Non-ASCII characters pass
    /// through unchanged — only ASCII letters are lowercased, no
    /// Unicode case mapping — and for such names the contract is
    /// silent.  Note that a name with non-ASCII characters then
    /// yields a hostname `normalize_hostname` would reject, as DNS
    /// itself would.
    pub fn generate_hostname(printer_name: &str) -> (r: String)
        ensures
            printer_name.is_ascii() ==> r@ == hostified(printer_name@),
    {
        proof {
            reveal_strlit(".local.");
        }
        let bytes = printer_name.as_bytes_vec();
        let mut mapped: Vec<u8> = Vec::new();
        let mut i: usize = 0;
        while i < bytes.len()
            invariant
                0 <= i <= bytes.len(),
                mapped@.len() == i,
                forall|j: int|
                    0 <= j < i ==> #[trigger] mapped@[j] == hostify_byte(bytes@[j]),
            decreases bytes.len() - i,
        {
            let b = bytes[i];
            let m: u8 = if b == 32 || b == 95 || b == 46 {
                45
            } else if b >= 65 && b <= 90 {
                b + 32
            } else {
                b
            };
            mapped.push(m);
            i = i + 1;
        }
        let mut out = bytes_to_string(&mapped);
        out.append(".local.");
        proof {
            if printer_name.is_ascii() {
                vstd::string::is_ascii_spec_bytes(printer_name);
                assert(bytes_all_ascii(mapped@));
                assert(ascii_chars(mapped@) =~= Seq::new(
                    printer_name@.len(),
                    |i: int| hostify_char(printer_name@[i]),
                ));
                assert(out@ =~= hostified(printer_name@));
            }
        }
        out
    }
}

/// One byte of a name, lowercased with separators dashed.
pub open spec fn hostify_byte(b: u8) -> u8 {
    if b == 32 || b == 95 || b == 46 {
        45
    } else if 65 <= b <= 90 {
        (b + 32) as u8
    } else {
        b
    }
}

/// One character of a name, lowercased with separators dashed.
pub open spec fn hostify_char(c: char) -> char {
    if c == ' ' || c == '_' || c == '.' {
        '-'
    } else if 'A' <= c <= 'Z' {
        ((c as u8) + 32) as char
    } else {
        c
    }
}

/// The hostname derived from a printer name.
pub open spec fn hostified(s: Seq<char>) -> Seq<char> {
    Seq::new(s.len(), |i: int| hostify_char(s[i])) + ".local."@
}

/// Sharing a printer and then stopping it leaves the coordinator
/// empty again: the one entry a share of `e` adds to an empty
/// coordinator is exactly what a stop of `e`'s id removes, after
/// which nothing is shared and the IPP port is no longer held.
pub proof fn lemma_share_stop_round_trip(e: SharedPrinterEntry)
    ensures
        find_entry(seq![e], e.printer.id@, 0) == 0,
        seq![e].remove(0) =~= Seq::<SharedPrinterEntry>::empty(),
        !contains_id(seq![e].remove(0), e.printer.id@),
{
    assert(seq![e][0].printer.id@ == e.printer.id@);
}

/// Shares of printers with pairwise distinct ids never collide:
/// each one finds its id absent from everything shared before it, so
/// all of them take the success path and exactly one entry per
/// printer results, in every interleaving the coordinator's lock
/// admits.
pub proof fn lemma_distinct_shares_all_succeed(entries: Seq<SharedPrinterEntry>)
    requires
        forall|i: int, j: int|
            0 <= i < j < entries.len() ==> #[trigger] entries[i].printer.id@
                != #[trigger] entries[j].printer.id@,
    ensures
        forall|k: int|
            0 <= k < entries.len() ==> !contains_id(
                entries.take(k),
                #[trigger] entries[k].printer.id@,
            ),
        unique_ids(entries),
{
    assert forall|k: int| 0 <= k < entries.len() implies !contains_id(
        entries.take(k),
        #[trigger] entries[k].printer.id@,
    ) by {
        if contains_id(entries.take(k), entries[k].printer.id@) {
            let w = choose|w: int|
                0 <= w < entries.take(k).len() && #[trigger] entries.take(k)[w].printer.id@
                    == entries[k].printer.id@;
            assert(entries[w].printer.id@ == entries[k].printer.id@);
        }
    };
}

} // verus!
