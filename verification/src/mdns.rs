//! The mDNS/DNS-SD advertiser.
//!
//! One multicast-DNS daemon serves the whole process.  Each shared
//! printer is registered as one `_ipp._tcp.local.` instance whose TXT
//! record carries `universal=true` (the IPP-Everywhere marker; no
//! `_universal._sub` sub-service is registered, so exactly one of the
//! two conformance signals appears).  The daemon itself is reached
//! only through the trusted wrappers below; which names are
//! registered, what their TXT records hold, and when a registration
//! is renewed or withdrawn is decided by verified code.

use vstd::prelude::*;

use crate::errors::AirPrintError;
use crate::resolver::{ip_bytes, ip_to_string, is_link_local, is_link_local_ip, IpAddress};
use crate::text::{ascii_chars, bytes_all_ascii, bytes_to_string, ends_with, str_eq,
    str_ends_with};
use crate::txt::{fresh_txt_record, pairs_view, txt_pairs_model, AirPrintTxtRecords};

verus! {

/// Declares `mdns_sd::ServiceDaemon` — the handle to the daemon
/// thread that owns the multicast sockets — so values of it can be
/// held and passed; the verifier sees nothing inside it.
#[verifier::external_type_specification]
#[verifier::external_body]
pub struct ExServiceDaemon(mdns_sd::ServiceDaemon);

/// Declares `mdns_sd::ServiceInfo` — one service registration record
/// — so values of it can be carried from construction to
/// registration; the verifier sees nothing inside it.
#[verifier::external_type_specification]
#[verifier::external_body]
pub struct ExServiceInfo(mdns_sd::ServiceInfo);

/// Relies on `mdns_sd::ServiceDaemon::new`: starts the daemon thread,
/// or reports why it could not be created.  Success depends on the
/// host, so nothing is promised.
#[verifier::external_body]
fn daemon_new() -> (r: Result<mdns_sd::ServiceDaemon, String>)
{
    match mdns_sd::ServiceDaemon::new() {
        Ok(d) => Ok(d),
        Err(e) => Err(e.to_string()),
    }
}

/// Relies on `mdns_sd::ServiceInfo::new` and `enable_addr_auto`:
/// builds the registration record from the given type, instance name,
/// hostname, address text, port and TXT pairs, with automatic address
/// tracking; fails when the address text does not parse or a TXT pair
/// breaks the RFC 6763 limits.
#[verifier::external_body]
fn make_service_info(
    service_type: &str,
    instance: &str,
    hostname: &str,
    ip_text: &str,
    port: u16,
    txt: &Vec<(String, String)>,
) -> (r: Result<mdns_sd::ServiceInfo, String>)
{
    match mdns_sd::ServiceInfo::new(service_type, instance, hostname, ip_text, port, &txt[..]) {
        Ok(si) => Ok(si.enable_addr_auto()),
        Err(e) => Err(e.to_string()),
    }
}

/// Relies on `mdns_sd::ServiceInfo::get_fullname`: the fully
/// qualified instance name the daemon will register the service
/// under, used later to withdraw it.
#[verifier::external_body]
fn service_fullname(si: &mdns_sd::ServiceInfo) -> (r: String)
{
    si.get_fullname().to_owned()
}

/// Relies on `mdns_sd::ServiceDaemon::register`: hands the record to
/// the daemon; fails when the record is malformed or the daemon is
/// gone.
#[verifier::external_body]
fn daemon_register(d: &mdns_sd::ServiceDaemon, si: mdns_sd::ServiceInfo) -> (r: Result<
    (),
    String,
>)
{
    match d.register(si) {
        Ok(()) => Ok(()),
        Err(e) => Err(e.to_string()),
    }
}

/// Relies on `mdns_sd::ServiceDaemon::unregister`: asks the daemon to
/// withdraw the name (the daemon confirms asynchronously; the
/// receiver is not waited on).
#[verifier::external_body]
fn daemon_unregister(d: &mdns_sd::ServiceDaemon, fullname: &str) -> (r: Result<(), String>)
{
    match d.unregister(fullname) {
        Ok(_receiver) => Ok(()),
        Err(e) => Err(e.to_string()),
    }
}

/// The printer name with spaces dashed: the shape of an instance
/// name's tail.
pub open spec fn dash_spaces(s: Seq<char>) -> Seq<char> {
    Seq::new(
        s.len(),
        |i: int|
            if s[i] == ' ' {
                '-'
            } else {
                s[i]
            },
    )
}

/// The instance name of a printer: `air-` plus the printer's name
/// with spaces dashed.
pub open spec fn instance_name(printer_name: Seq<char>) -> Seq<char> {
    "air-"@ + dash_spaces(printer_name)
}

/// Build the instance name.  Spaces are replaced at the byte level,
/// which cannot break UTF-8; for an ASCII printer name the result is
/// pinned exactly.  Non-ASCII characters pass through unchanged (no
/// Unicode case mapping), and for such names the contract is silent.
pub fn build_instance_name(printer_name: &str) -> (r: String)
    ensures
        printer_name.is_ascii() ==> r@ == instance_name(printer_name@),
{
    proof {
        reveal_strlit("air-");
    }
    let bytes = printer_name.as_bytes_vec();
    let mut mapped: Vec<u8> = Vec::new();
    let mut i: usize = 0;
    while i < bytes.len()
        invariant
            0 <= i <= bytes.len(),
            mapped@.len() == i,
            forall|j: int|
                0 <= j < i ==> #[trigger] mapped@[j] == if bytes@[j] == 32 {
                    45u8
                } else {
                    bytes@[j]
                },
        decreases bytes.len() - i,
    {
        let b = bytes[i];
        if b == 32 {
            mapped.push(45);
        } else {
            mapped.push(b);
        }
        i = i + 1;
    }
    let mut out = String::from_str("air-");
    let tail = bytes_to_string(&mapped);
    out.append(tail.as_str());
    proof {
        if printer_name.is_ascii() {
            vstd::string::is_ascii_spec_bytes(printer_name);
            assert(bytes_all_ascii(mapped@));
            assert(ascii_chars(mapped@) =~= dash_spaces(printer_name@));
            assert(out@ =~= instance_name(printer_name@));
        }
    }
    out
}

/// One registration the daemon currently holds, with everything
/// needed to renew it unchanged.
#[derive(Debug)]
pub struct RegisteredService {
    pub fullname: String,
    pub service_type: String,
    pub instance: String,
    pub hostname: String,
    pub ip_text: String,
    pub port: u16,
    pub txt: Vec<(String, String)>,
}

/// The index of the first registration with the given fullname, or
/// the length of the run.
pub open spec fn find_service(s: Seq<RegisteredService>, name: Seq<char>, i: int) -> int
    decreases s.len() - i,
    when 0 <= i <= s.len()
{
    if i == s.len() {
        i
    } else if s[i].fullname@ == name {
        i
    } else {
        find_service(s, name, i + 1)
    }
}

/// Owns the process's mDNS daemon and the registrations made through
/// it.  The view is the sequence of registered fullnames.
pub struct MdnsBroadcaster {
    daemon: mdns_sd::ServiceDaemon,
    registered: Vec<RegisteredService>,
}

impl View for MdnsBroadcaster {
    type V = Seq<Seq<char>>;

    closed spec fn view(&self) -> Seq<Seq<char>> {
        Seq::new(self.registered@.len(), |i: int| self.registered@[i].fullname@)
    }
}

impl MdnsBroadcaster {
    /// The registrations held, as full records.
    pub closed spec fn services(&self) -> Seq<RegisteredService> {
        self.registered@
    }

    /// A broadcaster with a fresh daemon and nothing registered, or
    /// `MdnsStartFailed` when the daemon cannot start.
    pub fn new() -> (r: Result<MdnsBroadcaster, AirPrintError>)
        ensures
            r matches Ok(b) ==> b@ =~= Seq::<Seq<char>>::empty() && b.services() =~= Seq::<
                RegisteredService,
            >::empty(),
            r matches Err(e) ==> e is MdnsStartFailed,
    {
        match daemon_new() {
            Ok(daemon) => Ok(MdnsBroadcaster { daemon, registered: Vec::new() }),
            Err(msg) => Err(AirPrintError::MdnsStartFailed(msg)),
        }
    }

    /// Advertise one printer.  The hostname must already be
    /// normalised (`…local.`) and the address routable; a valid
    /// registration appends its fullname to the held set and hands it
    /// back for later withdrawal.  A daemon refusal surfaces as
    /// `MdnsStartFailed` and changes nothing.
    pub fn broadcast_airprint(
        &mut self,
        printer_name: &str,
        hostname: &str,
        ip: &IpAddress,
        port: u16,
    ) -> (r: Result<String, AirPrintError>)
        requires
            port != 0,
        ensures
            !ends_with(hostname@, ".local."@) ==> r == Err::<String, AirPrintError>(
                AirPrintError::InvalidHostname,
            ),
            ends_with(hostname@, ".local."@) && is_link_local(*ip) ==> r == Err::<
                String,
                AirPrintError,
            >(AirPrintError::NoRoutableAddress),
            match r {
                Ok(name) => {
                    &&& final(self)@ =~= old(self)@.push(name@)
                    &&& ends_with(hostname@, ".local."@)
                    &&& !is_link_local(*ip)
                    &&& final(self).services().len() == old(self).services().len() + 1
                    &&& final(self).services().take(old(self).services().len() as int) =~= old(
                        self,
                    ).services()
                    // The appended registration record carries
                    // exactly what was handed to the daemon.
                    &&& ({
                        let e = final(self).services().last();
                        &&& e.fullname@ == name@
                        &&& e.service_type@ == "_ipp._tcp.local."@
                        &&& (printer_name.is_ascii() ==> e.instance@ == instance_name(
                            printer_name@,
                        ))
                        &&& e.hostname@ == hostname@
                        &&& e.ip_text@ == ascii_chars(ip_bytes(*ip))
                        &&& e.port == port
                        &&& exists|t: AirPrintTxtRecords| #![auto]
                            fresh_txt_record(t, printer_name@, hostname@, port) && pairs_view(
                                e.txt@,
                            ) =~= txt_pairs_model(&t)
                    })
                },
                Err(e) => {
                    &&& final(self)@ =~= old(self)@
                    &&& final(self).services() =~= old(self).services()
                    &&& (e is InvalidHostname <==> !ends_with(hostname@, ".local."@))
                    &&& (e is NoRoutableAddress <==> ends_with(hostname@, ".local."@)
                        && is_link_local(*ip))
                    &&& (e is InvalidHostname || e is NoRoutableAddress || e is MdnsStartFailed)
                },
            },
    {
        proof {
            reveal_strlit(".local.");
        }
        if !str_ends_with(hostname, ".local.") {
            return Err(AirPrintError::InvalidHostname);
        }
        if is_link_local_ip(ip) {
            return Err(AirPrintError::NoRoutableAddress);
        }
        let instance = build_instance_name(printer_name);
        let ip_text = ip_to_string(ip);
        let records = AirPrintTxtRecords::new(printer_name, hostname, port);
        let txt = records.to_pairs();
        let service_type = String::from_str("_ipp._tcp.local.");
        let si = match make_service_info(
            service_type.as_str(),
            instance.as_str(),
            hostname,
            ip_text.as_str(),
            port,
            &txt,
        ) {
            Ok(si) => si,
            Err(msg) => {
                return Err(AirPrintError::MdnsStartFailed(msg));
            },
        };
        let fullname = service_fullname(&si);
        match daemon_register(&self.daemon, si) {
            Ok(()) => {},
            Err(msg) => {
                return Err(AirPrintError::MdnsStartFailed(msg));
            },
        }
        let entry = RegisteredService {
            fullname: fullname.clone(),
            service_type,
            instance,
            hostname: hostname.to_owned(),
            ip_text,
            port,
            txt,
        };
        self.registered.push(entry);
        proof {
            assert(self@ =~= old(self)@.push(fullname@));
            assert(self.services().take(old(self).services().len() as int) =~= old(
                self,
            ).services());
            let e = self.services().last();
            assert(exists|t: AirPrintTxtRecords| #![auto]
                fresh_txt_record(t, printer_name@, hostname@, port) && pairs_view(e.txt@)
                    =~= txt_pairs_model(&t)) by {
                assert(fresh_txt_record(records, printer_name@, hostname@, port));
                assert(pairs_view(e.txt@) =~= txt_pairs_model(&records));
            }
        }
        Ok(fullname)
    }

    /// Withdraw the registration with the given fullname, if held;
    /// the daemon stays alive for further registrations.
    pub fn withdraw(&mut self, fullname: &str)
        ensures
            ({
                let k = find_service(old(self).services(), fullname@, 0);
                if k < old(self).services().len() {
                    final(self).services() =~= old(self).services().remove(k)
                } else {
                    final(self).services() =~= old(self).services()
                }
            }),
    {
        let n = self.registered.len();
        let mut i: usize = 0;
        while i < n
            invariant
                0 <= i <= n,
                n == self.registered@.len(),
                self.registered@ == old(self).registered@,
                find_service(self.registered@, fullname@, i as int) == find_service(
                    self.registered@,
                    fullname@,
                    0,
                ),
                forall|j: int| 0 <= j < i ==> #[trigger] self.registered@[j].fullname@ != fullname@,
            decreases n - i,
        {
            if str_eq(self.registered[i].fullname.as_str(), fullname) {
                let _ = daemon_unregister(&self.daemon, fullname);
                self.registered.remove(i);
                return ;
            }
            i = i + 1;
        }
    }

    /// Withdraw everything.  The daemon stays alive.
    pub fn stop(&mut self)
        ensures
            final(self)@ =~= Seq::<Seq<char>>::empty(),
    {
        while self.registered.len() > 0
            decreases self.registered@.len(),
        {
            let entry = self.registered.remove(0);
            let _ = daemon_unregister(&self.daemon, entry.fullname.as_str());
        }
        proof {
            assert(self@ =~= Seq::<Seq<char>>::empty());
        }
    }

    /// Re-register every held service, defending against stale caches
    /// on consumer routers.  A failure of one renewal is left for the
    /// next heartbeat; the held set never changes.
    pub fn renew_all(&self) {
        let n = self.registered.len();
        let mut i: usize = 0;
        while i < n
            invariant
                n == self.registered@.len(),
            decreases n - i,
        {
            let entry = &self.registered[i];
            let _ = daemon_unregister(&self.daemon, entry.fullname.as_str());
            match make_service_info(
                entry.service_type.as_str(),
                entry.instance.as_str(),
                entry.hostname.as_str(),
                entry.ip_text.as_str(),
                entry.port,
                &entry.txt,
            ) {
                Ok(si) => {
                    let _ = daemon_register(&self.daemon, si);
                },
                Err(_) => {},
            }
            i = i + 1;
        }
    }
}

/// Whether a heartbeat tick (one per ten seconds, counted from one)
/// is a renewal tick: every sixth, so once a minute.
pub fn heartbeat_should_renew(tick: u64) -> (r: bool)
    ensures
        r == (tick != 0 && tick % 6 == 0),
{
    tick != 0 && tick % 6 == 0
}

} // verus!
