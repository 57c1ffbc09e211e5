//! Print jobs: the options parsed from an IPP request, the per-job
//! record, and the manager that tracks jobs while the host delivers
//! them.
//!
//! The manager only keeps records; reading the clock and drawing a
//! fresh id go through the trusted wrappers below, and writing or
//! deleting spool files is the embedding application's task (the
//! record carries the exact path to use).

use vstd::prelude::*;

use crate::text::{ascii_chars, dec_bytes, dec_string, str_eq};

verus! {

/// The print options recognised in a Print-Job request, with the
/// defaults `{1, "one-sided", "auto", "A4", none}`.
#[derive(Debug)]
pub struct PrintOptions {
    pub copies: i32,
    pub sides: String,
    pub color_mode: String,
    pub media: String,
    pub job_name: Option<String>,
}

/// The mathematical shape of [`PrintOptions`].
#[verifier::ext_equal]
pub ghost struct OptionsModel {
    pub copies: i32,
    pub sides: Seq<char>,
    pub color_mode: Seq<char>,
    pub media: Seq<char>,
    pub job_name: Option<Seq<char>>,
}

impl View for PrintOptions {
    type V = OptionsModel;

    open spec fn view(&self) -> OptionsModel {
        OptionsModel {
            copies: self.copies,
            sides: self.sides@,
            color_mode: self.color_mode@,
            media: self.media@,
            job_name: match self.job_name {
                Some(ref s) => Some(s@),
                None => None,
            },
        }
    }
}

/// The default options.
pub open spec fn default_options() -> OptionsModel {
    OptionsModel {
        copies: 1,
        sides: "one-sided"@,
        color_mode: "auto"@,
        media: "A4"@,
        job_name: None,
    }
}

impl Default for PrintOptions {
    /// One copy, one-sided, automatic colour, A4, no job name.
    fn default() -> (r: PrintOptions)
        ensures
            r@ == default_options(),
    {
        PrintOptions {
            copies: 1,
            sides: "one-sided".to_owned(),
            color_mode: "auto".to_owned(),
            media: "A4".to_owned(),
            job_name: None,
        }
    }
}

impl PrintOptions {
    /// A field-by-field copy.
    pub fn duplicate(&self) -> (r: PrintOptions)
        ensures
            r@ == self@,
    {
        PrintOptions {
            copies: self.copies,
            sides: self.sides.clone(),
            color_mode: self.color_mode.clone(),
            media: self.media.clone(),
            job_name: match &self.job_name {
                Some(s) => Some(s.clone()),
                None => None,
            },
        }
    }
}

/// The lifecycle state of one print job.
#[derive(Clone, Copy, Debug, PartialEq, Eq, Structural)]
pub enum JobStatus {
    /// Waiting for delivery to the host printer.
    Pending,
    /// Being delivered.
    Printing,
    /// Delivered.
    Completed,
    /// Delivery failed; the spool file is kept for diagnosis.
    Failed,
    /// Cancelled before delivery.
    Cancelled,
}

impl JobStatus {
    /// The lowercase keyword for this state.
    pub fn as_str(&self) -> (r: &'static str)
        ensures
            r@ == match self {
                JobStatus::Pending => "pending"@,
                JobStatus::Printing => "printing"@,
                JobStatus::Completed => "completed"@,
                JobStatus::Failed => "failed"@,
                JobStatus::Cancelled => "cancelled"@,
            },
    {
        let s: &'static str = match self {
            JobStatus::Pending => "pending",
            JobStatus::Printing => "printing",
            JobStatus::Completed => "completed",
            JobStatus::Failed => "failed",
            JobStatus::Cancelled => "cancelled",
        };
        proof {
            reveal_strlit("pending");
            reveal_strlit("printing");
            reveal_strlit("completed");
            reveal_strlit("failed");
            reveal_strlit("cancelled");
        }
        s
    }
}

/// One spooled print job.
#[derive(Debug)]
pub struct PrintJob {
    pub id: String,
    pub file_path: String,
    pub file_name: String,
    pub source_device: String,
    pub source_ip: String,
    pub copies: i32,
    pub sides: String,
    pub color_mode: String,
    pub media: String,
    pub status: JobStatus,
    pub created_at: String,
    pub file_size: u64,
}

impl PrintJob {
    /// A field-by-field copy.
    pub fn duplicate(&self) -> (r: PrintJob)
        ensures
            r == *self,
    {
        PrintJob {
            id: self.id.clone(),
            file_path: self.file_path.clone(),
            file_name: self.file_name.clone(),
            source_device: self.source_device.clone(),
            source_ip: self.source_ip.clone(),
            copies: self.copies,
            sides: self.sides.clone(),
            color_mode: self.color_mode.clone(),
            media: self.media.clone(),
            status: self.status,
            created_at: self.created_at.clone(),
            file_size: self.file_size,
        }
    }
}

/// Relies on `uuid::Uuid::new_v4` and its `Display` impl: a fresh
/// random UUID rendered in the hyphenated form, which is exactly 36
/// ASCII characters.  The value itself is random, so nothing more is
/// claimed.
#[verifier::external_body]
pub(crate) fn new_uuid_string() -> (r: String)
    ensures
        r@.len() == 36,
        vstd::string::string_is_ascii(&r),
{
    uuid::Uuid::new_v4().to_string()
}

/// Relies on `chrono::Utc::now` and `DateTime::timestamp_millis`:
/// the milliseconds since the Unix epoch.  The value depends on the
/// clock, so nothing is claimed about it.
#[verifier::external_body]
fn now_unix_millis() -> (r: i64)
{
    chrono::Utc::now().timestamp_millis()
}

/// Relies on `chrono::Local::now` and `DateTime::to_rfc3339`: an
/// RFC 3339 rendering of the current local time.  The value depends
/// on the clock, so nothing is claimed about it.
#[verifier::external_body]
fn now_rfc3339() -> (r: String)
    ensures
        vstd::string::string_is_ascii(&r),
{
    chrono::Local::now().to_rfc3339()
}

/// The index of the first job with the given id, or the length of the
/// sequence when no job has it.
pub open spec fn find_job(s: Seq<PrintJob>, id: Seq<char>, i: int) -> int
    decreases s.len() - i,
    when 0 <= i <= s.len()
{
    if i == s.len() {
        i
    } else if s[i].id@ == id {
        i
    } else {
        find_job(s, id, i + 1)
    }
}

/// Whether a job is waiting for delivery.
pub open spec fn is_pending(j: PrintJob) -> bool {
    j.status is Pending
}

/// Tracks the jobs spooled in this process.  The view is the sequence
/// of job records in creation order.
pub struct PrintJobManager {
    jobs: Vec<PrintJob>,
    temp_dir: String,
}

impl View for PrintJobManager {
    type V = Seq<PrintJob>;

    closed spec fn view(&self) -> Seq<PrintJob> {
        self.jobs@
    }
}

impl PrintJobManager {
    /// The directory under which spool files are placed.
    pub closed spec fn temp_dir_model(&self) -> Seq<char> {
        self.temp_dir@
    }

    /// An empty manager that will name spool files under `temp_dir`:
    /// the OS temp directory, which the embedding application passes
    /// in (reading it is host I/O).
    pub fn new(temp_dir: &str) -> (r: PrintJobManager)
        ensures
            r@ =~= Seq::<PrintJob>::empty(),
            r.temp_dir_model() == temp_dir@,
    {
        PrintJobManager { jobs: Vec::new(), temp_dir: temp_dir.to_owned() }
    }

    /// Record a new pending job for the Print-Job request
    /// `request_id` and hand back its record.  The record's
    /// `file_path` is `<temp_dir>/airprint_<unix-millis>_<request-id>.pdf`,
    /// the name the printing subsystem looks for; the caller writes
    /// `data` there (and syncs it) before delivery.
    pub fn create_job(
        &mut self,
        request_id: u32,
        data: &Vec<u8>,
        options: PrintOptions,
        source_ip: String,
    ) -> (job: PrintJob)
        ensures
            final(self)@ =~= old(self)@.push(job),
            final(self).temp_dir_model() == old(self).temp_dir_model(),
            job.id@.len() == 36,
            job.status == JobStatus::Pending,
            job.copies == options.copies,
            job.sides@ == options.sides@,
            job.color_mode@ == options.color_mode@,
            job.media@ == options.media@,
            job.source_device@ == match options.job_name {
                Some(n) => n@,
                None => "Unknown Device"@,
            },
            job.source_ip@ == source_ip@,
            job.file_size == data.len(),
            exists|millis: int| #![auto]
                0 <= millis && job.file_name@ == "airprint_"@ + ascii_chars(dec_bytes(millis))
                    + "_"@ + ascii_chars(dec_bytes(request_id as int)) + ".pdf"@,
            job.file_path@ == old(self).temp_dir_model() + "/"@ + job.file_name@,
    {
        let id = new_uuid_string();
        let raw_millis = now_unix_millis();
        let millis: u64 = if raw_millis < 0 {
            0
        } else {
            raw_millis as u64
        };
        let millis_str = dec_string(millis);
        let id_str = dec_string(request_id as u64);
        let mut file_name = String::from_str("airprint_");
        file_name.append(millis_str.as_str());
        file_name.append("_");
        file_name.append(id_str.as_str());
        file_name.append(".pdf");
        let mut file_path = self.temp_dir.clone();
        file_path.append("/");
        file_path.append(file_name.as_str());
        let source_device = match options.job_name {
            Some(ref n) => n.clone(),
            None => "Unknown Device".to_owned(),
        };
        let job = PrintJob {
            id,
            file_path,
            file_name,
            source_device,
            source_ip,
            copies: options.copies,
            sides: options.sides,
            color_mode: options.color_mode,
            media: options.media,
            status: JobStatus::Pending,
            created_at: now_rfc3339(),
            file_size: data.len() as u64,
        };
        let copy = job.duplicate();
        self.jobs.push(job);
        proof {
            assert(copy.file_name@ == "airprint_"@ + ascii_chars(dec_bytes(millis as int)) + "_"@
                + ascii_chars(dec_bytes(request_id as int)) + ".pdf"@);
        }
        copy
    }

    /// The first job with the given id, if any.
    pub fn get_job(&self, id: &str) -> (r: Option<PrintJob>)
        ensures
            match r {
                Some(j) => find_job(self@, id@, 0) < self@.len() && j == self@[find_job(
                    self@,
                    id@,
                    0,
                )],
                None => find_job(self@, id@, 0) == self@.len(),
            },
    {
        let n = self.jobs.len();
        let mut i: usize = 0;
        while i < n
            invariant
                0 <= i <= n,
                n == self.jobs@.len(),
                find_job(self.jobs@, id@, i as int) == find_job(self.jobs@, id@, 0),
                forall|j: int| 0 <= j < i ==> #[trigger] self.jobs@[j].id@ != id@,
            decreases n - i,
        {
            if str_eq(self.jobs[i].id.as_str(), id) {
                return Some(self.jobs[i].duplicate());
            }
            i = i + 1;
        }
        None
    }

    /// Set the status of the first job with the given id; no job with
    /// that id leaves everything unchanged.
    pub fn update_status(&mut self, id: &str, status: JobStatus)
        ensures
            final(self).temp_dir_model() == old(self).temp_dir_model(),
            ({
                let k = find_job(old(self)@, id@, 0);
                if k < old(self)@.len() {
                    final(self)@ =~= old(self)@.update(
                        k,
                        PrintJob { status, ..old(self)@[k] },
                    )
                } else {
                    final(self)@ =~= old(self)@
                }
            }),
    {
        let n = self.jobs.len();
        let mut i: usize = 0;
        while i < n
            invariant
                0 <= i <= n,
                n == self.jobs@.len(),
                self.jobs@ == old(self).jobs@,
                self.temp_dir@ == old(self).temp_dir@,
                find_job(self.jobs@, id@, i as int) == find_job(self.jobs@, id@, 0),
                forall|j: int| 0 <= j < i ==> #[trigger] self.jobs@[j].id@ != id@,
            decreases n - i,
        {
            if str_eq(self.jobs[i].id.as_str(), id) {
                let old_job = self.jobs.remove(i);
                let new_job = PrintJob { status, ..old_job };
                self.jobs.insert(i, new_job);
                proof {
                    assert(self.jobs@ =~= old(self).jobs@.update(
                        i as int,
                        PrintJob { status, ..old(self).jobs@[i as int] },
                    ));
                }
                return ;
            }
            i = i + 1;
        }
    }

    /// The jobs still waiting for delivery, in creation order.
    pub fn get_pending_jobs(&self) -> (r: Vec<PrintJob>)
        ensures
            r@ =~= self@.filter(|j: PrintJob| is_pending(j)),
    {
        proof {
            reveal(Seq::filter);
        }
        let n = self.jobs.len();
        let mut out: Vec<PrintJob> = Vec::new();
        let mut i: usize = 0;
        while i < n
            invariant
                0 <= i <= n,
                n == self.jobs@.len(),
                out@ =~= self.jobs@.take(i as int).filter(|j: PrintJob| is_pending(j)),
            decreases n - i,
        {
            proof {
                reveal(Seq::filter);
                assert(self.jobs@.take(i + 1).drop_last() =~= self.jobs@.take(i as int));
                assert(self.jobs@.take(i + 1).last() == self.jobs@[i as int]);
            }
            if matches!(self.jobs[i].status, JobStatus::Pending) {
                out.push(self.jobs[i].duplicate());
            }
            i = i + 1;
        }
        proof {
            assert(self.jobs@.take(n as int) =~= self.jobs@);
        }
        out
    }

    /// Drop the first job with the given id and hand back the path of
    /// its spool file, for the caller to delete; `None` when no job
    /// has that id.
    pub fn cleanup_job(&mut self, id: &str) -> (r: Option<String>)
        ensures
            final(self).temp_dir_model() == old(self).temp_dir_model(),
            ({
                let k = find_job(old(self)@, id@, 0);
                if k < old(self)@.len() {
                    &&& final(self)@ =~= old(self)@.remove(k)
                    &&& r matches Some(path) && path@ == old(self)@[k].file_path@
                } else {
                    &&& final(self)@ =~= old(self)@
                    &&& r is None
                }
            }),
    {
        let n = self.jobs.len();
        let mut i: usize = 0;
        while i < n
            invariant
                0 <= i <= n,
                n == self.jobs@.len(),
                self.jobs@ == old(self).jobs@,
                self.temp_dir@ == old(self).temp_dir@,
                find_job(self.jobs@, id@, i as int) == find_job(self.jobs@, id@, 0),
                forall|j: int| 0 <= j < i ==> #[trigger] self.jobs@[j].id@ != id@,
            decreases n - i,
        {
            if str_eq(self.jobs[i].id.as_str(), id) {
                let job = self.jobs.remove(i);
                return Some(job.file_path);
            }
            i = i + 1;
        }
        None
    }
}

} // verus!
