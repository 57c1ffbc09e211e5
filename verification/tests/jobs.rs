//! The print-job manager.

use airprinter::jobs::{JobStatus, PrintJobManager, PrintOptions};

fn options() -> PrintOptions {
    PrintOptions {
        copies: 2,
        sides: "one-sided".to_string(),
        color_mode: "color".to_string(),
        media: "A4".to_string(),
        job_name: Some("From iPhone".to_string()),
    }
}

#[test]
fn created_job_carries_its_options() {
    let mut mgr = PrintJobManager::new("/tmp/spool");
    let data: Vec<u8> = vec![0x25; 64];
    let job = mgr.create_job(44, &data, options(), "10.0.0.9".to_string());
    assert_eq!(job.copies, 2);
    assert_eq!(job.sides, "one-sided");
    assert_eq!(job.color_mode, "color");
    assert_eq!(job.media, "A4");
    assert_eq!(job.source_device, "From iPhone");
    assert_eq!(job.source_ip, "10.0.0.9");
    assert_eq!(job.file_size, 64);
    assert_eq!(job.id.len(), 36);
    assert!(matches!(job.status, JobStatus::Pending));
    assert!(job.file_name.starts_with("airprint_"));
    assert!(job.file_name.ends_with("_44.pdf"));
    // airprint_<unix-millis>_<request-id>.pdf: the middle part is digits
    let middle = &job.file_name["airprint_".len()..job.file_name.len() - "_44.pdf".len()];
    assert!(!middle.is_empty() && middle.bytes().all(|b| b.is_ascii_digit()));
    assert!(job.file_path.starts_with("/tmp/spool/"));
    assert!(job.file_path.ends_with(&job.file_name));
}

#[test]
fn missing_job_name_becomes_unknown_device() {
    let mut mgr = PrintJobManager::new("/tmp/spool");
    let mut opts = options();
    opts.job_name = None;
    let job = mgr.create_job(7, &vec![1, 2, 3], opts, "10.0.0.9".to_string());
    assert_eq!(job.source_device, "Unknown Device");
}

#[test]
fn jobs_are_found_updated_and_cleaned() {
    let mut mgr = PrintJobManager::new("/tmp/spool");
    let job = mgr.create_job(8, &vec![1], options(), "10.0.0.9".to_string());
    let id = job.id.clone();

    let found = mgr.get_job(&id).expect("job is found");
    assert_eq!(found.id, id);
    assert_eq!(mgr.get_pending_jobs().len(), 1);

    mgr.update_status(&id, JobStatus::Printing);
    let found = mgr.get_job(&id).unwrap();
    assert!(matches!(found.status, JobStatus::Printing));
    assert!(mgr.get_pending_jobs().is_empty());

    let path = mgr.cleanup_job(&id).expect("path handed back");
    assert_eq!(path, found.file_path);
    assert!(mgr.get_job(&id).is_none());
    assert!(mgr.cleanup_job(&id).is_none());
}

#[test]
fn unknown_ids_change_nothing() {
    let mut mgr = PrintJobManager::new("/tmp/spool");
    mgr.create_job(9, &vec![1], options(), "10.0.0.9".to_string());
    mgr.update_status("no-such-id", JobStatus::Failed);
    assert_eq!(mgr.get_pending_jobs().len(), 1);
    assert!(mgr.get_job("no-such-id").is_none());
}

#[test]
fn status_labels() {
    assert_eq!(JobStatus::Pending.as_str(), "pending");
    assert_eq!(JobStatus::Printing.as_str(), "printing");
    assert_eq!(JobStatus::Completed.as_str(), "completed");
    assert_eq!(JobStatus::Failed.as_str(), "failed");
    assert_eq!(JobStatus::Cancelled.as_str(), "cancelled");
}
