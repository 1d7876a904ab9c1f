use file_browser::{JsonResponse, OpError, PathKind, UploadBatch};

fn confined(rel: &str) -> file_browser::ConfinedPath {
    let root = file_browser::ServerRoot::new("/srv/data").unwrap();
    let p = file_browser::resolve(&root, rel).unwrap();
    let text = p.as_str().to_string();
    file_browser::confirm_on_disk(p, &text, &text).unwrap()
}

fn batch() -> UploadBatch {
    UploadBatch::new(&confined("in"), PathKind::Directory).expect("target is a directory")
}

fn message(r: &JsonResponse) -> (bool, String) {
    match r {
        JsonResponse::Succeeded { msg } => (true, msg.clone().unwrap_or_default()),
        JsonResponse::Failed { msg } => (false, msg.clone().unwrap_or_default()),
    }
}

#[test]
fn upload_needs_an_existing_directory() {
    assert_eq!(UploadBatch::new(&confined("x"), PathKind::Absent).err(), Some(OpError::TargetMissing));
    assert_eq!(UploadBatch::new(&confined("x"), PathKind::File).err(), Some(OpError::TargetMissing));
}

#[test]
fn empty_upload_succeeds() {
    let b = batch();
    assert!(b.outcomes().is_empty());
    assert_eq!(b.succeeded(), 0);
    assert_eq!(message(&b.response()), (true, "0 file(s) uploaded!".to_string()));
}

#[test]
fn single_file_upload_is_complete() {
    let mut b = batch();
    let dest = b.begin_part(Some("a.bin".to_string())).unwrap();
    assert_eq!(dest.as_str(), "/srv/data/in/a.bin");
    assert!(b.is_writing());
    b.record_chunk(&[1, 2, 3, 4]);
    b.record_chunk(&[]);
    b.record_chunk(&[5, 6]);
    b.end_part();
    let o = b.outcomes();
    assert_eq!(o.len(), 1);
    assert_eq!(o[0].file_name, "a.bin");
    assert_eq!(o[0].bytes_written, 6);
    assert!(o[0].success);
    assert_eq!(o[0].error, None);
    assert_eq!(message(&b.response()), (true, "1 file(s) uploaded!".to_string()));
}

#[test]
fn failed_part_does_not_stop_the_batch() {
    let mut b = batch();
    b.begin_part(Some("one".to_string())).unwrap();
    b.record_chunk(&[0; 10]);
    b.begin_part(Some("two".to_string())).unwrap();
    b.record_chunk(&[0; 7]);
    b.record_failure();
    assert!(!b.is_writing());
    b.record_chunk(&[0; 5]);
    b.begin_part(Some("three".to_string())).unwrap();
    b.record_chunk(&[0; 3]);
    b.end_part();
    let o = b.outcomes();
    assert_eq!(o.len(), 3);
    assert!(o[0].success && o[0].bytes_written == 10);
    assert!(!o[1].success);
    assert_eq!(o[1].bytes_written, 7);
    assert_eq!(o[1].error, Some(OpError::IoFailure));
    assert!(o[2].success && o[2].bytes_written == 3);
    assert_eq!(b.succeeded(), 2);
    assert_eq!(message(&b.response()), (false, "2 file(s) uploaded, 1 failed".to_string()));
}

#[test]
fn part_without_name_is_refused() {
    let mut b = batch();
    assert_eq!(b.begin_part(None).unwrap_err(), OpError::MissingFileName);
    assert!(!b.is_writing());
    let o = b.outcomes();
    assert_eq!(o.len(), 1);
    assert_eq!(o[0].error, Some(OpError::MissingFileName));
    assert!(!o[0].success);
}

#[test]
fn part_escaping_the_directory_is_refused() {
    let mut b = batch();
    assert_eq!(b.begin_part(Some("../evil".to_string())).unwrap_err(), OpError::InvalidName);
    assert_eq!(b.begin_part(Some("..".to_string())).unwrap_err(), OpError::InvalidName);
    assert_eq!(b.outcomes().len(), 2);
    assert_eq!(b.outcomes()[0].file_name, "../evil");
    assert_eq!(b.succeeded(), 0);
}

#[test]
fn failure_to_create_records_an_empty_failed_part() {
    let mut b = batch();
    b.begin_part(Some("x".to_string())).unwrap();
    b.record_failure();
    b.end_part();
    assert_eq!(b.outcomes()[0].bytes_written, 0);
    assert_eq!(b.outcomes()[0].error, Some(OpError::IoFailure));
}

#[test]
fn same_name_twice_is_recorded_twice() {
    let mut b = batch();
    assert_eq!(b.begin_part(Some("f".to_string())).unwrap().as_str(), "/srv/data/in/f");
    b.record_chunk(&[1]);
    assert_eq!(b.begin_part(Some("f".to_string())).unwrap().as_str(), "/srv/data/in/f");
    b.record_chunk(&[1, 2]);
    b.end_part();
    assert_eq!(b.outcomes().len(), 2);
    assert_eq!(b.outcomes()[1].bytes_written, 2);
}

#[test]
fn end_without_part_changes_nothing() {
    let mut b = batch();
    b.end_part();
    b.record_chunk(&[1, 2]);
    b.record_failure();
    assert!(b.outcomes().is_empty());
}
