use tailtask::artifacts::{
    byte_range, check_inside, check_opened_file, check_result_directory, content_range, entry_check, entry_kind, file_check,
    resume_range, CopyProgress, EntryKind,
};

#[test]
fn ranges_reject_overflow_multipart_and_invalid_bounds() {
    assert_eq!(byte_range(Some("bytes=5-"), 10).unwrap(), (5, 5, true));
    assert_eq!(byte_range(Some("bytes=2-6"), 10).unwrap(), (2, 5, true));
    for s in [
        "bytes=10-",
        "bytes=7-2",
        "bytes=1-2,3-4",
        "bytes=18446744073709551616-",
    ] {
        assert!(byte_range(Some(s), 10).is_err());
    }
}

#[test]
fn missing_range_sends_the_whole_body() {
    assert_eq!(byte_range(None, 10).unwrap(), (0, 10, false));
    assert_eq!(byte_range(None, 0).unwrap(), (0, 0, false));
}

#[test]
fn range_errors_name_their_kind() {
    assert_eq!(byte_range(Some("bytes=10-"), 10).unwrap_err(), "RANGE_NOT_SATISFIABLE");
    assert_eq!(byte_range(Some("bytes=7-2"), 10).unwrap_err(), "RANGE_NOT_SATISFIABLE");
    assert_eq!(byte_range(Some("bytes=0-"), 0).unwrap_err(), "RANGE_NOT_SATISFIABLE");
    assert_eq!(byte_range(Some("bytes=1-2,3-4"), 10).unwrap_err(), "INVALID_RANGE");
    assert_eq!(byte_range(Some("bytes=-5"), 10).unwrap_err(), "INVALID_RANGE");
    assert_eq!(byte_range(Some("items=1-2"), 10).unwrap_err(), "INVALID_RANGE");
    assert_eq!(byte_range(Some("bytes=5"), 10).unwrap_err(), "INVALID_RANGE");
    assert_eq!(byte_range(Some("bytes=18446744073709551616-"), 10).unwrap_err(), "INVALID_RANGE");
}

#[test]
fn range_ends_are_cut_to_the_body() {
    assert_eq!(byte_range(Some("bytes=3-100"), 10).unwrap(), (3, 7, true));
    assert_eq!(byte_range(Some("bytes=9-9"), 10).unwrap(), (9, 1, true));
    assert_eq!(byte_range(Some("bytes=+2-+4"), 10).unwrap(), (2, 3, true));
}

#[test]
fn content_range_and_resume_headers_are_exact() {
    assert_eq!(content_range(5, 5, 10), "bytes 5-9/10");
    assert_eq!(content_range(0, 1, 1), "bytes 0-0/1");
    assert_eq!(resume_range(3), "bytes=3-");
}

#[test]
fn snapshot_limits_stop_the_copy() {
    assert!(entry_check(1000).is_ok());
    assert_eq!(entry_check(1001).unwrap_err(), "RESULT_ENTRY_LIMIT");
    assert!(file_check(99, 524288000).is_ok());
    assert_eq!(file_check(100, 1).unwrap_err(), "RESULT_FILE_COUNT_LIMIT");
    assert_eq!(file_check(0, 524288001).unwrap_err(), "RESULT_FILE_SIZE_LIMIT");
    let big = vec![0u8; 524288001];
    assert_eq!(CopyProgress::new().add(&big).unwrap_err(), "RESULT_SIZE_LIMIT");
    let p = CopyProgress::new().add(&[1u8; 10]).unwrap();
    assert_eq!((p.file(), p.total()), (10, 10));
    assert_eq!(p.add(&big[..524287991]).unwrap_err(), "RESULT_SIZE_LIMIT");
}

#[test]
fn copied_files_are_listed_with_the_digest_of_their_bytes() {
    let p = CopyProgress::new().add(b"ab").unwrap().add(b"c").unwrap();
    let (size, digest, next) = p.finish_file();
    assert_eq!(size, 3);
    assert_eq!(digest, "ba7816bf8f01cfea414140de5dae2223b00361a396177a9cb410ff61f20015ad");
    assert_eq!((next.file(), next.total()), (0, 3));
    let (size, digest, last) = next.finish_file();
    assert_eq!(size, 0);
    assert_eq!(digest, "e3b0c44298fc1c149afbf4c8996fb92427ae41e4649b934ca495991b7852b855");
    assert_eq!(last.total(), 3);
}

fn parts(p: &[&str]) -> Vec<Vec<u8>> {
    p.iter().map(|c| c.as_bytes().to_vec()).collect()
}

#[test]
fn walked_entries_are_checked_in_order() {
    assert!(check_result_directory(false, true).is_ok());
    assert_eq!(check_result_directory(true, true).unwrap_err(), "RESULT_DIRECTORY_NOT_REGULAR");
    assert_eq!(check_result_directory(false, false).unwrap_err(), "RESULT_DIRECTORY_NOT_REGULAR");
    assert_eq!(entry_kind(true, true, false).unwrap_err(), "RESULT_SYMLINK_REJECTED");
    assert_eq!(entry_kind(false, true, false).unwrap(), EntryKind::Directory);
    assert_eq!(entry_kind(false, false, true).unwrap(), EntryKind::File);
    assert_eq!(entry_kind(false, false, false).unwrap_err(), "RESULT_SPECIAL_FILE_REJECTED");
    assert!(check_opened_file(true, false).is_ok());
    assert_eq!(check_opened_file(false, false).unwrap_err(), "RESULT_NOT_REGULAR_FILE");
    assert!(check_inside(&parts(&["/", "w", "out"]), &parts(&["/", "w"])).is_ok());
    assert_eq!(check_inside(&parts(&["/", "other"]), &parts(&["/", "w"])).unwrap_err(), "RESULT_PATH_ESCAPE");
}
