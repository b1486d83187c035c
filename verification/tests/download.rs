use tailtask::download::{
    artifact_path, check_digest, check_download, check_response, check_response_size, check_retained,
    answer_error, http_error_text, partial_name, DownloadProgress,
};
use tailtask::remote_model::Artifact;

fn artifact() -> Artifact {
    Artifact {
        id: "019147f5-5a8d-42aa-8110-f224436657e0".into(),
        task_id: "119147f5-5a8d-42aa-8110-f224436657e0".into(),
        name: "result.txt".into(),
        size: 18,
        sha256: "0".repeat(64),
    }
}

#[test]
fn downloads_are_checked_before_they_start() {
    assert!(check_download(&artifact()).is_ok());
    assert_eq!(check_download(&Artifact { id: "x".into(), ..artifact() }).unwrap_err(), "INVALID_ARTIFACT_ID");
    assert_eq!(check_download(&Artifact { task_id: "x".into(), ..artifact() }).unwrap_err(), "INVALID_TASK_ID");
    assert_eq!(check_download(&Artifact { size: 524288001, ..artifact() }).unwrap_err(), "ARTIFACT_SIZE_LIMIT");
}

#[test]
fn partial_files_resume_with_an_exact_range() {
    let a = artifact();
    assert_eq!(partial_name("result.txt", &a.id), format!(".result.txt.{}.partial", a.id));
    assert_eq!(artifact_path(&a.task_id, &a.id), format!("/v1/tasks/{}/artifacts/{}", a.task_id, a.id));
    assert!(check_retained(3, 18).is_ok());
    assert_eq!(check_retained(19, 18).unwrap_err(), "DOWNLOAD_PARTIAL_SIZE_MISMATCH");
    assert!(check_response(0, 18, 200, None).is_ok());
    assert_eq!(check_response(0, 18, 206, None).unwrap_err(), "DOWNLOAD_RESPONSE_MISMATCH");
    assert!(check_response(3, 18, 206, Some("bytes 3-17/18")).is_ok());
    assert_eq!(check_response(3, 18, 206, Some("bytes 3-16/18")).unwrap_err(), "DOWNLOAD_RANGE_MISMATCH");
    assert_eq!(check_response(3, 18, 206, None).unwrap_err(), "DOWNLOAD_RANGE_MISMATCH");
    assert_eq!(check_response(3, 18, 200, Some("bytes 3-17/18")).unwrap_err(), "DOWNLOAD_RESPONSE_MISMATCH");
}

#[test]
fn received_bytes_must_add_up_to_the_size() {
    let p = DownloadProgress::resume(3, 18);
    let p = p.add(&[7u8; 10]).unwrap();
    assert_eq!(p.finish().unwrap_err(), "DOWNLOAD_INCOMPLETE");
    assert_eq!(p.received(), 13);
    let p = p.add(&[7u8; 6]).unwrap_err();
    assert_eq!(p, "DOWNLOAD_SIZE_MISMATCH");
    let done = DownloadProgress::resume(3, 18).add(&[7u8; 10]).unwrap().add(&[7u8; 5]).unwrap();
    assert!(done.finish().is_ok());
    assert_eq!(done.received(), 18);
    assert!(check_digest("ab", "ab").is_ok());
    assert!(check_digest("ab", "ac").unwrap_err().starts_with("DOWNLOAD_HASH_MISMATCH"));
}

const ABC_SHA256: &str = "ba7816bf8f01cfea414140de5dae2223b00361a396177a9cb410ff61f20015ad";

#[test]
fn downloads_are_checked_against_the_digest_of_their_bytes() {
    let whole = DownloadProgress::resume(0, 3).add(b"abc").unwrap();
    assert!(whole.verify(ABC_SHA256).is_ok());
    let mut resumed = DownloadProgress::resume(1, 3);
    resumed.keep(b"a");
    let resumed = resumed.add(b"b").unwrap().add(b"c").unwrap();
    assert!(resumed.verify(ABC_SHA256).is_ok());
    let wrong = DownloadProgress::resume(0, 3).add(b"abd").unwrap();
    assert!(wrong.verify(ABC_SHA256).unwrap_err().starts_with("DOWNLOAD_HASH_MISMATCH"));
    let short = DownloadProgress::resume(0, 3).add(b"ab").unwrap();
    assert_eq!(short.verify(ABC_SHA256).unwrap_err(), "DOWNLOAD_INCOMPLETE");
}

#[test]
fn answers_are_bounded_and_errors_named() {
    assert!(check_response_size(0, 2097152).is_ok());
    assert_eq!(check_response_size(2097152, 1).unwrap_err(), "REMOTE_RESPONSE_LIMIT");
    assert_eq!(http_error_text(307), "HTTP_307");
    assert_eq!(http_error_text(0), "HTTP_0");
}

#[test]
fn refused_answers_report_their_error_text() {
    assert_eq!(answer_error(br#"{"error":"QUEUE_FULL"}"#, 429), "QUEUE_FULL");
    assert_eq!(answer_error(br#"{"other":1,"error":"UNAUTHORIZED"}"#, 401), "UNAUTHORIZED");
    assert_eq!(answer_error(b"not json", 502), "HTTP_502");
    assert_eq!(answer_error(br#"{"error":5}"#, 500), "HTTP_500");
    assert_eq!(answer_error(br#"["error"]"#, 404), "HTTP_404");
    assert_eq!(answer_error(b"", 503), "HTTP_503");
}
