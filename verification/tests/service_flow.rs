use file_upload::entities::UploadedFileQuery;
use file_upload::error::Error;
use file_upload::error::StoreError;
use file_upload::mem_repository::MemRepository;
use file_upload::mem_store::MemStore;
use file_upload::repository::Repository;
use file_upload::service::Service;
use file_upload::store::Store;

fn fresh_service() -> Service<MemRepository, MemStore> {
    Service::new(MemRepository::new(), MemStore::new())
}

#[test]
fn upload_download_round_trip_pdf() {
    let mut svc = fresh_service();
    let bytes: Vec<u8> = vec![10, 20, 30, 40, 50, 60, 70, 80, 90, 100];
    let resp = svc
        .upload(vec![bytes.clone()], "report.pdf", "u1", None)
        .expect("upload under no limit must succeed");
    assert_eq!(resp.mime_type, "application/pdf");
    let (content, mime) = svc
        .download(resp.id.as_str())
        .expect("download of an uploaded id must succeed");
    assert_eq!(content, bytes);
    assert_eq!(mime, "application/pdf");
}

#[test]
fn upload_round_trip_many_chunks() {
    let mut svc = fresh_service();
    let chunks: Vec<Vec<u8>> = vec![vec![1, 2, 3], vec![], vec![4], vec![5, 6]];
    let resp = svc.upload(chunks, "notes.txt", "u9", Some(6)).expect("exactly at the limit");
    assert_eq!(resp.mime_type, "text/plain");
    let (content, mime) = svc.download(resp.id.as_str()).expect("stored blob");
    assert_eq!(content, vec![1, 2, 3, 4, 5, 6]);
    assert_eq!(mime, "text/plain");
}

#[test]
fn upload_over_limit_fails_and_stores_nothing() {
    let mut svc = fresh_service();
    let big: Vec<u8> = vec![7; 2000];
    let r = svc.upload(vec![big], "big.bin", "u1", Some(1000));
    assert!(matches!(r, Err(Error::StoreError(StoreError::SizeLimitExceeded))));
    // No metadata record is retrievable for the failed attempt: the
    // in-memory repository would have assigned "0" first.
    for guess in ["0", "1", "2"] {
        assert!(svc.get_uploaded_file(guess).expect("lookup works").is_none());
        assert!(matches!(svc.download(guess), Err(Error::NotFound)));
    }
    let (_, total) = svc
        .repository
        .query_uploaded_files(&UploadedFileQuery { id_eq: None, uploader_id_eq: None }, None, None)
        .expect("query works");
    assert_eq!(total, 0);
}

#[test]
fn upload_exactly_at_limit_succeeds() {
    let mut svc = fresh_service();
    let r = svc.upload(vec![vec![1, 2], vec![3]], "a.bin", "u1", Some(3));
    assert!(r.is_ok());
}

#[test]
fn limit_is_checked_while_streaming_not_after() {
    let mut svc = fresh_service();
    // Each chunk fits on its own; the cumulative total does not.
    let chunks: Vec<Vec<u8>> = vec![vec![0; 600], vec![0; 600]];
    let r = svc.upload(chunks, "a.bin", "u1", Some(1000));
    assert!(matches!(r, Err(Error::StoreError(StoreError::SizeLimitExceeded))));
}

#[test]
fn empty_stream_under_limit_succeeds() {
    let mut svc = fresh_service();
    let resp = svc.upload(Vec::new(), "empty.txt", "u1", Some(0)).expect("zero bytes fit");
    let (content, _) = svc.download(resp.id.as_str()).expect("stored");
    assert!(content.is_empty());
}

#[test]
fn upload_one_byte_over_limit_fails() {
    let mut svc = fresh_service();
    let r = svc.upload(vec![vec![1, 2], vec![3, 4]], "a.bin", "u1", Some(3));
    assert!(matches!(r, Err(Error::StoreError(StoreError::SizeLimitExceeded))));
}

#[test]
fn owner_check_answers_per_uploader() {
    let mut svc = fresh_service();
    let resp = svc.upload(vec![vec![1]], "a.txt", "u1", None).expect("upload");
    assert_eq!(svc.is_owner(resp.id.as_str(), "u2").expect("record exists"), false);
    assert_eq!(svc.is_owner(resp.id.as_str(), "u1").expect("record exists"), true);
}

#[test]
fn owner_check_of_missing_id_is_not_found() {
    let svc = fresh_service();
    assert!(matches!(svc.is_owner("17", "u1"), Err(Error::NotFound)));
}

#[test]
fn missing_id_reports_not_found_not_backend_error() {
    let svc = fresh_service();
    assert!(svc.get_uploaded_file("42").expect("absence is not an error").is_none());
    assert!(matches!(svc.download("42"), Err(Error::NotFound)));
}

#[test]
fn metadata_records_what_upload_derived() {
    let mut svc = fresh_service();
    let resp = svc.upload(vec![vec![9, 9]], "img.png", "u3", None).expect("upload");
    let rec = svc
        .get_uploaded_file(resp.id.as_str())
        .expect("lookup works")
        .expect("record exists");
    assert_eq!(rec.id, resp.id);
    assert_eq!(rec.origin_name, "img.png");
    assert_eq!(rec.mime_type, "image/png");
    assert_eq!(rec.uploader_id, "u3");
    let blob = svc.store.get(rec.stored_name.as_str()).expect("blob exists");
    assert_eq!(blob, vec![9, 9]);
}

#[test]
fn uploads_get_distinct_ids_and_downloads_do_not_mix() {
    let mut svc = fresh_service();
    let a = svc.upload(vec![vec![1, 1]], "a.pdf", "u1", None).expect("first upload");
    let b = svc.upload(vec![vec![2, 2, 2]], "b.txt", "u2", None).expect("second upload");
    assert_ne!(a.id, b.id);
    let (ca, ma) = svc.download(a.id.as_str()).expect("first blob");
    let (cb, mb) = svc.download(b.id.as_str()).expect("second blob");
    assert_eq!(ca, vec![1, 1]);
    assert_eq!(ma, "application/pdf");
    assert_eq!(cb, vec![2, 2, 2]);
    assert_eq!(mb, "text/plain");
}

#[test]
fn store_get_of_unknown_token_is_token_not_found() {
    let store = MemStore::new();
    assert!(matches!(store.get("nope"), Err(StoreError::TokenNotFound)));
}

#[test]
fn failed_put_keeps_no_blob() {
    let mut store = MemStore::new();
    let r = store.put(vec![vec![1; 10]], Some(5));
    assert!(matches!(r, Err(StoreError::SizeLimitExceeded)));
    let token = store.put(vec![vec![2]], Some(5)).expect("second put fits");
    assert_eq!(store.get(token.as_str()).expect("stored"), vec![2]);
}
