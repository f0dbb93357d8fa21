use file_upload::entities::{record_matches, UploadedFile, UploadedFileCreate, UploadedFileQuery};
use file_upload::error::{Error, RepositoryError, StoreError};
use file_upload::ids::dec_string;
use file_upload::local_fs::LocalFSStore;
use file_upload::mem_repository::MemRepository;
use file_upload::mime::derive_mime_type;
use file_upload::repository::Repository;
use file_upload::store::SizeTracker;

#[test]
fn mime_is_derived_from_the_extension() {
    assert_eq!(derive_mime_type("report.pdf"), "application/pdf");
    assert_eq!(derive_mime_type("photo.JPG"), "image/jpeg");
    assert_eq!(derive_mime_type("page.html"), "text/html");
}

#[test]
fn mime_falls_back_to_octet_stream() {
    assert_eq!(derive_mime_type("noextension"), "application/octet-stream");
    assert_eq!(derive_mime_type("weird.zzzzz"), "application/octet-stream");
    assert_eq!(derive_mime_type(""), "application/octet-stream");
}

#[test]
fn dec_string_renders_decimal() {
    assert_eq!(dec_string(0), "0");
    assert_eq!(dec_string(7), "7");
    assert_eq!(dec_string(10), "10");
    assert_eq!(dec_string(1234567890), "1234567890");
    assert_eq!(dec_string(u64::MAX), "18446744073709551615");
}

#[test]
fn size_tracker_fails_the_moment_the_total_exceeds() {
    let mut t = SizeTracker::new(Some(10));
    assert!(t.observe(4).is_ok());
    assert!(t.observe(6).is_ok());
    assert!(matches!(t.observe(1), Err(StoreError::SizeLimitExceeded)));
}

#[test]
fn size_tracker_without_limit_accepts_everything() {
    let mut t = SizeTracker::new(None);
    assert!(t.observe(usize::MAX).is_ok());
    assert!(t.observe(usize::MAX).is_ok());
}

#[test]
fn local_fs_store_builds_one_path_per_token() {
    let store = LocalFSStore::new("/tmp/blobs".to_owned());
    assert_eq!(store.path, "/tmp/blobs");
    assert_eq!(store.blob_path("abc"), "/tmp/blobs/abc");
    let (token, path) = store.prepare_put();
    assert_eq!(token.len(), 36);
    assert_eq!(path, format!("/tmp/blobs/{}", token));
    let (token2, _) = store.prepare_put();
    assert_ne!(token, token2);
}

#[test]
fn error_messages_name_the_failing_component() {
    let e = Error::RepositoryError(RepositoryError::Backend("db down".to_owned()));
    assert_eq!(e.message(), "RepositoryError: db down");
    let e = Error::StoreError(StoreError::SizeLimitExceeded);
    assert_eq!(e.message(), "StoreError: Size limit exceeded");
    let e = Error::StoreError(StoreError::TokenNotFound);
    assert_eq!(e.message(), "StoreError: Token not found");
    let e = Error::StoreError(StoreError::Io("disk full".to_owned()));
    assert_eq!(e.message(), "StoreError: disk full");
    let e = Error::RepositoryError(RepositoryError::Constraint("duplicate".to_owned()));
    assert_eq!(e.message(), "RepositoryError: duplicate");
    assert_eq!(Error::NotFound.message(), "File not found");
}

fn record(uploader: &str, name: &str) -> UploadedFileCreate {
    UploadedFileCreate {
        origin_name: name.to_owned(),
        mime_type: "application/octet-stream".to_owned(),
        stored_name: format!("tok-{}", name),
        uploader_id: uploader.to_owned(),
        uploaded_at: 1000,
    }
}

#[test]
fn repository_assigns_fresh_ids_and_finds_records() {
    let mut repo = MemRepository::new();
    let a = repo.insert_uploaded_file(record("u1", "a")).expect("insert");
    let b = repo.insert_uploaded_file(record("u2", "b")).expect("insert");
    assert_ne!(a, b);
    let got = repo.get_uploaded_file(b.as_str()).expect("lookup").expect("exists");
    assert_eq!(got.origin_name, "b");
    assert_eq!(got.uploader_id, "u2");
    assert_eq!(got.uploaded_at, 1000);
    assert!(repo.get_uploaded_file("no-such-id").expect("lookup").is_none());
}

#[test]
fn query_filters_conjunctively_and_counts_all_matches() {
    let mut repo = MemRepository::new();
    for k in 0..5 {
        let uploader = if k % 2 == 0 { "even" } else { "odd" };
        repo.insert_uploaded_file(record(uploader, &format!("f{}", k))).expect("insert");
    }
    let all = UploadedFileQuery { id_eq: None, uploader_id_eq: None };
    let (page, total) = repo.query_uploaded_files(&all, None, None).expect("query");
    assert_eq!(total, 5);
    assert_eq!(page.len(), 5);
    assert_eq!(page[0].origin_name, "f0");
    assert_eq!(page[4].origin_name, "f4");

    let evens = UploadedFileQuery { id_eq: None, uploader_id_eq: Some("even".to_owned()) };
    let (page, total) = repo.query_uploaded_files(&evens, None, None).expect("query");
    assert_eq!(total, 3);
    let names: Vec<&str> = page.iter().map(|r| r.origin_name.as_str()).collect();
    assert_eq!(names, vec!["f0", "f2", "f4"]);

    let one = UploadedFileQuery { id_eq: Some("1".to_owned()), uploader_id_eq: None };
    let (page, total) = repo.query_uploaded_files(&one, None, None).expect("query");
    assert_eq!(total, 1);
    assert_eq!(page[0].origin_name, "f1");

    let mismatch = UploadedFileQuery {
        id_eq: Some("1".to_owned()),
        uploader_id_eq: Some("even".to_owned()),
    };
    let (page, total) = repo.query_uploaded_files(&mismatch, None, None).expect("query");
    assert_eq!(total, 0);
    assert!(page.is_empty());
}

#[test]
fn query_paginates_but_reports_the_full_count() {
    let mut repo = MemRepository::new();
    for k in 0..5 {
        repo.insert_uploaded_file(record("u", &format!("f{}", k))).expect("insert");
    }
    let all = UploadedFileQuery { id_eq: None, uploader_id_eq: None };
    let (page, total) = repo.query_uploaded_files(&all, Some(2), Some(1)).expect("query");
    assert_eq!(total, 5);
    let names: Vec<&str> = page.iter().map(|r| r.origin_name.as_str()).collect();
    assert_eq!(names, vec!["f1", "f2"]);

    let (page, _) = repo.query_uploaded_files(&all, Some(10), Some(4)).expect("query");
    assert_eq!(page.len(), 1);
    assert_eq!(page[0].origin_name, "f4");

    let (page, total) = repo.query_uploaded_files(&all, None, Some(99)).expect("query");
    assert_eq!(total, 5);
    assert!(page.is_empty());

    let (page, _) = repo.query_uploaded_files(&all, Some(0), None).expect("query");
    assert!(page.is_empty());
}

#[test]
fn record_matches_checks_both_constraints() {
    let rec = UploadedFile {
        id: "3".to_owned(),
        origin_name: "x".to_owned(),
        mime_type: "text/plain".to_owned(),
        stored_name: "t".to_owned(),
        uploader_id: "u1".to_owned(),
        uploaded_at: 0,
    };
    let open_query = UploadedFileQuery { id_eq: None, uploader_id_eq: None };
    assert!(record_matches(&rec, &open_query));
    let by_id = UploadedFileQuery { id_eq: Some("3".to_owned()), uploader_id_eq: None };
    assert!(record_matches(&rec, &by_id));
    let both = UploadedFileQuery {
        id_eq: Some("3".to_owned()),
        uploader_id_eq: Some("u2".to_owned()),
    };
    assert!(!record_matches(&rec, &both));
}

#[test]
fn duplicate_copies_every_field() {
    let rec = UploadedFile {
        id: "3".to_owned(),
        origin_name: "x".to_owned(),
        mime_type: "text/plain".to_owned(),
        stored_name: "t".to_owned(),
        uploader_id: "u1".to_owned(),
        uploaded_at: 77,
    };
    let copy = rec.duplicate();
    assert_eq!(copy.id, rec.id);
    assert_eq!(copy.origin_name, rec.origin_name);
    assert_eq!(copy.mime_type, rec.mime_type);
    assert_eq!(copy.stored_name, rec.stored_name);
    assert_eq!(copy.uploader_id, rec.uploader_id);
    assert_eq!(copy.uploaded_at, rec.uploaded_at);
}
