//! The orchestration layer: one Service composes a metadata repository and
//! a blob store behind upload, fetch-metadata, download and ownership-check
//! operations, and owns the ordering policy — the blob write strictly
//! precedes the metadata insert, and no record is ever created for a failed
//! write.

use vstd::prelude::*;
use crate::clock::now_unix_millis;
use crate::entities::{UploadedFile, UploadedFileCreate, UploadedFileView};
use crate::error::{Error, StoreError};
use crate::mime::{derive_mime_type, mime_for};
use crate::repository::{
    lemma_lookup_record_push, lemma_lookup_record_some_index, lookup_record, Repository,
};
use crate::store::{lemma_lookup_blob_push, lookup_blob, Store};

verus! {

/// Every record's storage token addresses a blob in the store: a record is
/// inserted strictly after its blob write succeeds, so the read side can
/// always resolve a found record into bytes.
pub open spec fn backends_consistent<R: Repository, S: Store>(repository: R, store: S) -> bool {
    forall|i: int|
        0 <= i < repository.records().len() ==> lookup_blob(
            store.blobs(),
            (#[trigger] repository.records()[i]).stored_name,
        ) is Some
}

/// What downloading `id` must yield: the bytes stored under the found
/// record's token, paired with the record's stored MIME type.
pub open spec fn download_spec(
    records: Seq<UploadedFileView>,
    blobs: Seq<(Seq<char>, Seq<u8>)>,
    id: Seq<char>,
) -> Option<(Seq<u8>, Seq<char>)> {
    match lookup_record(records, id) {
        Some(rec) => match lookup_blob(blobs, rec.stored_name) {
            Some(bytes) => Some((bytes, rec.mime_type)),
            None => None,
        },
        None => None,
    }
}

/// A successful upload committed exactly one blob under the fresh token
/// `token` and one record under the fresh id `resp.id`, tied together, with
/// the MIME type derived from the file name and the server-assigned
/// timestamp `stamp`.
pub open spec fn upload_committed_with(
    old_records: Seq<UploadedFileView>,
    old_blobs: Seq<(Seq<char>, Seq<u8>)>,
    new_records: Seq<UploadedFileView>,
    new_blobs: Seq<(Seq<char>, Seq<u8>)>,
    chunks: Seq<Seq<u8>>,
    filename: Seq<char>,
    uploader_id: Seq<char>,
    resp: UploadResp,
    token: Seq<char>,
    stamp: int,
) -> bool {
    &&& lookup_blob(old_blobs, token) is None
    &&& new_blobs == old_blobs.push((token, chunks.flatten()))
    &&& lookup_record(old_records, resp.id@) is None
    &&& new_records == old_records.push(
        UploadedFileView {
            id: resp.id@,
            origin_name: filename,
            mime_type: mime_for(filename),
            stored_name: token,
            uploader_id: uploader_id,
            uploaded_at: stamp,
        },
    )
}

/// [`upload_committed_with`], for some fresh token and some timestamp.
pub open spec fn upload_committed(
    old_records: Seq<UploadedFileView>,
    old_blobs: Seq<(Seq<char>, Seq<u8>)>,
    new_records: Seq<UploadedFileView>,
    new_blobs: Seq<(Seq<char>, Seq<u8>)>,
    chunks: Seq<Seq<u8>>,
    filename: Seq<char>,
    uploader_id: Seq<char>,
    resp: UploadResp,
) -> bool {
    exists|token: Seq<char>, stamp: int|
        upload_committed_with(
            old_records,
            old_blobs,
            new_records,
            new_blobs,
            chunks,
            filename,
            uploader_id,
            resp,
            token,
            stamp,
        )
}

/// A failed metadata insert after a successful blob write leaves exactly
/// one unreferenced blob behind — the accepted failure mode.
pub open spec fn orphaned_blob(
    old_blobs: Seq<(Seq<char>, Seq<u8>)>,
    new_blobs: Seq<(Seq<char>, Seq<u8>)>,
    content: Seq<u8>,
    token: Seq<char>,
) -> bool {
    &&& lookup_blob(old_blobs, token) is None
    &&& new_blobs == old_blobs.push((token, content))
}

/// What a successful upload returns: the repository-assigned record id and
/// the MIME type derived from the file name.
pub struct UploadResp {
    pub id: String,
    pub mime_type: String,
}

/// Composes one repository and one store; the only component permitted to
/// couple them.
pub struct Service<R: Repository, S: Store> {
    pub repository: R,
    pub store: S,
}

impl<R: Repository, S: Store> Service<R, S> {
    /// See [`backends_consistent`].
    pub open spec fn wf(&self) -> bool {
        backends_consistent(self.repository, self.store)
    }

    pub fn new(repository: R, store: S) -> (s: Self)
        requires
            backends_consistent(repository, store),
        ensures
            s.repository == repository,
            s.store == store,
            s.wf(),
    {
        Service { repository, store }
    }

    /// Uploads one file: derives the MIME type from `filename`, writes the
    /// chunked stream to the store under the configured ceiling, and only
    /// after that write succeeds inserts the metadata record. A failed
    /// write creates no record; a failed insert may leave one orphaned
    /// blob.
    pub fn upload(
        &mut self,
        chunks: Vec<Vec<u8>>,
        filename: &str,
        uploader_id: &str,
        size_limit: Option<u64>,
    ) -> (r: Result<UploadResp, Error>)
        requires
            old(self).wf(),
        ensures
            final(self).wf(),
            final(self).repository.reliable() == old(self).repository.reliable(),
            final(self).store.reliable() == old(self).store.reliable(),
            match r {
                Ok(resp) => {
                    &&& resp.mime_type@ == mime_for(filename@)
                    &&& upload_committed(
                        old(self).repository.records(),
                        old(self).store.blobs(),
                        final(self).repository.records(),
                        final(self).store.blobs(),
                        chunks.deep_view(),
                        filename@,
                        uploader_id@,
                        resp,
                    )
                    &&& match size_limit {
                        Some(l) => chunks.deep_view().flatten().len() <= l,
                        None => true,
                    }
                },
                Err(Error::StoreError(StoreError::SizeLimitExceeded)) => {
                    &&& size_limit matches Some(l) && chunks.deep_view().flatten().len() > l
                    &&& final(self).repository.records() == old(self).repository.records()
                    &&& final(self).store.blobs() == old(self).store.blobs()
                },
                Err(Error::StoreError(_)) => {
                    &&& !old(self).store.reliable()
                    &&& final(self).repository.records() == old(self).repository.records()
                    &&& final(self).store.blobs() == old(self).store.blobs()
                },
                Err(Error::RepositoryError(_)) => {
                    &&& !old(self).repository.reliable()
                    &&& final(self).repository.records() == old(self).repository.records()
                    &&& (final(self).store.blobs() == old(self).store.blobs() || exists|
                        token: Seq<char>,
                    |
                        orphaned_blob(
                            old(self).store.blobs(),
                            final(self).store.blobs(),
                            chunks.deep_view().flatten(),
                            token,
                        ))
                },
                Err(Error::NotFound) => false,
            },
            (old(self).repository.reliable() && old(self).store.reliable() && match size_limit {
                Some(l) => chunks.deep_view().flatten().len() <= l,
                None => true,
            }) ==> r is Ok,
    {
        let ghost chunks_view = chunks.deep_view();
        let mime_type = derive_mime_type(filename);
        let token = match self.store.put(chunks, size_limit) {
            Ok(t) => t,
            Err(e) => {
                return Err(Error::StoreError(e));
            },
        };
        let ghost blob_entry = (token@, chunks_view.flatten());
        proof {
            assert forall|i: int| 0 <= i < self.repository.records().len() implies lookup_blob(
                self.store.blobs(),
                (#[trigger] self.repository.records()[i]).stored_name,
            ) is Some by {
                lemma_lookup_blob_push(
                    old(self).store.blobs(),
                    blob_entry,
                    self.repository.records()[i].stored_name,
                );
            }
        }
        let stamp = now_unix_millis();
        let file = UploadedFileCreate {
            origin_name: filename.to_owned(),
            mime_type: mime_type.clone(),
            stored_name: token.clone(),
            uploader_id: uploader_id.to_owned(),
            uploaded_at: stamp,
        };
        let ghost file_view = file@;
        let id = match self.repository.insert_uploaded_file(file) {
            Ok(id) => id,
            Err(e) => {
                proof {
                    assert(orphaned_blob(
                        old(self).store.blobs(),
                        self.store.blobs(),
                        chunks_view.flatten(),
                        token@,
                    ));
                }
                return Err(Error::RepositoryError(e));
            },
        };
        let resp = UploadResp { id, mime_type };
        proof {
            lemma_lookup_blob_push(old(self).store.blobs(), blob_entry, token@);
            assert forall|i: int| 0 <= i < self.repository.records().len() implies lookup_blob(
                self.store.blobs(),
                (#[trigger] self.repository.records()[i]).stored_name,
            ) is Some by {
                if i < self.repository.records().len() - 1 {
                    assert(self.repository.records()[i] == old(self).repository.records()[i]);
                } else {
                    assert(self.repository.records()[i] == file_view.with_id(resp.id@));
                }
                lemma_lookup_blob_push(
                    old(self).store.blobs(),
                    blob_entry,
                    self.repository.records()[i].stored_name,
                );
            }
            assert(upload_committed_with(
                old(self).repository.records(),
                old(self).store.blobs(),
                self.repository.records(),
                self.store.blobs(),
                chunks_view,
                filename@,
                uploader_id@,
                resp,
                token@,
                stamp as int,
            ));
        }
        Ok(resp)
    }

    /// Fetches the metadata record stored under `id`; absence is reported
    /// as `Ok(None)`, distinct from a backend failure.
    pub fn get_uploaded_file(&self, id: &str) -> (r: Result<Option<UploadedFile>, Error>)
        ensures
            match r {
                Ok(Some(f)) => lookup_record(self.repository.records(), id@) == Some(f@),
                Ok(None) => lookup_record(self.repository.records(), id@) is None,
                Err(Error::RepositoryError(_)) => !self.repository.reliable(),
                Err(_) => false,
            },
            self.repository.reliable() ==> r is Ok,
    {
        match self.repository.get_uploaded_file(id) {
            Ok(f) => Ok(f),
            Err(e) => Err(Error::RepositoryError(e)),
        }
    }

    /// Resolves `id` into the stored bytes and the record's stored MIME
    /// type; a missing record is reported as [`Error::NotFound`], never as
    /// a backend failure.
    pub fn download(&self, id: &str) -> (r: Result<(Vec<u8>, String), Error>)
        requires
            self.wf(),
        ensures
            match r {
                Ok(out) => download_spec(self.repository.records(), self.store.blobs(), id@)
                    == Some((out.0@, out.1@)),
                Err(Error::NotFound) => lookup_record(self.repository.records(), id@) is None,
                Err(Error::RepositoryError(_)) => !self.repository.reliable(),
                Err(Error::StoreError(_)) => !self.store.reliable(),
            },
            (self.repository.reliable() && self.store.reliable()) ==> (r is Ok <==> lookup_record(
                self.repository.records(),
                id@,
            ) is Some),
    {
        let rec = match self.repository.get_uploaded_file(id) {
            Ok(Some(rec)) => rec,
            Ok(None) => {
                return Err(Error::NotFound);
            },
            Err(e) => {
                return Err(Error::RepositoryError(e));
            },
        };
        proof {
            lemma_lookup_record_some_index(self.repository.records(), id@);
            let i = choose|i: int|
                0 <= i < self.repository.records().len() && (#[trigger] self.repository.records()[i])
                    == lookup_record(self.repository.records(), id@).unwrap();
            assert(lookup_blob(
                self.store.blobs(),
                self.repository.records()[i].stored_name,
            ) is Some);
        }
        match self.store.get(rec.stored_name.as_str()) {
            Ok(bytes) => Ok((bytes, rec.mime_type)),
            Err(e) => Err(Error::StoreError(e)),
        }
    }

    /// Whether `uploader_id` is the principal recorded against `id` at
    /// upload time; a missing record is an error here — ownership of a
    /// nonexistent file cannot be asserted — distinct from `Ok(false)`.
    pub fn is_owner(&self, id: &str, uploader_id: &str) -> (r: Result<bool, Error>)
        ensures
            match r {
                Ok(b) => lookup_record(self.repository.records(), id@) matches Some(rec) && b == (
                rec.uploader_id == uploader_id@),
                Err(Error::NotFound) => lookup_record(self.repository.records(), id@) is None,
                Err(Error::RepositoryError(_)) => !self.repository.reliable(),
                Err(_) => false,
            },
            self.repository.reliable() ==> (r is Ok <==> lookup_record(
                self.repository.records(),
                id@,
            ) is Some),
    {
        match self.repository.get_uploaded_file(id) {
            Ok(Some(rec)) => {
                let candidate = uploader_id.to_owned();
                Ok(rec.uploader_id == candidate)
            },
            Ok(None) => Err(Error::NotFound),
            Err(e) => Err(Error::RepositoryError(e)),
        }
    }
}

/// Law: what a committed upload stored is exactly what download must yield
/// — the flattened input bytes, paired with the MIME type derived from the
/// uploaded file's name.
pub proof fn lemma_upload_then_download(
    old_records: Seq<UploadedFileView>,
    old_blobs: Seq<(Seq<char>, Seq<u8>)>,
    new_records: Seq<UploadedFileView>,
    new_blobs: Seq<(Seq<char>, Seq<u8>)>,
    chunks: Seq<Seq<u8>>,
    filename: Seq<char>,
    uploader_id: Seq<char>,
    resp: UploadResp,
)
    requires
        upload_committed(
            old_records,
            old_blobs,
            new_records,
            new_blobs,
            chunks,
            filename,
            uploader_id,
            resp,
        ),
    ensures
        download_spec(new_records, new_blobs, resp.id@) == Some(
            (chunks.flatten(), mime_for(filename)),
        ),
{
    let (token, stamp) = choose|token: Seq<char>, stamp: int|
        upload_committed_with(
            old_records,
            old_blobs,
            new_records,
            new_blobs,
            chunks,
            filename,
            uploader_id,
            resp,
            token,
            stamp,
        );
    let rec = UploadedFileView {
        id: resp.id@,
        origin_name: filename,
        mime_type: mime_for(filename),
        stored_name: token,
        uploader_id: uploader_id,
        uploaded_at: stamp,
    };
    lemma_lookup_record_push(old_records, rec, resp.id@);
    lemma_lookup_blob_push(old_blobs, (token, chunks.flatten()), token);
}

/// Law: the uploader recorded against a committed upload's id is the
/// uploader that made the upload, so an ownership check under that id
/// answers `true` exactly for that uploader.
pub proof fn lemma_upload_then_owner(
    old_records: Seq<UploadedFileView>,
    old_blobs: Seq<(Seq<char>, Seq<u8>)>,
    new_records: Seq<UploadedFileView>,
    new_blobs: Seq<(Seq<char>, Seq<u8>)>,
    chunks: Seq<Seq<u8>>,
    filename: Seq<char>,
    uploader_id: Seq<char>,
    resp: UploadResp,
)
    requires
        upload_committed(
            old_records,
            old_blobs,
            new_records,
            new_blobs,
            chunks,
            filename,
            uploader_id,
            resp,
        ),
    ensures
        lookup_record(new_records, resp.id@) matches Some(rec) && rec.uploader_id == uploader_id,
{
    let (token, stamp) = choose|token: Seq<char>, stamp: int|
        upload_committed_with(
            old_records,
            old_blobs,
            new_records,
            new_blobs,
            chunks,
            filename,
            uploader_id,
            resp,
            token,
            stamp,
        );
    let rec = UploadedFileView {
        id: resp.id@,
        origin_name: filename,
        mime_type: mime_for(filename),
        stored_name: token,
        uploader_id: uploader_id,
        uploaded_at: stamp,
    };
    lemma_lookup_record_push(old_records, rec, resp.id@);
}

} // verus!
