//! The metadata record kept for every uploaded file, the record-without-id
//! handed to a repository for insertion, and the filter used to enumerate
//! records.

use vstd::prelude::*;

verus! {

/// Mathematical image of an [`UploadedFile`].
pub ghost struct UploadedFileView {
    pub id: Seq<char>,
    pub origin_name: Seq<char>,
    pub mime_type: Seq<char>,
    pub stored_name: Seq<char>,
    pub uploader_id: Seq<char>,
    pub uploaded_at: int,
}

/// A metadata record: `id` is assigned by the repository, `stored_name` is
/// the opaque token addressing the blob inside the store, `uploaded_at` is a
/// server-assigned Unix timestamp in milliseconds.
pub struct UploadedFile {
    pub id: String,
    pub origin_name: String,
    pub mime_type: String,
    pub stored_name: String,
    pub uploader_id: String,
    pub uploaded_at: i64,
}

impl View for UploadedFile {
    type V = UploadedFileView;

    open spec fn view(&self) -> UploadedFileView {
        UploadedFileView {
            id: self.id@,
            origin_name: self.origin_name@,
            mime_type: self.mime_type@,
            stored_name: self.stored_name@,
            uploader_id: self.uploader_id@,
            uploaded_at: self.uploaded_at as int,
        }
    }
}

impl DeepView for UploadedFile {
    type V = UploadedFileView;

    open spec fn deep_view(&self) -> UploadedFileView {
        self.view()
    }
}

impl UploadedFile {
    /// An exact copy of the record.
    pub fn duplicate(&self) -> (r: UploadedFile)
        ensures
            r@ == self@,
    {
        UploadedFile {
            id: self.id.clone(),
            origin_name: self.origin_name.clone(),
            mime_type: self.mime_type.clone(),
            stored_name: self.stored_name.clone(),
            uploader_id: self.uploader_id.clone(),
            uploaded_at: self.uploaded_at,
        }
    }
}

/// Mathematical image of an [`UploadedFileCreate`].
pub ghost struct UploadedFileCreateView {
    pub origin_name: Seq<char>,
    pub mime_type: Seq<char>,
    pub stored_name: Seq<char>,
    pub uploader_id: Seq<char>,
    pub uploaded_at: int,
}

impl UploadedFileCreateView {
    /// The record that results from inserting this value under `id`.
    pub open spec fn with_id(self, id: Seq<char>) -> UploadedFileView {
        UploadedFileView {
            id: id,
            origin_name: self.origin_name,
            mime_type: self.mime_type,
            stored_name: self.stored_name,
            uploader_id: self.uploader_id,
            uploaded_at: self.uploaded_at,
        }
    }
}

/// A record as handed to a repository for insertion: everything but the id,
/// which the repository assigns.
pub struct UploadedFileCreate {
    pub origin_name: String,
    pub mime_type: String,
    pub stored_name: String,
    pub uploader_id: String,
    pub uploaded_at: i64,
}

impl View for UploadedFileCreate {
    type V = UploadedFileCreateView;

    open spec fn view(&self) -> UploadedFileCreateView {
        UploadedFileCreateView {
            origin_name: self.origin_name@,
            mime_type: self.mime_type@,
            stored_name: self.stored_name@,
            uploader_id: self.uploader_id@,
            uploaded_at: self.uploaded_at as int,
        }
    }
}

/// Mathematical image of an [`UploadedFileQuery`].
pub ghost struct UploadedFileQueryView {
    pub id_eq: Option<Seq<char>>,
    pub uploader_id_eq: Option<Seq<char>>,
}

/// A conjunctive filter over records: an absent constraint matches
/// everything.
pub struct UploadedFileQuery {
    pub id_eq: Option<String>,
    pub uploader_id_eq: Option<String>,
}

impl View for UploadedFileQuery {
    type V = UploadedFileQueryView;

    open spec fn view(&self) -> UploadedFileQueryView {
        UploadedFileQueryView {
            id_eq: match self.id_eq {
                Some(ref s) => Some(s@),
                None => None,
            },
            uploader_id_eq: match self.uploader_id_eq {
                Some(ref s) => Some(s@),
                None => None,
            },
        }
    }
}

/// Whether `rec` satisfies every constraint of `query`.
pub open spec fn query_matches(rec: UploadedFileView, query: UploadedFileQueryView) -> bool {
    &&& match query.id_eq {
        Some(id) => rec.id == id,
        None => true,
    }
    &&& match query.uploader_id_eq {
        Some(u) => rec.uploader_id == u,
        None => true,
    }
}

/// Decides [`query_matches`] on concrete values.
pub fn record_matches(rec: &UploadedFile, query: &UploadedFileQuery) -> (r: bool)
    ensures
        r == query_matches(rec@, query@),
{
    let id_ok = match &query.id_eq {
        Some(id) => rec.id == *id,
        None => true,
    };
    let uploader_ok = match &query.uploader_id_eq {
        Some(u) => rec.uploader_id == *u,
        None => true,
    };
    id_ok && uploader_ok
}

} // verus!
