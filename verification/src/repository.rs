//! Metadata persistence: an abstract capability to insert a file record
//! under a fresh repository-assigned id, fetch a record by id — absence
//! being a normal outcome, distinct from a backend failure — and enumerate
//! a page of records matching a filter together with the total match count.

use vstd::prelude::*;
use crate::entities::{UploadedFile, UploadedFileCreate, UploadedFileQuery, UploadedFileView, UploadedFileQueryView, query_matches};
use crate::error::RepositoryError;

verus! {

/// The record stored under `id`, if any, among `records` (oldest first).
pub open spec fn lookup_record(records: Seq<UploadedFileView>, id: Seq<char>) -> Option<
    UploadedFileView,
>
    decreases records.len(),
{
    if records.len() == 0 {
        None
    } else if records.last().id == id {
        Some(records.last())
    } else {
        lookup_record(records.drop_last(), id)
    }
}

/// Looking up after a push finds the pushed record first, and otherwise
/// what was there before.
pub proof fn lemma_lookup_record_push(
    records: Seq<UploadedFileView>,
    rec: UploadedFileView,
    id: Seq<char>,
)
    ensures
        lookup_record(records.push(rec), id) == if rec.id == id {
            Some(rec)
        } else {
            lookup_record(records, id)
        },
{
    assert(records.push(rec).drop_last() =~= records);
}

/// An id is absent exactly when no record carries it.
pub proof fn lemma_lookup_record_none(records: Seq<UploadedFileView>, id: Seq<char>)
    ensures
        lookup_record(records, id) is None <==> (forall|i: int|
            0 <= i < records.len() ==> (#[trigger] records[i]).id != id),
    decreases records.len(),
{
    if records.len() > 0 {
        lemma_lookup_record_none(records.drop_last(), id);
        assert(records.last() == records[records.len() - 1]);
        if lookup_record(records, id) is None {
            assert forall|i: int| 0 <= i < records.len() implies (#[trigger] records[i]).id
                != id by {
                if i < records.len() - 1 {
                    assert(records.drop_last()[i] == records[i]);
                }
            }
        } else {
            if records.last().id != id {
                let i = choose|i: int|
                    0 <= i < records.drop_last().len() && (#[trigger] records.drop_last()[i]).id
                        == id;
                assert(records[i].id == id);
            }
        }
    }
}

/// A found record is one of the stored records.
pub proof fn lemma_lookup_record_some_index(records: Seq<UploadedFileView>, id: Seq<char>)
    requires
        lookup_record(records, id) is Some,
    ensures
        exists|i: int|
            0 <= i < records.len() && (#[trigger] records[i]) == lookup_record(
                records,
                id,
            ).unwrap(),
    decreases records.len(),
{
    if records.len() > 0 {
        if records.last().id == id {
            assert(records[records.len() - 1] == lookup_record(records, id).unwrap());
        } else {
            lemma_lookup_record_some_index(records.drop_last(), id);
            let i = choose|i: int|
                0 <= i < records.drop_last().len() && (#[trigger] records.drop_last()[i])
                    == lookup_record(records.drop_last(), id).unwrap();
            assert(records[i] == lookup_record(records, id).unwrap());
        }
    }
}

/// With pairwise-distinct ids, a record is what lookup finds under its id.
pub proof fn lemma_lookup_record_at(records: Seq<UploadedFileView>, i: int)
    requires
        0 <= i < records.len(),
        forall|j: int, k: int|
            0 <= j < k < records.len() ==> (#[trigger] records[j]).id != (#[trigger] records[k]).id,
    ensures
        lookup_record(records, records[i].id) == Some(records[i]),
    decreases records.len(),
{
    if i == records.len() - 1 {
        assert(records.last() == records[i]);
    } else {
        assert(records.last() == records[records.len() - 1]);
        assert(records[i].id != records[records.len() - 1].id);
        assert(forall|j: int|
            0 <= j < records.len() - 1 ==> #[trigger] records.drop_last()[j] == records[j]);
        lemma_lookup_record_at(records.drop_last(), i);
    }
}

/// The records among `records` that satisfy `query`, oldest first.
pub open spec fn matched_by(
    records: Seq<UploadedFileView>,
    query: UploadedFileQueryView,
) -> Seq<UploadedFileView> {
    records.filter(|rec: UploadedFileView| query_matches(rec, query))
}

/// Filtering after a push keeps the pushed record exactly when it matches.
pub proof fn lemma_matched_by_push(
    records: Seq<UploadedFileView>,
    rec: UploadedFileView,
    query: UploadedFileQueryView,
)
    ensures
        matched_by(records.push(rec), query) == if query_matches(rec, query) {
            matched_by(records, query).push(rec)
        } else {
            matched_by(records, query)
        },
{
    reveal(Seq::filter);
    assert(records.push(rec).drop_last() =~= records);
    assert(records.push(rec).last() == rec);
}

/// One page out of `matched`: skip `offset` records (none when absent),
/// then take at most `limit` records (all when absent).
pub open spec fn page_of(
    matched: Seq<UploadedFileView>,
    limit: Option<u64>,
    offset: Option<u64>,
) -> Seq<UploadedFileView> {
    let start = match offset {
        Some(o) => if o <= matched.len() {
            o as int
        } else {
            matched.len() as int
        },
        None => 0,
    };
    let end = match limit {
        Some(l) => if start + l <= matched.len() {
            start + l
        } else {
            matched.len() as int
        },
        None => matched.len() as int,
    };
    matched.subrange(start, end)
}

/// An abstract metadata repository: ids are assigned at insert time, never
/// caller-supplied, and what was inserted is visible only through
/// [`Repository::records`].
pub trait Repository: Sized {
    /// The records stored, oldest first.
    spec fn records(&self) -> Seq<UploadedFileView>;

    /// Whether the backend is free of failures of its own: an in-memory
    /// repository always is, a networked one is not.
    spec fn reliable(&self) -> bool;

    /// Persists `file` under a fresh id and returns that id. Only a
    /// fallible backend may fail, and a failure stores nothing.
    fn insert_uploaded_file(&mut self, file: UploadedFileCreate) -> (r: Result<
        String,
        RepositoryError,
    >)
        ensures
            final(self).reliable() == old(self).reliable(),
            match r {
                Ok(id) => {
                    &&& lookup_record(old(self).records(), id@) is None
                    &&& final(self).records() == old(self).records().push(file@.with_id(id@))
                },
                Err(_) => {
                    &&& final(self).records() == old(self).records()
                    &&& !old(self).reliable()
                },
            },
    ;

    /// Fetches the record stored under `id`; `Ok(None)` reports absence,
    /// distinct from a backend failure, which only a fallible backend may
    /// report.
    fn get_uploaded_file(&self, id: &str) -> (r: Result<Option<UploadedFile>, RepositoryError>)
        ensures
            match r {
                Ok(Some(f)) => lookup_record(self.records(), id@) == Some(f@),
                Ok(None) => lookup_record(self.records(), id@) is None,
                Err(_) => !self.reliable(),
            },
    ;

    /// Returns the page selected by `limit` and `offset` out of the records
    /// matching `query`, together with the total count of matches (not the
    /// page size), in a stable order.
    fn query_uploaded_files(
        &self,
        query: &UploadedFileQuery,
        limit: Option<u64>,
        offset: Option<u64>,
    ) -> (r: Result<(Vec<UploadedFile>, u64), RepositoryError>)
        ensures
            match r {
                Ok(page) => {
                    &&& page.1 == matched_by(self.records(), query@).len()
                    &&& page.0.deep_view() == page_of(
                        matched_by(self.records(), query@),
                        limit,
                        offset,
                    )
                },
                Err(_) => !self.reliable(),
            },
    ;
}

} // verus!
