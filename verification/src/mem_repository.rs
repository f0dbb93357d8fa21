//! An in-memory metadata repository: the backend is the process's own
//! memory, so it never fails of its own accord. Ids are minted from the
//! record count rendered in decimal, which makes their freshness provable,
//! and enumeration is in insertion order, which keeps query results stable.

use vstd::prelude::*;
use crate::entities::{UploadedFile, UploadedFileCreate, UploadedFileQuery};
use crate::error::RepositoryError;
use crate::ids::{dec_rep, dec_string, lemma_dec_rep_injective};
use crate::repository::{
    lemma_lookup_record_at, lemma_lookup_record_none, lemma_matched_by_push, lookup_record,
    matched_by, page_of, Repository,
};

verus! {

/// A metadata repository holding every record in memory, oldest first.
pub struct MemRepository {
    records: Vec<UploadedFile>,
}

impl MemRepository {
    #[verifier::type_invariant]
    spec fn inv(self) -> bool {
        forall|i: int|
            0 <= i < self.records@.len() ==> (#[trigger] self.records@[i])@.id == dec_rep(i as nat)
    }

    pub fn new() -> (s: Self)
        ensures
            s.records() == Seq::<crate::entities::UploadedFileView>::empty(),
    {
        let s = MemRepository { records: Vec::new() };
        proof {
            assert(s.records() =~= Seq::<crate::entities::UploadedFileView>::empty());
        }
        s
    }

    /// Ids at distinct positions differ, because decimal rendering is
    /// injective.
    proof fn lemma_ids_distinct(self)
        requires
            self.inv(),
        ensures
            forall|j: int, k: int|
                0 <= j < k < self.records().len() ==> (#[trigger] self.records()[j]).id
                    != (#[trigger] self.records()[k]).id,
    {
        assert forall|j: int, k: int|
            0 <= j < k < self.records().len() implies (#[trigger] self.records()[j]).id
            != (#[trigger] self.records()[k]).id by {
            if self.records()[j].id == self.records()[k].id {
                lemma_dec_rep_injective(j as nat, k as nat);
            }
        }
    }
}

impl Repository for MemRepository {
    closed spec fn records(&self) -> Seq<crate::entities::UploadedFileView> {
        self.records.deep_view()
    }

    open spec fn reliable(&self) -> bool {
        true
    }

    fn insert_uploaded_file(&mut self, file: UploadedFileCreate) -> (r: Result<
        String,
        RepositoryError,
    >) {
        proof {
            use_type_invariant(&*self);
        }
        let ghost file_view = file@;
        let id = dec_string(self.records.len() as u64);
        proof {
            lemma_lookup_record_none(self.records(), id@);
            assert forall|j: int|
                0 <= j < self.records().len() implies (#[trigger] self.records()[j]).id
                != id@ by {
                if self.records()[j].id == id@ {
                    lemma_dec_rep_injective(j as nat, self.records@.len() as nat);
                }
            }
        }
        let rec = UploadedFile {
            id: id.clone(),
            origin_name: file.origin_name,
            mime_type: file.mime_type,
            stored_name: file.stored_name,
            uploader_id: file.uploader_id,
            uploaded_at: file.uploaded_at,
        };
        let ghost old_records = self.records@;
        let mut records: Vec<UploadedFile> = Vec::new();
        core::mem::swap(&mut self.records, &mut records);
        records.push(rec);
        proof {
            assert forall|k: int| 0 <= k < records@.len() implies (#[trigger] records@[k])@.id
                == dec_rep(k as nat) by {
                if k < old_records.len() {
                    assert(records@[k] == old_records[k]);
                }
            }
        }
        core::mem::swap(&mut self.records, &mut records);
        proof {
            assert(self.records() =~= old(self).records().push(file_view.with_id(id@)));
        }
        Ok(id)
    }

    #[verifier::loop_isolation(false)]
    fn get_uploaded_file(&self, id: &str) -> (r: Result<Option<UploadedFile>, RepositoryError>) {
        proof {
            use_type_invariant(&*self);
        }
        let owned = id.to_owned();
        let mut i: usize = 0;
        while i < self.records.len()
            invariant
                i <= self.records@.len(),
                forall|j: int| 0 <= j < i ==> (#[trigger] self.records@[j])@.id != id@,
            decreases self.records@.len() - i,
        {
            if self.records[i].id == owned {
                proof {
                    self.lemma_ids_distinct();
                    lemma_lookup_record_at(self.records(), i as int);
                }
                return Ok(Some(self.records[i].duplicate()));
            }
            i += 1;
        }
        proof {
            lemma_lookup_record_none(self.records(), id@);
        }
        Ok(None)
    }

    #[verifier::loop_isolation(false)]
    fn query_uploaded_files(
        &self,
        query: &UploadedFileQuery,
        limit: Option<u64>,
        offset: Option<u64>,
    ) -> (r: Result<(Vec<UploadedFile>, u64), RepositoryError>) {
        let mut matched: Vec<UploadedFile> = Vec::new();
        let mut i: usize = 0;
        while i < self.records.len()
            invariant
                i <= self.records@.len(),
                matched.deep_view() == matched_by(self.records().take(i as int), query@),
            decreases self.records@.len() - i,
        {
            let rec = &self.records[i];
            proof {
                assert(self.records().take(i as int + 1) =~= self.records().take(i as int).push(
                    self.records()[i as int],
                ));
                lemma_matched_by_push(self.records().take(i as int), self.records()[i as int], query@);
            }
            if crate::entities::record_matches(rec, query) {
                matched.push(rec.duplicate());
                proof {
                    assert(matched.deep_view() =~= matched_by(
                        self.records().take(i as int + 1),
                        query@,
                    ));
                }
            }
            i += 1;
        }
        proof {
            assert(self.records().take(self.records@.len() as int) =~= self.records());
        }
        let total: u64 = matched.len() as u64;
        let start: usize = match offset {
            Some(o) => {
                if o <= matched.len() as u64 {
                    o as usize
                } else {
                    matched.len()
                }
            },
            None => 0,
        };
        let end: usize = match limit {
            Some(l) => {
                if start as u128 + l as u128 <= matched.len() as u128 {
                    proof {
                        assert(l <= usize::MAX);
                    }
                    start + l as usize
                } else {
                    matched.len()
                }
            },
            None => matched.len(),
        };
        let ghost matched_view = matched.deep_view();
        let mut page: Vec<UploadedFile> = Vec::new();
        let mut j: usize = start;
        while j < end
            invariant
                start <= j <= end,
                page.deep_view() == matched_view.subrange(start as int, j as int),
            decreases end - j,
        {
            page.push(matched[j].duplicate());
            proof {
                assert(page.deep_view() =~= matched_view.subrange(start as int, j as int + 1));
            }
            j += 1;
        }
        proof {
            assert(page.deep_view() == page_of(matched_view, limit, offset));
        }
        Ok((page, total))
    }
}

} // verus!
