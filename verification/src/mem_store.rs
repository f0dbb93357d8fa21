//! An in-memory blob store: the backing medium is the process's own
//! memory, so it never fails of its own accord, and the size ceiling is
//! still enforced chunk by chunk while the stream is consumed. Tokens are
//! minted from the entry count rendered in decimal, which makes their
//! freshness provable.

use vstd::prelude::*;
use crate::error::StoreError;
use crate::ids::{dec_rep, dec_string, lemma_dec_rep_injective};
use crate::store::{
    lemma_flatten_take_len_le, lemma_flatten_take_succ, lemma_lookup_blob_at,
    lemma_lookup_blob_none, lookup_blob, SizeTracker, Store,
};

verus! {

/// Copies `src` onto the end of `dst`.
fn append_bytes(dst: &mut Vec<u8>, src: &Vec<u8>)
    ensures
        final(dst)@ == old(dst)@ + src@,
{
    let mut j: usize = 0;
    while j < src.len()
        invariant
            j <= src.len(),
            dst@ == old(dst)@ + src@.take(j as int),
        decreases src.len() - j,
    {
        dst.push(src[j]);
        proof {
            assert(old(dst)@ + src@.take(j as int + 1) =~= (old(dst)@ + src@.take(j as int)).push(
                src@[j as int],
            ));
        }
        j += 1;
    }
    proof {
        assert(src@.take(src@.len() as int) =~= src@);
    }
}

/// Copies a byte vector.
fn copy_bytes(src: &Vec<u8>) -> (r: Vec<u8>)
    ensures
        r@ == src@,
{
    let mut r: Vec<u8> = Vec::new();
    append_bytes(&mut r, src);
    r
}

/// A blob store holding every blob in memory, one (token, bytes) pair per
/// successful put, oldest first.
pub struct MemStore {
    entries: Vec<(String, Vec<u8>)>,
}

impl MemStore {
    #[verifier::type_invariant]
    spec fn inv(self) -> bool {
        forall|i: int|
            0 <= i < self.entries@.len() ==> (#[trigger] self.entries@[i]).0@ == dec_rep(i as nat)
    }

    pub fn new() -> (s: Self)
        ensures
            s.blobs() == Seq::<(Seq<char>, Seq<u8>)>::empty(),
    {
        let s = MemStore { entries: Vec::new() };
        proof {
            assert(s.blobs() =~= Seq::<(Seq<char>, Seq<u8>)>::empty());
        }
        s
    }

    /// Tokens at distinct positions differ, because decimal rendering is
    /// injective.
    proof fn lemma_tokens_distinct(self)
        requires
            self.inv(),
        ensures
            forall|j: int, k: int|
                0 <= j < k < self.blobs().len() ==> (#[trigger] self.blobs()[j]).0
                    != (#[trigger] self.blobs()[k]).0,
    {
        assert forall|j: int, k: int|
            0 <= j < k < self.blobs().len() implies (#[trigger] self.blobs()[j]).0
            != (#[trigger] self.blobs()[k]).0 by {
            if self.blobs()[j].0 == self.blobs()[k].0 {
                lemma_dec_rep_injective(j as nat, k as nat);
            }
        }
    }
}

impl Store for MemStore {
    closed spec fn blobs(&self) -> Seq<(Seq<char>, Seq<u8>)> {
        self.entries@.map_values(|p: (String, Vec<u8>)| (p.0@, p.1@))
    }

    open spec fn reliable(&self) -> bool {
        true
    }

    #[verifier::loop_isolation(false)]
    fn put(&mut self, chunks: Vec<Vec<u8>>, size_limit: Option<u64>) -> (r: Result<
        String,
        StoreError,
    >) {
        proof {
            use_type_invariant(&*self);
        }
        let ghost chunks_view = chunks.deep_view();
        let mut tracker = SizeTracker::new(size_limit);
        let mut data: Vec<u8> = Vec::new();
        let mut i: usize = 0;
        while i < chunks.len()
            invariant
                i <= chunks.len(),
                tracker.limit() == size_limit,
                tracker.seen() == chunks_view.take(i as int).flatten().len(),
                match size_limit {
                    Some(l) => tracker.seen() <= l,
                    None => true,
                },
                data@ == chunks_view.take(i as int).flatten(),
            decreases chunks.len() - i,
        {
            let chunk = &chunks[i];
            proof {
                assert(chunk@ =~= chunks_view[i as int]);
            }
            match tracker.observe(chunk.len()) {
                Ok(()) => {},
                Err(e) => {
                    proof {
                        lemma_flatten_take_succ(chunks_view, i as int);
                        lemma_flatten_take_len_le(chunks_view, i as int + 1);
                    }
                    return Err(e);
                },
            }
            append_bytes(&mut data, chunk);
            proof {
                lemma_flatten_take_succ(chunks_view, i as int);
            }
            i += 1;
        }
        proof {
            assert(chunks_view.take(chunks@.len() as int) =~= chunks_view);
        }
        let token = dec_string(self.entries.len() as u64);
        proof {
            lemma_lookup_blob_none(self.blobs(), token@);
            assert forall|j: int| 0 <= j < self.blobs().len() implies (#[trigger] self.blobs()[j]).0
                != token@ by {
                if self.blobs()[j].0 == token@ {
                    lemma_dec_rep_injective(j as nat, self.entries@.len() as nat);
                }
            }
        }
        let ghost old_entries = self.entries@;
        let out = token.clone();
        let mut entries: Vec<(String, Vec<u8>)> = Vec::new();
        core::mem::swap(&mut self.entries, &mut entries);
        entries.push((token, data));
        proof {
            assert forall|k: int| 0 <= k < entries@.len() implies (#[trigger] entries@[k]).0@
                == dec_rep(k as nat) by {
                if k < old_entries.len() {
                    assert(entries@[k] == old_entries[k]);
                }
            }
        }
        core::mem::swap(&mut self.entries, &mut entries);
        proof {
            assert(self.blobs() =~= old(self).blobs().push((out@, chunks_view.flatten())));
        }
        Ok(out)
    }

    #[verifier::loop_isolation(false)]
    fn get(&self, token: &str) -> (r: Result<Vec<u8>, StoreError>) {
        proof {
            use_type_invariant(&*self);
        }
        let owned = token.to_owned();
        let mut i: usize = 0;
        while i < self.entries.len()
            invariant
                i <= self.entries@.len(),
                forall|j: int| 0 <= j < i ==> (#[trigger] self.entries@[j]).0@ != token@,
            decreases self.entries@.len() - i,
        {
            if self.entries[i].0 == owned {
                proof {
                    self.lemma_tokens_distinct();
                    lemma_lookup_blob_at(self.blobs(), i as int);
                }
                return Ok(copy_bytes(&self.entries[i].1));
            }
            i += 1;
        }
        proof {
            lemma_lookup_blob_none(self.blobs(), token@);
        }
        Err(StoreError::TokenNotFound)
    }
}

} // verus!
