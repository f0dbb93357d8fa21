//! Blob persistence: an abstract capability to write a chunked byte stream
//! under a fresh opaque token — enforcing an optional byte-count ceiling
//! while writing, not after buffering — and to read the bytes back by token.

use vstd::prelude::*;
use crate::error::StoreError;

verus! {

/// The bytes stored under `token`, if any, among `entries` ((token, bytes)
/// pairs, oldest first).
pub open spec fn lookup_blob(entries: Seq<(Seq<char>, Seq<u8>)>, token: Seq<char>) -> Option<
    Seq<u8>,
>
    decreases entries.len(),
{
    if entries.len() == 0 {
        None
    } else if entries.last().0 == token {
        Some(entries.last().1)
    } else {
        lookup_blob(entries.drop_last(), token)
    }
}

/// Looking up after a push finds the pushed pair first, and otherwise what
/// was there before.
pub proof fn lemma_lookup_blob_push(
    entries: Seq<(Seq<char>, Seq<u8>)>,
    entry: (Seq<char>, Seq<u8>),
    token: Seq<char>,
)
    ensures
        lookup_blob(entries.push(entry), token) == if entry.0 == token {
            Some(entry.1)
        } else {
            lookup_blob(entries, token)
        },
{
    assert(entries.push(entry).drop_last() =~= entries);
}

/// A token is absent exactly when no pair carries it.
pub proof fn lemma_lookup_blob_none(entries: Seq<(Seq<char>, Seq<u8>)>, token: Seq<char>)
    ensures
        lookup_blob(entries, token) is None <==> (forall|i: int|
            0 <= i < entries.len() ==> (#[trigger] entries[i]).0 != token),
    decreases entries.len(),
{
    if entries.len() > 0 {
        lemma_lookup_blob_none(entries.drop_last(), token);
        assert(entries.last() == entries[entries.len() - 1]);
        if lookup_blob(entries, token) is None {
            assert forall|i: int| 0 <= i < entries.len() implies (#[trigger] entries[i]).0
                != token by {
                if i < entries.len() - 1 {
                    assert(entries.drop_last()[i] == entries[i]);
                }
            }
        } else {
            if entries.last().0 != token {
                let i = choose|i: int|
                    0 <= i < entries.drop_last().len() && (#[trigger] entries.drop_last()[i]).0
                        == token;
                assert(entries[i].0 == token);
            }
        }
    }
}

/// With pairwise-distinct tokens, a pair's bytes are what lookup finds.
pub proof fn lemma_lookup_blob_at(entries: Seq<(Seq<char>, Seq<u8>)>, i: int)
    requires
        0 <= i < entries.len(),
        forall|j: int, k: int|
            0 <= j < k < entries.len() ==> (#[trigger] entries[j]).0 != (#[trigger] entries[k]).0,
    ensures
        lookup_blob(entries, entries[i].0) == Some(entries[i].1),
    decreases entries.len(),
{
    if i == entries.len() - 1 {
        assert(entries.last() == entries[i]);
    } else {
        assert(entries.last() == entries[entries.len() - 1]);
        assert(entries[i].0 != entries[entries.len() - 1].0);
        assert(forall|j: int|
            0 <= j < entries.len() - 1 ==> #[trigger] entries.drop_last()[j] == entries[j]);
        lemma_lookup_blob_at(entries.drop_last(), i);
    }
}

/// One more chunk extends the flattened prefix by exactly that chunk.
pub proof fn lemma_flatten_take_succ(chunks: Seq<Seq<u8>>, i: int)
    requires
        0 <= i < chunks.len(),
    ensures
        chunks.take(i + 1).flatten() == chunks.take(i).flatten() + chunks[i],
{
    assert(chunks.take(i + 1) =~= chunks.take(i).push(chunks[i]));
    chunks.take(i).lemma_flatten_push(chunks[i]);
}

/// A flattened prefix is never longer than the whole flattened stream.
pub proof fn lemma_flatten_take_len_le(chunks: Seq<Seq<u8>>, i: int)
    requires
        0 <= i <= chunks.len(),
    ensures
        chunks.take(i).flatten().len() <= chunks.flatten().len(),
    decreases chunks.len() - i,
{
    if i == chunks.len() {
        assert(chunks.take(i) =~= chunks);
    } else {
        lemma_flatten_take_succ(chunks, i);
        lemma_flatten_take_len_le(chunks, i + 1);
    }
}

/// The running byte count of a streaming write: fed one chunk length at a
/// time, it fails the moment the cumulative total exceeds the configured
/// ceiling, so the check happens during the write, never after buffering.
pub struct SizeTracker {
    limit: Option<u64>,
    used: u64,
    seen: Ghost<nat>,
}

impl SizeTracker {
    #[verifier::type_invariant]
    spec fn inv(self) -> bool {
        match self.limit {
            Some(l) => self.used == self.seen@ && self.seen@ <= l,
            None => true,
        }
    }

    /// The configured ceiling, if any.
    pub closed spec fn limit(self) -> Option<u64> {
        self.limit
    }

    /// How many bytes have been accepted so far.
    pub closed spec fn seen(self) -> nat {
        self.seen@
    }

    pub fn new(limit: Option<u64>) -> (t: Self)
        ensures
            t.limit() == limit,
            t.seen() == 0,
    {
        SizeTracker { limit, used: 0, seen: Ghost(0) }
    }

    /// Accounts one incoming chunk of `len` bytes: fails exactly when the
    /// running total would exceed the ceiling, and accepts the chunk
    /// otherwise.
    pub fn observe(&mut self, len: usize) -> (r: Result<(), StoreError>)
        ensures
            final(self).limit() == old(self).limit(),
            match r {
                Ok(()) => {
                    &&& final(self).seen() == old(self).seen() + len
                    &&& match old(self).limit() {
                        Some(l) => old(self).seen() + len <= l,
                        None => true,
                    }
                },
                Err(e) => {
                    &&& e is SizeLimitExceeded
                    &&& final(self).seen() == old(self).seen()
                    &&& old(self).limit() matches Some(l) && old(self).seen() + len > l
                },
            },
    {
        proof {
            use_type_invariant(&*self);
        }
        match self.limit {
            Some(l) => {
                let sum: u128 = self.used as u128 + len as u128;
                if sum > l as u128 {
                    Err(StoreError::SizeLimitExceeded)
                } else {
                    let ghost grown = self.seen@ + len as nat;
                    *self = SizeTracker {
                        limit: Some(l),
                        used: sum as u64,
                        seen: Ghost(grown),
                    };
                    Ok(())
                }
            },
            None => {
                self.seen = Ghost(self.seen@ + len as nat);
                Ok(())
            },
        }
    }
}

/// An abstract blob store: tokens are opaque, and a record of what was put
/// is visible only through [`Store::blobs`].
pub trait Store: Sized {
    /// The (token, bytes) pairs stored, oldest first.
    spec fn blobs(&self) -> Seq<(Seq<char>, Seq<u8>)>;

    /// Whether the backing medium is free of failures of its own: an
    /// in-memory store always is, a disk- or network-backed one is not.
    spec fn reliable(&self) -> bool;

    /// Writes `chunks` as one blob under a fresh token. With a ceiling set,
    /// the cumulative byte count is checked chunk by chunk, and the write
    /// fails with [`StoreError::SizeLimitExceeded`] — keeping no blob —
    /// exactly when the total exceeds the ceiling; any other failure also
    /// keeps no blob and only a fallible backing medium may report one.
    fn put(&mut self, chunks: Vec<Vec<u8>>, size_limit: Option<u64>) -> (r: Result<
        String,
        StoreError,
    >)
        ensures
            final(self).reliable() == old(self).reliable(),
            match r {
                Ok(token) => {
                    &&& lookup_blob(old(self).blobs(), token@) is None
                    &&& final(self).blobs() == old(self).blobs().push(
                        (token@, chunks.deep_view().flatten()),
                    )
                    &&& match size_limit {
                        Some(l) => chunks.deep_view().flatten().len() <= l,
                        None => true,
                    }
                },
                Err(StoreError::SizeLimitExceeded) => {
                    &&& final(self).blobs() == old(self).blobs()
                    &&& size_limit matches Some(l) && chunks.deep_view().flatten().len() > l
                },
                Err(_) => {
                    &&& final(self).blobs() == old(self).blobs()
                    &&& !old(self).reliable()
                },
            },
    ;

    /// Reads back the bytes written under `token` by a prior successful
    /// put; a missing token is reported as [`StoreError::TokenNotFound`],
    /// and only a fallible backing medium may report anything else.
    fn get(&self, token: &str) -> (r: Result<Vec<u8>, StoreError>)
        ensures
            match r {
                Ok(bytes) => lookup_blob(self.blobs(), token@) == Some(bytes@),
                Err(StoreError::TokenNotFound) => lookup_blob(self.blobs(), token@) is None,
                Err(_) => !self.reliable(),
            },
    ;
}

} // verus!
