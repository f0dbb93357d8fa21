//! The filesystem-backed blob store's decisions: one file per token, named
//! by the token, inside a single configured root directory, with a random
//! unique token minted per upload. The file I/O itself is asynchronous and
//! lives with the caller that owns the runtime; what is decided here — the
//! token and the path — is verified.

use vstd::prelude::*;

verus! {

/// A blob store rooted at one directory of the local filesystem.
pub struct LocalFSStore {
    pub path: String,
}

impl LocalFSStore {
    pub fn new(path: String) -> (s: Self)
        ensures
            s.path == path,
    {
        LocalFSStore { path }
    }

    /// Relies on `uuid::Uuid::new_v4()` rendered through `Display`: a
    /// randomly generated version-4 UUID in hyphenated lowercase form,
    /// which is 36 characters long. Nothing more is promised of the value.
    #[verifier::external_body]
    fn fresh_token() -> (r: String)
        ensures
            r@.len() == 36,
    {
        uuid::Uuid::new_v4().to_string()
    }

    /// Where the blob stored under `token` lives: the token appended to
    /// the root directory.
    pub fn blob_path(&self, token: &str) -> (r: String)
        ensures
            r@ == self.path@ + "/"@ + token@,
    {
        self.path.clone().concat("/").concat(token)
    }

    /// Mints the fresh token for one upload and resolves where its file
    /// goes: a 36-character random token, under the root directory.
    pub fn prepare_put(&self) -> (r: (String, String))
        ensures
            r.0@.len() == 36,
            r.1@ == self.path@ + "/"@ + r.0@,
    {
        let token = Self::fresh_token();
        let path = self.blob_path(token.as_str());
        (token, path)
    }
}

} // verus!
