//! Server-side MIME derivation: the type is guessed from the file name's
//! extension once at upload time, falling back to the generic binary type,
//! and never recomputed from the blob's content.

use vstd::prelude::*;

verus! {

/// The MIME type that the extension table associates with `filename`, if
/// any. The table is fixed at compile time, so the result depends on the
/// file name alone.
pub uninterp spec fn mime_guess_of(filename: Seq<char>) -> Option<Seq<char>>;

/// The MIME type stored for a file named `filename`: the table's guess, or
/// the generic binary type when the table has none.
pub open spec fn mime_for(filename: Seq<char>) -> Seq<char> {
    match mime_guess_of(filename) {
        Some(m) => m,
        None => "application/octet-stream"@,
    }
}

/// Relies on `mime_guess::from_path(..).first()`: a lookup in a fixed
/// extension table, case-insensitive on the file name's extension, with no
/// disk access; `None` when the name has no extension or no known mapping.
#[verifier::external_body]
fn guess_mime(filename: &str) -> (r: Option<String>)
    ensures
        match r {
            Some(m) => mime_guess_of(filename@) == Some(m@),
            None => mime_guess_of(filename@) is None,
        },
{
    match mime_guess::from_path(filename).first() {
        Some(m) => Some(m.to_string()),
        None => None,
    }
}

/// Derives the MIME type to store for a file named `filename`.
pub fn derive_mime_type(filename: &str) -> (r: String)
    ensures
        r@ == mime_for(filename@),
{
    match guess_mime(filename) {
        Some(m) => m,
        None => "application/octet-stream".to_owned(),
    }
}

} // verus!
