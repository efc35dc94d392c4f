//! File system paths, held as text.
use vstd::prelude::*;

verus! {

/// The path that `Path::join` makes of a base path and a further part.
pub uninterp spec fn joined_path(base: Seq<char>, part: Seq<char>) -> Seq<char>;

/// Joins a path and a further part.
///
/// Trusted: calls `std::path::Path::join` and turns the result back into
/// text (losslessly, since both inputs are text). The contract names the
/// result and says nothing of its characters.
#[verifier::external_body]
pub(crate) fn join_path(base: &str, part: &str) -> (res: String)
    ensures
        res@ == joined_path(base@, part@),
{
    std::path::Path::new(base).join(part).to_string_lossy().into_owned()
}

/// Whether something exists at a path.
///
/// Trusted: calls `std::path::Path::exists`. The answer depends on the disk
/// at the moment of the call, so the contract says nothing of it.
#[verifier::external_body]
pub(crate) fn path_exists(path: &str) -> bool {
    std::path::Path::new(path).exists()
}

} // verus!
