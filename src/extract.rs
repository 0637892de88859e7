//! The decisions that open an extraction, before the archive is decoded.
use vstd::prelude::*;
use crate::entry::{ErrorKind, ExtractError};
use crate::filter::{PermittedPaths, expand_filter, lemma_no_names_admit_nothing, permitted_by};
use crate::paths::copy_bytes;
use crate::select::selects_nothing;

verus! {

/// How an extraction goes on once its inputs are checked.
#[derive(Debug)]
pub enum Start {
    /// Nothing can be selected: the extraction is complete, and the archive
    /// is neither opened nor decoded.
    Finished,
    /// Open the archive and extract the entries that `filter` admits.
    Extract { filter: Option<PermittedPaths> },
}

/// Checks the inputs of an extraction of the archive at `archive`.
///
/// A missing archive is an `ArchiveNotFound` error, checked first. A name
/// filter that is present but admits nothing ends the extraction with
/// success; otherwise the expanded filter is handed on.
pub fn start(archive: &[u8], archive_exists: bool, names: &Option<Vec<String>>) -> (r: Result<
    Start,
    ExtractError,
>)
    ensures
        r.is_err() <==> !archive_exists,
        r.is_err() ==> r.unwrap_err().kind == ErrorKind::ArchiveNotFound && r.unwrap_err().path@
            == archive@,
        archive_exists && names.is_some() && names.unwrap()@.len() == 0 ==> r matches Ok(
            Start::Finished,
        ),
        r.is_ok() ==> match r.unwrap() {
            Start::Finished => names.is_some() && permitted_by(names.unwrap()@) == Set::<
                Seq<u8>,
            >::empty(),
            Start::Extract { filter } => (names.is_none() <==> filter.is_none()) && (
            names.is_some() ==> filter.unwrap()@ == permitted_by(names.unwrap()@)
                && filter.unwrap()@ != Set::<Seq<u8>>::empty()),
        },
{
    if !archive_exists {
        return Err(ExtractError::new(ErrorKind::ArchiveNotFound, copy_bytes(archive)));
    }
    let filter = expand_filter(names);
    proof {
        if names.is_some() && names.unwrap()@.len() == 0 {
            lemma_no_names_admit_nothing(names.unwrap()@);
        }
    }
    if selects_nothing(&filter) {
        Ok(Start::Finished)
    } else {
        Ok(Start::Extract { filter })
    }
}

} // verus!
