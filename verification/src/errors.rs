//! The failure taxonomy of the generation run. Every variant but the
//! recoverable prior-hash default is fatal: the run aborts and no partial
//! output file is produced.
use vstd::prelude::*;

verus! {

#[derive(Debug, Clone, PartialEq, Eq)]
pub enum GenError {
    /// No manifest file exists in the base directory.
    ManifestMissing,
    /// The manifest file exists but could not be read.
    ManifestUnreadable,
    /// A fixed module file for one of the five categories does not exist.
    ModuleFileMissing,
    /// The pipeline module declares the open hook but no return content type
    /// could be recovered, neither inline nor by the narrow fallback scan.
    ContentTypeNotFound,
    /// An annotation of a category that carries an explicit key has none.
    AnnotationKeyMissing,
    /// The root segment of the content-type path is not a declared
    /// dependency; carries the offending root and the known dependency list.
    UnresolvedDependencyRoot { root: Vec<u8>, known: Vec<Vec<u8>> },
    /// An expected handle (the entity list or the spider's sole entry) is
    /// absent from its registry.
    RequiredKeyMissing,
}

} // verus!
