//! What the `ohuac` compiler produced for an algorithm, in the earlier generator.
use vstd::prelude::*;
use std::path::PathBuf;

verus! {

/// The files `ohuac` produced for an algorithm.
pub struct OhuaProduction {
    /// Path of the algorithm's source file
    pub src: PathBuf,
    /// Path of the compiled algorithm
    pub ohuao: PathBuf,
    /// Path of the file with the types of the algorithm's arguments and result
    pub typedump: PathBuf,
}

} // verus!
