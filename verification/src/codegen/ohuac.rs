//! What the `ohuac` compiler produces for an algorithm.
use vstd::prelude::*;
use std::path::PathBuf;
use crate::text::{nat_decimal, u64_to_string};

verus! {

/// `std::path::PathBuf`, a path on the file system.
#[verifier::external_type_specification]
#[verifier::external_body]
pub struct ExPathBuf(PathBuf);

/// The files `ohuac` produced for an algorithm.
pub struct OhuaProduction {
    /// The algorithm's name
    pub name: String,
    /// Path where the source `ohua` algorithm definition file is stored
    pub src: PathBuf,
    /// Path where the compiled algorithm object file lives _(points to a temp directory!)_
    pub ohuao: PathBuf,
    /// Path where the typedump file generated by `ohuac` lives _(points to a temp directory!)_
    pub typedump: PathBuf,
}

/// The parts of the path, below the current directory, of the `.ohuac` file of
/// an algorithm named by `segments`: `src`, then the segments, the last of them
/// with the extension `ohuac` (segments are identifiers, so they hold no dot).
pub open spec fn spec_ohuac_file_parts(segments: Seq<Seq<char>>) -> Seq<Seq<char>> {
    let parts = seq!["src"@] + segments;
    parts.update(parts.len() - 1, parts.last() + ".ohuac"@)
}

/// The parts of the path of the `.ohuac` file of the algorithm whose full `::`
/// path is `segments`.
pub fn ohuac_file_parts(segments: &Vec<String>) -> (r: Vec<String>)
    ensures
        r.deep_view() == spec_ohuac_file_parts(segments.deep_view()),
{
    let ghost sv = segments.deep_view();
    let mut parts: Vec<String> = Vec::new();
    parts.push(String::from_str("src"));
    proof { reveal_strlit("src"); }
    let n = segments.len();
    let mut i: usize = 0;
    while i < n
        invariant
            i <= n,
            n == sv.len(),
            sv == segments.deep_view(),
            parts.deep_view() == seq!["src"@] + sv.subrange(0, i as int),
        decreases n - i,
    {
        let ghost prev = parts.deep_view();
        parts.push(segments[i].clone());
        assert(parts.deep_view() =~= prev.push(sv[i as int]));
        assert(sv.subrange(0, (i + 1) as int) =~= sv.subrange(0, i as int).push(sv[i as int]));
        i = i + 1;
    }
    assert(sv.subrange(0, n as int) =~= sv);
    let ghost full = parts.deep_view();
    let mut last = parts.pop().unwrap();
    let ghost init = parts.deep_view();
    assert(init =~= full.drop_last());
    last.append(".ohuac");
    parts.push(last);
    assert(parts.deep_view() =~= spec_ohuac_file_parts(sv));
    parts
}

/// The name of the files `ohuac` writes for an algorithm: the stem of its source
/// file followed by the decimal digits of the hash of its path.
pub fn hashed_name(stem: &str, hash: u64) -> (r: String)
    ensures
        r@ == stem@ + nat_decimal(hash as nat),
{
    let mut r = String::from_str(stem);
    let digits = u64_to_string(hash);
    r.append(digits.as_str());
    r
}

} // verus!
