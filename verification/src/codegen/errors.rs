//! The errors of reading the files that type information comes from.
use vstd::prelude::*;
use vstd::std_specs::convert::FromSpecImpl;

verus! {

/// What can go wrong while type information is read: the file system, or parsing.
pub enum TypeExtractionError {
    IOError(std::io::Error),
    ParsingError(syn::Error),
}

impl From<std::io::Error> for TypeExtractionError {
    fn from(e: std::io::Error) -> (r: Self) {
        TypeExtractionError::IOError(e)
    }
}

impl FromSpecImpl<std::io::Error> for TypeExtractionError {
    open spec fn obeys_from_spec() -> bool {
        true
    }

    open spec fn from_spec(e: std::io::Error) -> Self {
        TypeExtractionError::IOError(e)
    }
}

impl From<syn::Error> for TypeExtractionError {
    fn from(e: syn::Error) -> (r: Self) {
        TypeExtractionError::ParsingError(e)
    }
}

impl FromSpecImpl<syn::Error> for TypeExtractionError {
    open spec fn obeys_from_spec() -> bool {
        true
    }

    open spec fn from_spec(e: syn::Error) -> Self {
        TypeExtractionError::ParsingError(e)
    }
}

} // verus!
