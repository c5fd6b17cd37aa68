//! The errors of runtime generation and of type extraction.
use vstd::prelude::*;
use vstd::std_specs::convert::FromSpecImpl;

verus! {

/// An error of the file system, as std reports it.
#[verifier::external_type_specification]
#[verifier::external_body]
pub struct ExIoError(std::io::Error);

/// An error of parsing Rust source, as syn reports it.
#[verifier::external_type_specification]
#[verifier::external_body]
pub struct ExParseError(syn::Error);

/// What can go wrong while the runtime is generated.
pub enum CodeGenerationError {
    TargetDirNotCreated(std::io::Error),
    InconsistentMainArity,
    ModuleDirUndeletable(std::io::Error),
    ModuleDirNotCreated(std::io::Error),
    StaticPopulationFailed(std::io::Error),
    CastGenerationFailed(std::io::Error),
    WrapperGenerationFailed(std::io::Error),
    ModfileGenerationFailed(std::io::Error),
    RuntimeDataCreationFailed(std::io::Error),
    OperatorCreationFailed(std::io::Error),
}

/// The short description of each kind of generation error.
pub open spec fn generation_error_text(e: CodeGenerationError) -> Seq<char> {
    match e {
        CodeGenerationError::TargetDirNotCreated(_) => "Target dir creation failed"@,
        CodeGenerationError::InconsistentMainArity => "Inconsistent MainArity"@,
        CodeGenerationError::ModuleDirUndeletable(_) => "Deletion of old runtime failed"@,
        CodeGenerationError::ModuleDirNotCreated(_) => "Could not create module dir"@,
        CodeGenerationError::StaticPopulationFailed(_) => "Static population failed"@,
        CodeGenerationError::CastGenerationFailed(_) => "GenericType file creation failed"@,
        CodeGenerationError::WrapperGenerationFailed(_) => "Wrapper generation failed"@,
        CodeGenerationError::ModfileGenerationFailed(_) => "ModFile generation failed"@,
        CodeGenerationError::RuntimeDataCreationFailed(_) => "Runtime Structure generation failed"@,
        CodeGenerationError::OperatorCreationFailed(_) => "Operator Module generation failed"@,
    }
}

impl CodeGenerationError {
    /// A short description of the error.
    pub fn description(&self) -> (r: &'static str)
        ensures
            r@ == generation_error_text(*self),
    {
        match self {
            CodeGenerationError::TargetDirNotCreated(_) => "Target dir creation failed",
            CodeGenerationError::InconsistentMainArity => "Inconsistent MainArity",
            CodeGenerationError::ModuleDirUndeletable(_) => "Deletion of old runtime failed",
            CodeGenerationError::ModuleDirNotCreated(_) => "Could not create module dir",
            CodeGenerationError::StaticPopulationFailed(_) => "Static population failed",
            CodeGenerationError::CastGenerationFailed(_) => "GenericType file creation failed",
            CodeGenerationError::WrapperGenerationFailed(_) => "Wrapper generation failed",
            CodeGenerationError::ModfileGenerationFailed(_) => "ModFile generation failed",
            CodeGenerationError::RuntimeDataCreationFailed(_) => "Runtime Structure generation failed",
            CodeGenerationError::OperatorCreationFailed(_) => "Operator Module generation failed",
        }
    }
}

/// Checks that the graph's main arity, read as a `usize`, is the number of
/// argument types in the type dump; `InconsistentMainArity` where it is not.
pub fn check_main_arity(main_arity: i32, n_args: usize) -> (r: Result<(), CodeGenerationError>)
    ensures
        r is Ok <==> main_arity as usize == n_args,
        r is Err ==> r->Err_0 is InconsistentMainArity,
{
    #[verifier::truncate]
    let a = main_arity as usize;
    if a != n_args {
        Err(CodeGenerationError::InconsistentMainArity)
    } else {
        Ok(())
    }
}

/// What can go wrong while type information is extracted.
pub enum TypeExtractionError {
    IOError(std::io::Error),
    ModuleNotFound(String),
    FunctionNotFoundInModule(String, String),
    ParsingError(syn::Error),
    MalformedAlgoImportSpec(String),
}

impl From<std::io::Error> for TypeExtractionError {
    fn from(e: std::io::Error) -> (r: Self) {
        TypeExtractionError::IOError(e)
    }
}

impl FromSpecImpl<std::io::Error> for TypeExtractionError {
    open spec fn obeys_from_spec() -> bool {
        true
    }

    open spec fn from_spec(e: std::io::Error) -> Self {
        TypeExtractionError::IOError(e)
    }
}

impl From<syn::Error> for TypeExtractionError {
    fn from(e: syn::Error) -> (r: Self) {
        TypeExtractionError::ParsingError(e)
    }
}

impl FromSpecImpl<syn::Error> for TypeExtractionError {
    open spec fn obeys_from_spec() -> bool {
        true
    }

    open spec fn from_spec(e: syn::Error) -> Self {
        TypeExtractionError::ParsingError(e)
    }
}

} // verus!
