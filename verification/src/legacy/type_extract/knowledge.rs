//! Building the type knowledge base of an algorithm from the modules of its
//! stateful functions.
use vstd::prelude::*;
use crate::legacy::errors::TypeExtractionError;
use crate::legacy::types::{AlgorithmArguments, SfDependency};
use crate::legacy::type_extract::TypeKnowledgeBase;
use crate::legacy::type_extract::parser::{
    check_traverse_ok, spec_traverse, traverse_item_tree, traverse_ok, FunctionInfo, SourceFile, Type, TypeM,
};
use crate::legacy::type_extract::syntax::parse_module;
use crate::legacy::wrapper_code::joined_path;
use crate::text::string_is;

verus! {

/// The type information of one function as plain values: its name, its
/// namespace, its argument types and its result type.
pub type InfoM = (Seq<char>, Seq<Seq<char>>, Seq<TypeM>, TypeM);

/// The contents of a function's type information.
pub open spec fn info_view(f: FunctionInfo) -> InfoM {
    (f.name@, f.namespace.deep_view(), f.arguments@.map_values(|t: Type| t@), f.return_val@)
}

/// The dependency is a builtin of the compiler (namespace `ohua::lang`), which
/// has no module to look at.
pub open spec fn is_builtin_dep(d: SfDependency) -> bool {
    d.qbNamespace.deep_view() == seq!["ohua"@, "lang"@]
}

/// Whether the dependency is a builtin of the compiler.
pub fn is_builtin(d: &SfDependency) -> (r: bool)
    ensures
        r == is_builtin_dep(*d),
{
    proof {
        reveal_strlit("ohua");
        reveal_strlit("lang");
    }
    let ghost v = d.qbNamespace.deep_view();
    if d.qbNamespace.len() != 2 {
        assert(v.len() != 2);
        assert(v != seq!["ohua"@, "lang"@]);
        return false;
    }
    let a = string_is(&d.qbNamespace[0], "ohua");
    let b = string_is(&d.qbNamespace[1], "lang");
    assert(v[0] == d.qbNamespace@[0]@);
    assert(v[1] == d.qbNamespace@[1]@);
    if a && b {
        assert(v =~= seq!["ohua"@, "lang"@]);
        true
    } else {
        assert(v != seq!["ohua"@, "lang"@] || (v[0] == "ohua"@ && v[1] == "lang"@));
        false
    }
}

/// How building the knowledge base goes.
pub enum ExtractionOutcome {
    /// The type information of the functions, in the order of the dependencies.
    Found(Seq<InfoM>),
    /// The module of a dependency could not be had or parsed.
    Failed(TypeExtractionError),
    /// A module does not define the function it should: its name and namespace.
    NotFound(Seq<char>, Seq<char>),
    /// A signature uses types the analysis does not accept.
    Unsupported,
}

/// The outcome after one more dependency `d`, whose module is `m`, given the
/// information `s` gathered so far: builtins are skipped, the first failure ends it.
pub open spec fn extraction_step(s: Seq<InfoM>, d: SfDependency, m: Result<SourceFile, TypeExtractionError>) -> ExtractionOutcome {
    if is_builtin_dep(d) {
        ExtractionOutcome::Found(s)
    } else {
        match m {
            Err(e) => ExtractionOutcome::Failed(e),
            Ok(t) => {
                let ns = d.qbNamespace.deep_view();
                let name = d.qbName@;
                if !traverse_ok(t.items@, Map::empty(), ns, name) {
                    ExtractionOutcome::Unsupported
                } else {
                    match spec_traverse(t.items@, Map::empty(), ns, name) {
                        None => ExtractionOutcome::NotFound(name, joined_path(ns)),
                        Some(found) => ExtractionOutcome::Found(s.push((name, ns, found.0, found.1))),
                    }
                }
            },
        }
    }
}

/// The outcome after the first `k` dependencies.
pub open spec fn extraction_upto(deps: Seq<SfDependency>, modules: Seq<Result<SourceFile, TypeExtractionError>>, k: nat) -> ExtractionOutcome
    decreases k,
{
    if k == 0 {
        ExtractionOutcome::Found(Seq::empty())
    } else {
        match extraction_upto(deps, modules, (k - 1) as nat) {
            ExtractionOutcome::Found(s) => extraction_step(s, deps[k - 1], modules[k - 1]),
            other => other,
        }
    }
}

/// The outcome for all dependencies, each with its parsed module.
pub open spec fn extraction_outcome(deps: Seq<SfDependency>, modules: Seq<Result<SourceFile, TypeExtractionError>>) -> ExtractionOutcome {
    extraction_upto(deps, modules, deps.len())
}

/// `r` is what the outcome `o` gives: the knowledge base of `algo_io` and the
/// functions found, or the error.
pub open spec fn knowledge_matches(r: Result<TypeKnowledgeBase, TypeExtractionError>, o: ExtractionOutcome, algo_io: AlgorithmArguments) -> bool {
    match o {
        ExtractionOutcome::Found(s) => r matches Ok(kb) && kb.algo_io == algo_io
            && kb.functions@.map_values(|f: FunctionInfo| info_view(f)) == s,
        ExtractionOutcome::Failed(e) => r == Err::<TypeKnowledgeBase, TypeExtractionError>(e),
        ExtractionOutcome::NotFound(f, m) => r matches Err(TypeExtractionError::FunctionNotFoundInModule(f2, m2))
            && f2@ == f && m2@ == m,
        ExtractionOutcome::Unsupported => false,
    }
}

/// Once the outcome is no longer `Found`, further dependencies do not change it.
proof fn lemma_outcome_sticks(deps: Seq<SfDependency>, modules: Seq<Result<SourceFile, TypeExtractionError>>, k: nat, n: nat)
    requires
        k <= n,
        !(extraction_upto(deps, modules, k) is Found),
    ensures
        extraction_upto(deps, modules, n) == extraction_upto(deps, modules, k),
    decreases n - k,
{
    if k < n {
        lemma_outcome_sticks(deps, modules, k, (n - 1) as nat);
    }
}

/// Builds the knowledge base of `algo_io` from the dependencies, each with its
/// parsed module (or the error of getting it), in order: builtins are skipped,
/// and the first error ends it.
pub fn knowledge_from_parsed(
    algo_io: AlgorithmArguments,
    deps: Vec<SfDependency>,
    modules: Vec<Result<SourceFile, TypeExtractionError>>,
) -> (r: Result<TypeKnowledgeBase, TypeExtractionError>)
    requires
        deps@.len() == modules@.len(),
        !(extraction_outcome(deps@, modules@) is Unsupported),
    ensures
        knowledge_matches(r, extraction_outcome(deps@, modules@), algo_io),
{
    let ghost d0 = deps@;
    let ghost m0 = modules@;
    let n = deps.len();
    let mut rest_deps = deps;
    let mut rest_modules = modules;
    let mut functions: Vec<FunctionInfo> = Vec::new();
    let mut i: usize = 0;
    assert(functions@.map_values(|f: FunctionInfo| info_view(f)) =~= Seq::<InfoM>::empty());
    while i < n
        invariant
            i <= n,
            n == d0.len(),
            n == m0.len(),
            d0 == deps@,
            m0 == modules@,
            rest_deps@ == d0.subrange(i as int, n as int),
            rest_modules@ == m0.subrange(i as int, n as int),
            !(extraction_outcome(d0, m0) is Unsupported),
            extraction_upto(d0, m0, i as nat) == ExtractionOutcome::Found(functions@.map_values(|f: FunctionInfo| info_view(f))),
        decreases n - i,
    {
        let ghost s = functions@.map_values(|f: FunctionInfo| info_view(f));
        let d = rest_deps.remove(0);
        let m = rest_modules.remove(0);
        assert(d == d0[i as int] && m == m0[i as int]);
        assert(rest_deps@ =~= d0.subrange((i + 1) as int, n as int));
        assert(rest_modules@ =~= m0.subrange((i + 1) as int, n as int));
        assert(extraction_upto(d0, m0, (i + 1) as nat) == extraction_step(s, d, m));
        if !is_builtin(&d) {
            match m {
                Err(e) => {
                    proof {
                        lemma_outcome_sticks(d0, m0, (i + 1) as nat, n as nat);
                    }
                    return Err(e);
                },
                Ok(t) => {
                    proof {
                        if !traverse_ok(t.items@, Map::empty(), d.qbNamespace.deep_view(), d.qbName@) {
                            lemma_outcome_sticks(d0, m0, (i + 1) as nat, n as nat);
                        }
                    }
                    match FunctionInfo::extract(d, t) {
                        Ok(info) => {
                            functions.push(info);
                            assert(functions@.map_values(|f: FunctionInfo| info_view(f)) =~= s.push(info_view(info)));
                        },
                        Err(e) => {
                            proof { lemma_outcome_sticks(d0, m0, (i + 1) as nat, n as nat); }
                            return Err(e);
                        },
                    }
                },
            }
        }
        i = i + 1;
    }
    Ok(TypeKnowledgeBase { functions, algo_io })
}

/// Whether building the knowledge base stays clear of signatures the analysis
/// does not accept (where the earlier type extraction panics).
pub fn extraction_supported(deps: &Vec<SfDependency>, modules: &Vec<Result<SourceFile, TypeExtractionError>>) -> (r: bool)
    requires
        deps@.len() == modules@.len(),
    ensures
        r == !(extraction_outcome(deps@, modules@) is Unsupported),
{
    let n = deps.len();
    let mut i: usize = 0;
    while i < n
        invariant
            i <= n,
            n == deps@.len(),
            n == modules@.len(),
            extraction_upto(deps@, modules@, i as nat) is Found,
        decreases n - i,
    {
        let d = &deps[i];
        let ghost s = extraction_upto(deps@, modules@, i as nat)->Found_0;
        assert(extraction_upto(deps@, modules@, (i + 1) as nat) == extraction_step(s, *d, modules@[i as int]));
        if !is_builtin(d) {
            match &modules[i] {
                Err(_) => {
                    proof { lemma_outcome_sticks(deps@, modules@, (i + 1) as nat, n as nat); }
                    return true;
                },
                Ok(t) => {
                    if !check_traverse_ok(&t.items, d) {
                        proof { lemma_outcome_sticks(deps@, modules@, (i + 1) as nat, n as nat); }
                        return false;
                    }
                    if traverse_item_tree(&t.items, d).is_none() {
                        proof { lemma_outcome_sticks(deps@, modules@, (i + 1) as nat, n as nat); }
                        return true;
                    }
                },
            }
        }
        i = i + 1;
    }
    true
}

/// `p` is what parsing takes from the module text (or read error) `m`: the read
/// error itself, or, where the parse fails, a `ParsingError`.
pub open spec fn parse_respects(m: Result<String, TypeExtractionError>, p: Result<SourceFile, TypeExtractionError>) -> bool {
    match m {
        Err(e) => p == Err::<SourceFile, TypeExtractionError>(e),
        Ok(_) => p is Err ==> p->Err_0 is ParsingError,
    }
}

/// Builds the knowledge base of `algo_io` from the dependencies, each with the
/// text of its module (or the error of reading it), in order: builtins are
/// skipped, each other module is parsed (`parse_module`), and the first error
/// ends it, a parse error as `ParsingError`. `None` where a signature uses types
/// the analysis does not accept. Nothing is claimed of what the parser gives, so
/// the result is stated for some parsed modules, one for each dependency, each
/// holding the read error handed in, or a `ParsingError` where it is an error.
pub fn knowledge_from_modules(
    algo_io: AlgorithmArguments,
    deps: Vec<SfDependency>,
    modules: Vec<Result<String, TypeExtractionError>>,
) -> (r: Option<Result<TypeKnowledgeBase, TypeExtractionError>>)
    requires
        deps@.len() == modules@.len(),
    ensures
        exists|parsed: Seq<Result<SourceFile, TypeExtractionError>>| {
            &&& parsed.len() == deps@.len()
            &&& forall|k: int| 0 <= k < deps@.len() && !is_builtin_dep(deps@[k])
                ==> parse_respects(modules@[k], #[trigger] parsed[k])
            &&& match r {
                None => #[trigger] extraction_outcome(deps@, parsed) is Unsupported,
                Some(x) => knowledge_matches(x, extraction_outcome(deps@, parsed), algo_io),
            }
        },
{
    let ghost m0 = modules@;
    let n = modules.len();
    let mut rest = modules;
    let mut parsed: Vec<Result<SourceFile, TypeExtractionError>> = Vec::new();
    let mut i: usize = 0;
    while i < n
        invariant
            i <= n,
            m0.len() == n,
            rest@ == m0.subrange(i as int, n as int),
            parsed@.len() == i,
            deps@.len() == n,
            forall|k: int| 0 <= k < i && !is_builtin_dep(deps@[k]) ==> parse_respects(m0[k], #[trigger] parsed@[k]),
        decreases n - i,
    {
        let m = rest.remove(0);
        assert(m == m0[i as int]);
        assert(rest@ =~= m0.subrange((i + 1) as int, n as int));
        let p = if is_builtin(&deps[i]) {
            Ok(SourceFile { items: Vec::new() })
        } else {
            match m {
                Err(e) => Err(e),
                Ok(text) => match parse_module(text.as_str()) {
                    Ok(t) => Ok(t),
                    Err(e) => Err(TypeExtractionError::ParsingError(e)),
                },
            }
        };
        parsed.push(p);
        i = i + 1;
    }
    if !extraction_supported(&deps, &parsed) {
        return None;
    }
    let ghost d0 = deps@;
    let ghost p0 = parsed@;
    let r = knowledge_from_parsed(algo_io, deps, parsed);
    assert(p0.len() == d0.len());
    Some(r)
}

} // verus!
