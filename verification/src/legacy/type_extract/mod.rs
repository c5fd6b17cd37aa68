//! Type information for the stateful functions of an algorithm: what their
//! arguments and results are, and where those types are imported from.
pub mod parser;
pub mod algo_io_imports;
pub mod syntax;
pub mod knowledge;

use vstd::prelude::*;
use crate::legacy::types::AlgorithmArguments;
use crate::legacy::type_extract::parser::{FunctionInfo, Type};
use crate::legacy::type_extract::algo_io_imports::{find_paths_for_used_types, fn_type_entries, first_type_paths, has_type, normalized, type_entries};
use crate::template::replace_str;

verus! {

/// Knowledge base for type information of a single algorithm.
pub struct TypeKnowledgeBase {
    /// per-function type information
    pub functions: Vec<FunctionInfo>,
    /// Input-Output information for the algorithm
    pub algo_io: AlgorithmArguments,
}

/// The information is about the function `name` in `namespace`.
pub open spec fn is_info_for(f: FunctionInfo, name: Seq<char>, namespace: Seq<Seq<char>>) -> bool {
    f.name@ == name && f.namespace.deep_view() == namespace
}

/// Parses the text as a type (`syn::parse_str::<syn::Type>`) and prints its tokens
/// (`quote::ToTokens::to_token_stream`, then `to_string`); `None` when the parse
/// fails. Nothing is claimed of the result: the printed text depends on which token
/// printer proc-macro2 picks at run time, and whether the parse succeeds on the
/// lexer that it picks.
#[verifier::external_body]
fn parse_type_tokens(text: &String) -> (r: Option<String>) {
    match syn::parse_str::<syn::Type>(text) {
        Ok(t) => Some(quote::ToTokens::to_token_stream(&t).to_string()),
        Err(_) => None,
    }
}

/// The imports of the types whose printed tokens are `tokens`, each looked up in
/// the type information of the functions; `None` when a type is unknown.
pub open spec fn tokens_imports(tokens: Seq<Seq<char>>, fs: Seq<FunctionInfo>) -> Option<Seq<Seq<char>>>
    decreases tokens.len(),
{
    if tokens.len() == 0 {
        Some(Seq::empty())
    } else {
        match tokens_imports(tokens.drop_last(), fs) {
            None => None,
            Some(pre) => if has_type(type_entries(fs), normalized(tokens.last())) {
                Some(pre + first_type_paths(type_entries(fs), normalized(tokens.last())))
            } else {
                None
            },
        }
    }
}

/// Collects the import paths for the types whose printed tokens are `tokens`, in
/// order; `None` when no function has one of them.
pub fn imports_for_tokens(tokens: &Vec<String>, functions: &Vec<FunctionInfo>) -> (r: Option<Vec<String>>)
    ensures
        match r {
            Some(v) => tokens_imports(tokens.deep_view(), functions@) == Some(v.deep_view()),
            None => tokens_imports(tokens.deep_view(), functions@) is None,
        },
{
    let ghost av = tokens.deep_view();
    let n = tokens.len();
    let mut imports: Vec<String> = Vec::new();
    let mut i: usize = 0;
    assert(av.subrange(0, 0) =~= Seq::<Seq<char>>::empty());
    assert(imports.deep_view() =~= Seq::<Seq<char>>::empty());
    while i < n
        invariant
            i <= n,
            n == av.len(),
            av == tokens.deep_view(),
            tokens_imports(av.subrange(0, i as int), functions@) == Some(imports.deep_view()),
        decreases n - i,
    {
        let ghost next = av.subrange(0, (i + 1) as int);
        assert(next.drop_last() =~= av.subrange(0, i as int));
        assert(next.last() == tokens@[i as int]@);
        if !knows_type(&tokens[i], functions) {
            proof { lemma_imports_fail(av, functions@, (i + 1) as int); }
            return None;
        }
        let ghost prev = imports.deep_view();
        let mut found = find_paths_for_used_types(&tokens[i], functions);
        let ghost fv = found.deep_view();
        imports.append(&mut found);
        assert(imports.deep_view() =~= prev + fv);
        i = i + 1;
    }
    assert(av.subrange(0, n as int) =~= av);
    Some(imports)
}

impl TypeKnowledgeBase {
    /// The type information of the function `name` in `namespace`: the first entry
    /// about it.
    pub fn info_for_function<'a>(&'a self, name: &str, namespace: &[String]) -> (r: Option<&'a FunctionInfo>)
        ensures
            r is None <==> forall|i: int| 0 <= i < self.functions@.len()
                ==> !is_info_for(#[trigger] self.functions@[i], name@, namespace.deep_view()),
            r is Some ==> exists|i: int| 0 <= i < self.functions@.len()
                && is_info_for(#[trigger] self.functions@[i], name@, namespace.deep_view())
                && *r->0 == self.functions@[i]
                && forall|j: int| 0 <= j < i ==> !is_info_for(#[trigger] self.functions@[j], name@, namespace.deep_view()),
    {
        let name_s = String::from_str(name);
        let n = self.functions.len();
        let mut i: usize = 0;
        while i < n
            invariant
                i <= n,
                n == self.functions@.len(),
                name_s@ == name@,
                forall|j: int| 0 <= j < i ==> !is_info_for(#[trigger] self.functions@[j], name@, namespace.deep_view()),
            decreases n - i,
        {
            let info = &self.functions[i];
            if info.name == name_s && same_path(&info.namespace, namespace) {
                return Some(info);
            }
            i = i + 1;
        }
        None
    }

    /// Collects the import paths for the argument types of the algorithm, each
    /// parsed as a type and printed again, then looked up as `imports_for_tokens`
    /// does; `None` when one of them does not parse as a type or no function has it
    /// (which of the two is not stated: the parser decides the first). Without
    /// argument types there is nothing to parse, and the list is empty.
    pub fn find_imports_for_algo_io(&self) -> (r: Option<Vec<String>>)
        ensures
            r is Some ==> exists|toks: Seq<Seq<char>>| toks.len() == self.algo_io.argument_types@.len()
                && tokens_imports(toks, self.functions@) == Some(r->0.deep_view()),
            r is None ==> self.algo_io.argument_types@.len() > 0,
            self.algo_io.argument_types@.len() == 0 ==> (r matches Some(v) && v@.len() == 0),
    {
        let n = self.algo_io.argument_types.len();
        let mut tokens: Vec<String> = Vec::new();
        let mut i: usize = 0;
        while i < n
            invariant
                i <= n,
                n == self.algo_io.argument_types@.len(),
                tokens@.len() == i,
            decreases n - i,
        {
            match parse_type_tokens(&self.algo_io.argument_types[i]) {
                None => {
                    return None;
                },
                Some(t) => {
                    tokens.push(t);
                },
            }
            i = i + 1;
        }
        let r = imports_for_tokens(&tokens, &self.functions);
        proof {
            if r is Some {
                assert(tokens.deep_view().len() == n);
            }
            if n == 0 {
                assert(tokens.deep_view() =~= Seq::<Seq<char>>::empty());
                assert(r->0.deep_view().len() == r->0@.len());
            }
        }
        r
    }
}

/// A failure on the first `k` types is a failure on all of them.
proof fn lemma_imports_fail(args: Seq<Seq<char>>, fs: Seq<FunctionInfo>, k: int)
    requires
        0 <= k <= args.len(),
        tokens_imports(args.subrange(0, k), fs) is None,
    ensures
        tokens_imports(args, fs) is None,
    decreases args.len() - k,
{
    if k < args.len() {
        let next = args.subrange(0, k + 1);
        assert(next.drop_last() =~= args.subrange(0, k));
        lemma_imports_fail(args, fs, k + 1);
    } else {
        assert(args.subrange(0, k) =~= args);
    }
}

/// Whether two paths have the same parts.
fn same_path(a: &Vec<String>, b: &[String]) -> (r: bool)
    ensures
        r == (a.deep_view() == b.deep_view()),
{
    let n = a.len();
    if n != b.len() {
        assert(a.deep_view().len() != b.deep_view().len());
        return false;
    }
    let mut i: usize = 0;
    while i < n
        invariant
            i <= n,
            n == a@.len(),
            n == b@.len(),
            forall|j: int| 0 <= j < i ==> a.deep_view()[j] == b.deep_view()[j],
        decreases n - i,
    {
        if a[i] != b[i] {
            assert(a.deep_view()[i as int] != b.deep_view()[i as int]);
            return false;
        }
        i = i + 1;
    }
    assert(a.deep_view() =~= b.deep_view());
    true
}

/// Whether some function has a type with the given tokens.
fn knows_type(tokens: &String, infos: &Vec<FunctionInfo>) -> (r: bool)
    ensures
        r == has_type(type_entries(infos@), normalized(tokens@)),
{
    proof {
        reveal_strlit(" ");
        reveal_strlit("");
        assert(""@ =~= Seq::<char>::empty());
    }
    let wanted = replace_str(tokens.as_str(), " ", "");
    let ghost w = wanted@;
    let n = infos.len();
    let mut i: usize = 0;
    assert(infos@.subrange(0, n as int) =~= infos@);
    while i < n
        invariant
            i <= n,
            n == infos@.len(),
            w == wanted@,
            w == normalized(tokens@),
            has_type(type_entries(infos@), w) == has_type(type_entries(infos@.subrange(i as int, n as int)), w),
        decreases n - i,
    {
        let info = &infos[i];
        let ghost fs = infos@.subrange(i as int, n as int);
        let ghost rest = type_entries(infos@.subrange((i + 1) as int, n as int));
        let ghost es = fn_type_entries(*info) + rest;
        assert(fs[0] == infos@[i as int]);
        assert(fs.subrange(1, fs.len() as int) =~= infos@.subrange((i + 1) as int, n as int));
        assert(type_entries(fs) == es);
        let na = info.arguments.len();
        let mut j: usize = 0;
        while j < na
            invariant
                j <= na,
                na == info.arguments@.len(),
                w == wanted@,
                w == normalized(tokens@),
                es == fn_type_entries(*info) + rest,
                has_type(type_entries(infos@), w) == has_type(es, w),
                forall|q: int| 0 <= q < j ==> info.arguments@[q].name@ != w,
            decreases na - j,
        {
            if info.arguments[j].name == wanted {
                assert(es[j as int] == info.arguments@[j as int]@);
                return true;
            }
            j = j + 1;
        }
        if info.return_val.name == wanted {
            assert(es[na as int] == info.return_val@);
            return true;
        }
        proof {
            assert forall|k: int| 0 <= k < es.len() && (#[trigger] es[k]).name == w implies k >= na + 1 by {
                if k < na {
                    assert(es[k] == info.arguments@[k]@);
                }
            }
            if has_type(es, w) {
                let k = choose|k: int| 0 <= k < es.len() && (#[trigger] es[k]).name == w;
                assert(rest[k - na - 1] == es[k]);
            }
            if has_type(rest, w) {
                let k = choose|k: int| 0 <= k < rest.len() && (#[trigger] rest[k]).name == w;
                assert(es[k + na + 1] == rest[k]);
            }
        }
        i = i + 1;
    }
    assert(infos@.subrange(n as int, n as int) =~= Seq::<FunctionInfo>::empty());
    false
}

} // verus!
