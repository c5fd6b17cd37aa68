//! The imports that the argument types of an algorithm need.
use vstd::prelude::*;
use crate::legacy::type_extract::parser::{FunctionInfo, Type, TypeM};
use crate::template::{replaced, replace_str};

verus! {

/// The type information of a function: its arguments, then its result.
pub open spec fn fn_type_entries(f: FunctionInfo) -> Seq<TypeM> {
    f.arguments@.map_values(|t: Type| t@).push(f.return_val@)
}

/// The type information of all functions, one after the other.
pub open spec fn type_entries(fs: Seq<FunctionInfo>) -> Seq<TypeM>
    decreases fs.len(),
{
    if fs.len() == 0 {
        Seq::empty()
    } else {
        fn_type_entries(fs[0]) + type_entries(fs.subrange(1, fs.len() as int))
    }
}

/// Some entry has the name `w`.
pub open spec fn has_type(es: Seq<TypeM>, w: Seq<char>) -> bool {
    exists|i: int| 0 <= i < es.len() && (#[trigger] es[i]).name == w
}

/// The import paths of the first entry named `w`, none if it needs no import.
pub open spec fn first_type_paths(es: Seq<TypeM>, w: Seq<char>) -> Seq<Seq<char>>
    decreases es.len(),
{
    if es.len() == 0 {
        Seq::empty()
    } else if es[0].name == w {
        match es[0].path {
            Some(p) => p,
            None => Seq::empty(),
        }
    } else {
        first_type_paths(es.subrange(1, es.len() as int), w)
    }
}

/// A type's name as the analysis writes it: its tokens without spaces.
pub open spec fn normalized(tokens: Seq<char>) -> Seq<char> {
    replaced(tokens, " "@, Seq::empty())
}

proof fn lemma_first_type_paths_step(es: Seq<TypeM>, w: Seq<char>)
    requires
        es.len() > 0,
        es[0].name != w,
    ensures
        first_type_paths(es, w) == first_type_paths(es.subrange(1, es.len() as int), w),
        has_type(es, w) == has_type(es.subrange(1, es.len() as int), w),
{
    let rest = es.subrange(1, es.len() as int);
    if has_type(es, w) {
        let i = choose|i: int| 0 <= i < es.len() && (#[trigger] es[i]).name == w;
        assert(rest[i - 1] == es[i]);
    }
    if has_type(rest, w) {
        let i = choose|i: int| 0 <= i < rest.len() && (#[trigger] rest[i]).name == w;
        assert(es[i + 1] == rest[i]);
    }
}

fn copy_paths(v: &Vec<String>) -> (r: Vec<String>)
    ensures
        r.deep_view() == v.deep_view(),
{
    let ghost vv = v.deep_view();
    let n = v.len();
    let mut r: Vec<String> = Vec::new();
    let mut i: usize = 0;
    while i < n
        invariant
            i <= n,
            n == vv.len(),
            vv == v.deep_view(),
            r.deep_view() == vv.subrange(0, i as int),
        decreases n - i,
    {
        let ghost prev = r.deep_view();
        r.push(v[i].clone());
        assert(r.deep_view() =~= prev.push(vv[i as int]));
        assert(vv.subrange(0, (i + 1) as int) =~= vv.subrange(0, i as int).push(vv[i as int]));
        i = i + 1;
    }
    assert(vv.subrange(0, n as int) =~= vv);
    r
}

fn paths_of(t: &Type) -> (r: Vec<String>)
    ensures
        r.deep_view() == match t@.path {
            Some(p) => p,
            None => Seq::<Seq<char>>::empty(),
        },
{
    match &t.path {
        Some(p) => copy_paths(p),
        None => {
            let r: Vec<String> = Vec::new();
            assert(r.deep_view() =~= Seq::<Seq<char>>::empty());
            r
        },
    }
}

/// Looks through the functions' type information for the type whose tokens are
/// `ty_tokens`, and returns the imports of its first occurrence (arguments of a
/// function before its result).
pub fn find_paths_for_used_types(ty_tokens: &String, infos: &Vec<FunctionInfo>) -> (r: Vec<String>)
    requires
        has_type(type_entries(infos@), normalized(ty_tokens@)),
    ensures
        r.deep_view() == first_type_paths(type_entries(infos@), normalized(ty_tokens@)),
{
    proof {
        reveal_strlit(" ");
        reveal_strlit("");
        assert(""@ =~= Seq::<char>::empty());
    }
    let wanted = replace_str(ty_tokens.as_str(), " ", "");
    let ghost w = wanted@;
    let ghost total = type_entries(infos@);
    let n = infos.len();
    let mut i: usize = 0;
    assert(infos@.subrange(0, n as int) =~= infos@);
    while i < n
        invariant
            i <= n,
            n == infos@.len(),
            w == wanted@,
            w == normalized(ty_tokens@),
            total == type_entries(infos@),
            first_type_paths(total, w) == first_type_paths(type_entries(infos@.subrange(i as int, n as int)), w),
            has_type(type_entries(infos@.subrange(i as int, n as int)), w),
        decreases n - i,
    {
        let info = &infos[i];
        let ghost fs = infos@.subrange(i as int, n as int);
        let ghost rest = type_entries(infos@.subrange((i + 1) as int, n as int));
        let ghost args = info.arguments@.map_values(|t: Type| t@);
        assert(fs[0] == infos@[i as int]);
        assert(fs.subrange(1, fs.len() as int) =~= infos@.subrange((i + 1) as int, n as int));
        assert(type_entries(fs) == fn_type_entries(*info) + rest);
        let na = info.arguments.len();
        let mut j: usize = 0;
        assert(args.subrange(0, na as int) =~= args);
        assert(fn_type_entries(*info) + rest =~= args.subrange(0, na as int).push(info.return_val@) + rest);
        while j < na
            invariant
                j <= na,
                na == info.arguments@.len(),
                args == info.arguments@.map_values(|t: Type| t@),
                w == wanted@,
                w == normalized(ty_tokens@),
                total == type_entries(infos@),
                first_type_paths(total, w) == first_type_paths(args.subrange(j as int, na as int).push(info.return_val@) + rest, w),
                has_type(args.subrange(j as int, na as int).push(info.return_val@) + rest, w),
            decreases na - j,
        {
            let ghost cur = args.subrange(j as int, na as int).push(info.return_val@) + rest;
            assert(cur[0] == info.arguments@[j as int]@);
            if info.arguments[j].name == wanted {
                assert(first_type_paths(cur, w) == match cur[0].path { Some(p) => p, None => Seq::<Seq<char>>::empty() });
                return paths_of(&info.arguments[j]);
            }
            proof {
                lemma_first_type_paths_step(cur, w);
                assert(cur.subrange(1, cur.len() as int) =~= args.subrange((j + 1) as int, na as int).push(info.return_val@) + rest);
            }
            j = j + 1;
        }
        let ghost cur = args.subrange(na as int, na as int).push(info.return_val@) + rest;
        assert(cur[0] == info.return_val@);
        if info.return_val.name == wanted {
            assert(first_type_paths(cur, w) == match cur[0].path { Some(p) => p, None => Seq::<Seq<char>>::empty() });
            return paths_of(&info.return_val);
        }
        proof {
            lemma_first_type_paths_step(cur, w);
            assert(cur.subrange(1, cur.len() as int) =~= rest);
        }
        i = i + 1;
    }
    proof {
        assert(infos@.subrange(n as int, n as int) =~= Seq::<FunctionInfo>::empty());
        assert(type_entries(Seq::<FunctionInfo>::empty()).len() == 0);
    }
    Vec::new()
}

} // verus!
