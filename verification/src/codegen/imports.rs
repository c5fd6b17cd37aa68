//! The `use` declarations that bring the runtime and the functions an algorithm
//! calls into scope.
use vstd::prelude::*;
use crate::codegen::ohua_types::{ArcSource, DirectArc, DirectArcM, Envs, EnvsM, ArcSourceM, Operator, OperatorM, OperatorType, OperatorTypeM};
use crate::order::{lemma_orders_strict_total, lemma_sorted_unique_props, path_lt, sort_dedup_paths, sorted_unique};
use crate::seqs::{concat, join_sep, lemma_filter_step, lemma_occurs_in_concat, lemma_occurs_in_sum, occurs_in};
use crate::text::Tokens;

verus! {

/// The path under which a function is imported: its namespace followed by its name.
pub open spec fn op_path(t: OperatorTypeM) -> Seq<Seq<char>> {
    t.namespace.push(t.name)
}

/// The paths to import for these functions, sorted and without duplicates; a
/// function in the root namespace needs no import.
pub open spec fn import_paths(tys: Seq<OperatorTypeM>) -> Seq<Seq<Seq<char>>> {
    sorted_unique(
        tys.filter(|t: OperatorTypeM| t.namespace.len() > 0).map_values(|t: OperatorTypeM| op_path(t)),
        path_lt(),
    )
}

/// Each function outside the root namespace is imported, and imported once; no
/// other path is imported.
pub proof fn lemma_each_function_imported_once(tys: Seq<OperatorTypeM>)
    ensures
        forall|i: int, j: int| 0 <= i < j < import_paths(tys).len() ==> import_paths(tys)[i] != import_paths(tys)[j],
        forall|p: Seq<Seq<char>>| import_paths(tys).contains(p) <==> exists|k: int|
            0 <= k < tys.len() && (#[trigger] tys[k]).namespace.len() > 0 && op_path(tys[k]) == p,
{
    let named = tys.filter(|t: OperatorTypeM| t.namespace.len() > 0);
    let paths = named.map_values(|t: OperatorTypeM| op_path(t));
    lemma_orders_strict_total();
    lemma_sorted_unique_props(paths, path_lt());
    let r = import_paths(tys);
    assert forall|i: int, j: int| 0 <= i < j < r.len() implies r[i] != r[j] by {
        assert(path_lt()(r[i], r[j]));
        if r[i] == r[j] {
            assert(path_lt()(r[i], r[i]));
        }
    }
    assert forall|p: Seq<Seq<char>>| r.contains(p) <==> exists|k: int|
        0 <= k < tys.len() && (#[trigger] tys[k]).namespace.len() > 0 && op_path(tys[k]) == p by {
        if r.contains(p) {
            assert(r.to_set().contains(p));
            assert(paths.to_set().contains(p));
            let w = choose|w: int| 0 <= w < paths.len() && paths[w] == p;
            assert(named.contains(named[w]));
            tys.lemma_filter_contains_rev(|t: OperatorTypeM| t.namespace.len() > 0, named[w]);
            let k = choose|k: int| 0 <= k < tys.len() && tys[k] == named[w];
            assert(tys[k].namespace.len() > 0 && op_path(tys[k]) == p);
        }
        if exists|k: int| 0 <= k < tys.len() && (#[trigger] tys[k]).namespace.len() > 0 && op_path(tys[k]) == p {
            let k = choose|k: int| 0 <= k < tys.len() && (#[trigger] tys[k]).namespace.len() > 0 && op_path(tys[k]) == p;
            tys.lemma_filter_contains(|t: OperatorTypeM| t.namespace.len() > 0, k);
            let w = choose|w: int| 0 <= w < named.len() && named[w] == tys[k];
            assert(paths[w] == p);
            assert(paths.to_set().contains(p));
            assert(r.to_set().contains(p));
        }
    }
}

/// `use a :: b :: c ;`
pub open spec fn use_stmt(p: Seq<Seq<char>>) -> Seq<Seq<char>> {
    seq!["use"@] + join_sep(p.map_values(|s: Seq<char>| seq![s]), "::"@) + seq![";"@]
}

/// One `use` declaration per import path.
pub open spec fn spec_app_namespaces(tys: Seq<OperatorTypeM>) -> Seq<Seq<Seq<char>>> {
    import_paths(tys).map_values(|p: Seq<Seq<char>>| use_stmt(p))
}

/// The import path of a function.
fn path_of(t: &OperatorType) -> (r: Vec<String>)
    ensures
        r.deep_view() == op_path(t.deep_view()),
{
    let ghost nv = t.qbNamespace.deep_view();
    let mut r: Vec<String> = Vec::new();
    let n = t.qbNamespace.len();
    let mut i: usize = 0;
    while i < n
        invariant
            i <= n,
            n == nv.len(),
            nv == t.qbNamespace.deep_view(),
            r.deep_view() == nv.subrange(0, i as int),
        decreases n - i,
    {
        let ghost old_dv = r.deep_view();
        r.push(t.qbNamespace[i].clone());
        assert(r.deep_view() =~= old_dv.push(nv[i as int]));
        assert(nv.subrange(0, (i + 1) as int) =~= nv.subrange(0, i as int).push(nv[i as int]));
        i = i + 1;
    }
    let ghost old_dv = r.deep_view();
    r.push(t.qbName.clone());
    assert(r.deep_view() =~= old_dv.push(t.qbName@));
    assert(nv.subrange(0, n as int) =~= nv);
    r
}

/// `use a :: b :: c ;` for a path.
fn use_tokens(p: &Vec<String>) -> (t: Tokens)
    ensures
        t@ == use_stmt(p.deep_view()),
{
    let ghost pv = p.deep_view();
    let mut parts: Vec<Tokens> = Vec::new();
    let n = p.len();
    let mut i: usize = 0;
    while i < n
        invariant
            i <= n,
            n == pv.len(),
            pv == p.deep_view(),
            parts.deep_view() == pv.subrange(0, i as int).map_values(|s: Seq<char>| seq![s]),
        decreases n - i,
    {
        let mut one = Tokens::new();
        one.push_string(p[i].clone());
        let ghost old_dv = parts.deep_view();
        parts.push(one);
        assert(parts.deep_view() =~= old_dv.push(seq![pv[i as int]]));
        assert(parts.deep_view() =~= pv.subrange(0, (i + 1) as int).map_values(|s: Seq<char>| seq![s]));
        i = i + 1;
    }
    assert(pv.subrange(0, n as int) =~= pv);
    let mut t = Tokens::new();
    t.push("use");
    t.extend_joined(&parts, "::");
    t.push(";");
    assert(t@ =~= use_stmt(pv));
    t
}

/// Generates one `use` declaration per function outside the root namespace, in
/// the order of the paths and without duplicates.
pub fn generate_app_namespaces(operators: &Vec<OperatorType>) -> (r: Vec<Tokens>)
    ensures
        r.deep_view() == spec_app_namespaces(operators.deep_view()),
{
    let ghost tv = operators.deep_view();
    let ghost np = |t: OperatorTypeM| t.namespace.len() > 0;
    let ghost pf = |t: OperatorTypeM| op_path(t);
    let mut paths: Vec<Vec<String>> = Vec::new();
    let n = operators.len();
    let mut i: usize = 0;
    while i < n
        invariant
            i <= n,
            n == tv.len(),
            tv == operators.deep_view(),
            np == (|t: OperatorTypeM| t.namespace.len() > 0),
            pf == (|t: OperatorTypeM| op_path(t)),
            paths.deep_view() == tv.subrange(0, i as int).filter(np).map_values(pf),
        decreases n - i,
    {
        proof { lemma_filter_step(tv, np, i as int); }
        let op = &operators[i];
        assert(op.deep_view() == tv[i as int]);
        if op.qbNamespace.len() > 0 {
            let p = path_of(op);
            let ghost old_dv = paths.deep_view();
            paths.push(p);
            assert(paths.deep_view() =~= old_dv.push(pf(tv[i as int])));
            assert(tv.subrange(0, i as int).filter(np).push(tv[i as int]).map_values(pf)
                =~= tv.subrange(0, i as int).filter(np).map_values(pf).push(pf(tv[i as int])));
        }
        i = i + 1;
    }
    assert(tv.subrange(0, n as int) =~= tv);
    let sorted = sort_dedup_paths(paths);
    let ghost sv = sorted.deep_view();
    let mut r: Vec<Tokens> = Vec::new();
    let m = sorted.len();
    let mut j: usize = 0;
    while j < m
        invariant
            j <= m,
            m == sv.len(),
            sv == sorted.deep_view(),
            r.deep_view() == sv.subrange(0, j as int).map_values(|p: Seq<Seq<char>>| use_stmt(p)),
        decreases m - j,
    {
        let u = use_tokens(&sorted[j]);
        let ghost old_dv = r.deep_view();
        r.push(u);
        assert(r.deep_view() =~= old_dv.push(use_stmt(sv[j as int])));
        assert(r.deep_view() =~= sv.subrange(0, (j + 1) as int).map_values(|p: Seq<Seq<char>>| use_stmt(p)));
        j = j + 1;
    }
    assert(sv.subrange(0, m as int) =~= sv);
    r
}

/// The function a function reference names.
pub open spec fn fun_ref_type(a: DirectArcM) -> OperatorTypeM {
    match a.source {
        ArcSourceM::Env(EnvsM::FunRefLit(t, _)) => t,
        _ => OperatorTypeM { namespace: Seq::empty(), name: Seq::empty() },
    }
}

/// The arc carries a function reference.
pub open spec fn is_fun_ref(a: DirectArcM) -> bool {
    a.source matches ArcSourceM::Env(EnvsM::FunRefLit(_, _))
}

/// The functions referenced by arcs, in order.
pub open spec fn fun_ref_types(arcs: Seq<DirectArcM>) -> Seq<OperatorTypeM> {
    arcs.filter(|a: DirectArcM| is_fun_ref(a)).map_values(|a: DirectArcM| fun_ref_type(a))
}

/// The imports of the runtime.
pub open spec fn runtime_imports() -> Seq<Seq<char>> {
    seq!["use"@, "std"@, "::"@, "sync"@, "::"@, "mpsc"@, "::"@, "Receiver"@, ";"@,
        "use"@, "ohua_runtime"@, "::"@, "*"@, ";"@,
        "use"@, "ohua_runtime"@, "::"@, "arcs"@, "::"@, "*"@, ";"@,
        "use"@, "ohua_runtime"@, "::"@, "lang"@, "::"@, "{"@, "send_once"@, ","@, "Unit"@, "}"@, ";"@]
}

/// The imports of generated code: the runtime, the functions of the operators, and
/// the functions that arcs reference.
pub open spec fn spec_generate_imports(ops: Seq<OperatorM>, arcs: Seq<DirectArcM>) -> Seq<Seq<char>> {
    runtime_imports()
        + concat(spec_app_namespaces(ops.map_values(|o: OperatorM| o.ty)))
        + concat(spec_app_namespaces(fun_ref_types(arcs)))
}

/// A function that an arc passes by reference is imported when it lies outside
/// the root namespace: the imports hold `use namespace :: name ;` for it.
pub proof fn lemma_fun_refs_imported(ops: Seq<OperatorM>, arcs: Seq<DirectArcM>, j: int)
    requires
        0 <= j < arcs.len(),
        match arcs[j].source {
            ArcSourceM::Env(EnvsM::FunRefLit(ty, _)) => ty.namespace.len() > 0,
            _ => false,
        },
    ensures
        match arcs[j].source {
            ArcSourceM::Env(EnvsM::FunRefLit(ty, _)) =>
                occurs_in(spec_generate_imports(ops, arcs), use_stmt(ty.namespace.push(ty.name))),
            _ => true,
        },
{
    let ty = fun_ref_type(arcs[j]);
    let pred = |a: DirectArcM| is_fun_ref(a);
    let refs = arcs.filter(pred);
    let tys = fun_ref_types(arcs);
    arcs.lemma_filter_contains(pred, j);
    let w = choose|w: int| 0 <= w < refs.len() && refs[w] == arcs[j];
    assert(tys[w] == ty);
    lemma_each_function_imported_once(tys);
    assert(import_paths(tys).contains(op_path(ty)));
    let q = choose|q: int| 0 <= q < import_paths(tys).len() && import_paths(tys)[q] == op_path(ty);
    let uses = spec_app_namespaces(tys);
    assert(uses[q] == use_stmt(ty.namespace.push(ty.name)));
    lemma_occurs_in_concat(uses, q);
    lemma_occurs_in_sum(runtime_imports() + concat(spec_app_namespaces(ops.map_values(|o: OperatorM| o.ty))), concat(uses), uses[q]);
}

/// A copy of an operator type.
fn copy_type(t: &OperatorType) -> (r: OperatorType)
    ensures
        r.deep_view() == t.deep_view(),
{
    let ghost nv = t.qbNamespace.deep_view();
    let mut ns: Vec<String> = Vec::new();
    let n = t.qbNamespace.len();
    let mut i: usize = 0;
    while i < n
        invariant
            i <= n,
            n == nv.len(),
            nv == t.qbNamespace.deep_view(),
            ns.deep_view() == nv.subrange(0, i as int),
        decreases n - i,
    {
        let ghost old_dv = ns.deep_view();
        ns.push(t.qbNamespace[i].clone());
        assert(ns.deep_view() =~= old_dv.push(nv[i as int]));
        assert(nv.subrange(0, (i + 1) as int) =~= nv.subrange(0, i as int).push(nv[i as int]));
        i = i + 1;
    }
    assert(nv.subrange(0, n as int) =~= nv);
    OperatorType { qbNamespace: ns, qbName: t.qbName.clone() }
}

/// Appends all token sequences of `parts`.
fn extend_all(t: &mut Tokens, parts: &Vec<Tokens>)
    ensures
        final(t)@ == old(t)@ + concat(parts.deep_view()),
{
    let ghost pv = parts.deep_view();
    let n = parts.len();
    let mut i: usize = 0;
    assert(old(t)@ =~= old(t)@ + concat(pv.subrange(0, 0)));
    while i < n
        invariant
            i <= n,
            n == pv.len(),
            pv == parts.deep_view(),
            t@ == old(t)@ + concat(pv.subrange(0, i as int)),
        decreases n - i,
    {
        assert(parts@[i as int]@ == pv[i as int]);
        t.extend(&parts[i]);
        assert(pv.subrange(0, (i + 1) as int).drop_last() =~= pv.subrange(0, i as int));
        i = i + 1;
    }
    assert(pv.subrange(0, n as int) =~= pv);
}

/// Generates the imports of the generated code.
pub fn generate_imports(operators: &Vec<Operator>, arcs: &Vec<DirectArc>) -> (t: Tokens)
    ensures
        t@ == spec_generate_imports(operators.deep_view(), arcs.deep_view()),
{
    let ghost ov = operators.deep_view();
    let ghost av = arcs.deep_view();
    let ghost tyf = |o: OperatorM| o.ty;
    let mut op_types: Vec<OperatorType> = Vec::new();
    let n = operators.len();
    let mut i: usize = 0;
    while i < n
        invariant
            i <= n,
            n == ov.len(),
            ov == operators.deep_view(),
            tyf == (|o: OperatorM| o.ty),
            op_types.deep_view() == ov.subrange(0, i as int).map_values(tyf),
        decreases n - i,
    {
        assert(operators@[i as int].deep_view() == ov[i as int]);
        let c = copy_type(&operators[i].operatorType);
        let ghost old_dv = op_types.deep_view();
        op_types.push(c);
        assert(op_types.deep_view() =~= old_dv.push(ov[i as int].ty));
        assert(op_types.deep_view() =~= ov.subrange(0, (i + 1) as int).map_values(tyf));
        i = i + 1;
    }
    assert(ov.subrange(0, n as int) =~= ov);
    let app_namespaces = generate_app_namespaces(&op_types);

    let ghost fp = |a: DirectArcM| is_fun_ref(a);
    let ghost ff = |a: DirectArcM| fun_ref_type(a);
    let mut fn_lit_types: Vec<OperatorType> = Vec::new();
    let m = arcs.len();
    let mut j: usize = 0;
    while j < m
        invariant
            j <= m,
            m == av.len(),
            av == arcs.deep_view(),
            fp == (|a: DirectArcM| is_fun_ref(a)),
            ff == (|a: DirectArcM| fun_ref_type(a)),
            fn_lit_types.deep_view() == av.subrange(0, j as int).filter(fp).map_values(ff),
        decreases m - j,
    {
        proof { lemma_filter_step(av, fp, j as int); }
        assert(arcs@[j as int].deep_view() == av[j as int]);
        match &arcs[j].source {
            ArcSource::Env(Envs::FunRefLit { contents }) => {
                let c = copy_type(&contents.0);
                let ghost old_dv = fn_lit_types.deep_view();
                fn_lit_types.push(c);
                assert(fn_lit_types.deep_view() =~= old_dv.push(ff(av[j as int])));
                assert(av.subrange(0, j as int).filter(fp).push(av[j as int]).map_values(ff)
                    =~= av.subrange(0, j as int).filter(fp).map_values(ff).push(ff(av[j as int])));
            },
            _ => {},
        }
        j = j + 1;
    }
    assert(av.subrange(0, m as int) =~= av);
    let fn_lit_namespaces = generate_app_namespaces(&fn_lit_types);

    let mut t = Tokens::new();
    t.push("use"); t.push("std"); t.push("::"); t.push("sync"); t.push("::"); t.push("mpsc");
    t.push("::"); t.push("Receiver"); t.push(";");
    t.push("use"); t.push("ohua_runtime"); t.push("::"); t.push("*"); t.push(";");
    t.push("use"); t.push("ohua_runtime"); t.push("::"); t.push("arcs"); t.push("::"); t.push("*");
    t.push(";");
    t.push("use"); t.push("ohua_runtime"); t.push("::"); t.push("lang"); t.push("::"); t.push("{");
    t.push("send_once"); t.push(","); t.push("Unit"); t.push("}"); t.push(";");
    assert(t@ =~= runtime_imports());
    extend_all(&mut t, &app_namespaces);
    extend_all(&mut t, &fn_lit_namespaces);
    t
}

} // verus!
