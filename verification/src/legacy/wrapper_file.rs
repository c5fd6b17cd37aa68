//! The file of function wrappers, and the graph rewritten to call them: each
//! stateful function gets a wrapper, each used main argument an operator of its
//! own, and the arcs that took main arguments from the environment now leave
//! those operators.
use vstd::prelude::*;
use crate::legacy::types::{Arc, ArcIdentifier, ArcSource, DFGraph, OhuaData, Operator, OperatorType, ValueType};
use crate::legacy::wrappers::{get_operator_io_by_id, io_consistent, result_ports, spec_operator_io};
use crate::legacy::wrapper_code::{
    analyze_namespaces, app_namespaces, generate_sfn_wrapper, mainarg_code, mainarg_wrappers_of,
    sfn_wrapper_text, single_out, tuple_out, outgoing, used_mainargs, is_mainarg_operator, env_uses,
};
use crate::template::{replaced, replace_str};
use crate::text::{int_decimal, i32_to_string, string_is};
use crate::order::{sorted_unique, str_lt};

verus! {

/// The namespace of the built-in operators, `ohua::lang`.
pub open spec fn is_lang_namespace(ns: Seq<Seq<char>>) -> bool {
    ns == seq!["ohua"@, "lang"@]
}

/// The path by which a wrapper calls its function: the last part of the
/// namespace, `::` and the name.
pub open spec fn sfn_name(ty: OperatorType) -> Seq<char> {
    ty.qbNamespace.deep_view().last() + "::"@ + ty.qbName@
}

/// The function an operator is linked to once the wrappers exist: its wrapper, or
/// a closure that panics for a built-in operator.
pub open spec fn wrapped_func(op: Operator) -> Seq<char> {
    if is_lang_namespace(op.operatorType.qbNamespace.deep_view()) {
        "|_| panic!(\"Undefined operator function!\")"@
    } else {
        replaced(sfn_name(op.operatorType), "::"@, "_"@) + int_decimal(op.operatorId as int)
    }
}

/// The boxed results for inputs and outputs as `spec_operator_io` describes them.
pub open spec fn outgoing_of(io: (nat, bool, nat, Seq<usize>)) -> Seq<char> {
    if io.1 { single_out(io.2) } else { tuple_out(io.3) }
}

/// The wrappers of all stateful functions among `ops`, in order.
pub open spec fn sfn_wrappers(template: Seq<char>, ops: Seq<Operator>, arcs: Seq<Arc>, ret: ArcIdentifier) -> Seq<char>
    decreases ops.len(),
{
    if ops.len() == 0 {
        Seq::empty()
    } else {
        let op = ops.last();
        sfn_wrappers(template, ops.drop_last(), arcs, ret) + if is_lang_namespace(op.operatorType.qbNamespace.deep_view()) {
            Seq::empty()
        } else {
            let io = spec_operator_io(op.operatorId, arcs, ret);
            sfn_wrapper_text(template, sfn_name(op.operatorType), io.0, outgoing_of(io), op.operatorId)
        }
    }
}

/// `use {path};` for each path, one per line.
pub open spec fn use_lines(paths: Seq<Seq<char>>) -> Seq<char>
    decreases paths.len(),
{
    if paths.len() == 0 {
        Seq::empty()
    } else {
        use_lines(paths.drop_last()) + "use "@ + paths.last() + ";\n"@
    }
}

/// Every stateful function has a namespace and consistent outputs, the ids of the
/// main argument operators fit an `i32`, and there is a type for each main argument.
pub open spec fn wrappers_ok(d: OhuaData, types_len: nat) -> bool {
    let ops = d.graph.operators@;
    let first = ops.len() + 1;
    &&& ops.len() + 1 <= i32::MAX
    &&& d.graph.arcs@.len() < usize::MAX
    &&& d.mainArity <= types_len
    &&& forall|k: int| 0 <= k < ops.len() && !is_lang_namespace(#[trigger] ops[k].operatorType.qbNamespace.deep_view()) ==> {
        &&& ops[k].operatorType.qbNamespace@.len() > 0
        &&& io_consistent(result_ports(ops[k].operatorId, d.graph.arcs@, d.graph.return_arc))
    }
    &&& forall|k: i32| 0 <= k < d.mainArity && env_uses(d.graph.arcs@, k) > 0 ==> first + k <= i32::MAX
    &&& forall|k: int| 0 <= k < d.graph.arcs@.len() ==> env_offset_fits(#[trigger] d.graph.arcs@[k], first as int)
}

/// An arc that takes main argument `o` can be redirected to operator `first + o`.
pub open spec fn env_offset_fits(a: Arc, first: int) -> bool {
    match a.source.val {
        ValueType::EnvironmentVal(o) => i32::MIN <= first + o <= i32::MAX,
        _ => true,
    }
}

/// The arc after the main arguments became operators: one that took main
/// argument `o` now leaves port `-1` of operator `first + o`.
pub open spec fn rewired(old: Arc, new: Arc, first: int) -> bool {
    &&& new.target == old.target
    &&& match old.source.val {
        ValueType::EnvironmentVal(o) => new.source.val == ValueType::LocalVal(ArcIdentifier { operator: (first + o) as i32, index: -1i32 })
            && new.source.s_type@ == "local"@,
        _ => new.source.val == old.source.val && new.source.s_type@ == old.source.s_type@,
    }
}

fn is_lang(ns: &Vec<String>) -> (r: bool)
    ensures
        r == is_lang_namespace(ns.deep_view()),
{
    if ns.len() != 2 {
        return false;
    }
    let a = string_is(&ns[0], "ohua");
    let b = string_is(&ns[1], "lang");
    assert(ns.deep_view()[0] == ns@[0]@ && ns.deep_view()[1] == ns@[1]@);
    if a && b {
        assert(ns.deep_view() =~= seq!["ohua"@, "lang"@]);
    }
    a && b
}

fn use_lines_text(paths: &Vec<String>) -> (r: String)
    ensures
        r@ == use_lines(paths.deep_view()),
{
    let ghost pv = paths.deep_view();
    let n = paths.len();
    let mut s = String::new();
    let mut i: usize = 0;
    assert(pv.subrange(0, 0) =~= Seq::<Seq<char>>::empty());
    while i < n
        invariant
            i <= n,
            n == pv.len(),
            pv == paths.deep_view(),
            s@ == use_lines(pv.subrange(0, i as int)),
        decreases n - i,
    {
        s.append("use ");
        s.append(paths[i].as_str());
        s.append(";\n");
        let ghost next = pv.subrange(0, (i + 1) as int);
        assert(next.drop_last() =~= pv.subrange(0, i as int));
        assert(next.last() == paths@[i as int]@);
        assert(s@ =~= use_lines(next));
        i = i + 1;
    }
    assert(pv.subrange(0, n as int) =~= pv);
    s
}

/// The stateful function operators linked to their wrappers, and the text of the wrappers.
fn link_sfn_wrappers(ops: Vec<Operator>, arcs: &Vec<Arc>, return_arc: &ArcIdentifier, template: &str) -> (r: (Vec<Operator>, String))
    requires
        arcs@.len() < usize::MAX,
        forall|k: int| 0 <= k < ops@.len() && !is_lang_namespace(#[trigger] ops@[k].operatorType.qbNamespace.deep_view()) ==> {
            &&& ops@[k].operatorType.qbNamespace@.len() > 0
            &&& io_consistent(result_ports(ops@[k].operatorId, arcs@, *return_arc))
        },
    ensures
        r.0@.len() == ops@.len(),
        forall|k: int| 0 <= k < ops@.len() ==> {
            &&& (#[trigger] r.0@[k]).operatorId == ops@[k].operatorId
            &&& r.0@[k].operatorType.qbNamespace == ops@[k].operatorType.qbNamespace
            &&& r.0@[k].operatorType.qbName == ops@[k].operatorType.qbName
            &&& r.0@[k].operatorType.func@ == wrapped_func(ops@[k])
        },
        r.1@ == sfn_wrappers(template@, ops@, arcs@, *return_arc),
{
    let ghost ops0 = ops@;
    let n = ops.len();
    let mut rest = ops;
    let mut linked: Vec<Operator> = Vec::new();
    let mut code = String::new();
    let mut i: usize = 0;
    assert(ops0.subrange(0, 0) =~= Seq::<Operator>::empty());
    assert(rest@ =~= ops0.subrange(0, n as int));
    while i < n
        invariant
            i <= n,
            n == ops0.len(),
            arcs@.len() < usize::MAX,
            rest@ == ops0.subrange(i as int, n as int),
            linked@.len() == i,
            forall|k: int| 0 <= k < ops0.len() && !is_lang_namespace(#[trigger] ops0[k].operatorType.qbNamespace.deep_view()) ==> {
                &&& ops0[k].operatorType.qbNamespace@.len() > 0
                &&& io_consistent(result_ports(ops0[k].operatorId, arcs@, *return_arc))
            },
            forall|k: int| 0 <= k < i ==> {
                &&& (#[trigger] linked@[k]).operatorId == ops0[k].operatorId
                &&& linked@[k].operatorType.qbNamespace == ops0[k].operatorType.qbNamespace
                &&& linked@[k].operatorType.qbName == ops0[k].operatorType.qbName
                &&& linked@[k].operatorType.func@ == wrapped_func(ops0[k])
            },
            code@ == sfn_wrappers(template@, ops0.subrange(0, i as int), arcs@, *return_arc),
        decreases n - i,
    {
        let ghost before = rest@;
        let op = rest.remove(0);
        assert(op == ops0[i as int]);
        assert(rest@ =~= ops0.subrange(i + 1, n as int));
        let Operator { operatorId, operatorType } = op;
        let OperatorType { qbNamespace, qbName, func: _ } = operatorType;
        let lang = is_lang(&qbNamespace);
        let ghost prev_code = code@;
        let new_func = if !lang {
            let (inputs, outputs) = get_operator_io_by_id(operatorId, arcs, return_arc);
            let ghost io = spec_operator_io(operatorId, arcs@, *return_arc);
            assert(outgoing(outputs) == outgoing_of(io));
            let last = &qbNamespace[qbNamespace.len() - 1];
            let mut fn_name = String::new();
            fn_name.append(last.as_str());
            fn_name.append("::");
            fn_name.append(qbName.as_str());
            assert(qbNamespace.deep_view().last() == last@);
            assert(fn_name@ == sfn_name(ops0[i as int].operatorType));
            let w = generate_sfn_wrapper(template, fn_name.as_str(), inputs, outputs, operatorId);
            code.append(w.as_str());
            proof {
                reveal_strlit("::");
            }
            let mut f = replace_str(fn_name.as_str(), "::", "_");
            let id = i32_to_string(operatorId);
            f.append(id.as_str());
            f
        } else {
            String::from_str("|_| panic!(\"Undefined operator function!\")")
        };
        let ghost next = ops0.subrange(0, (i + 1) as int);
        assert(next.drop_last() =~= ops0.subrange(0, i as int));
        assert(next.last() == ops0[i as int]);
        if lang {
            assert(code@ =~= prev_code + Seq::<char>::empty());
        }
        assert(code@ == sfn_wrappers(template@, next, arcs@, *return_arc));
        linked.push(Operator { operatorId, operatorType: OperatorType { qbNamespace, qbName, func: new_func } });
        i = i + 1;
    }
    assert(ops0.subrange(0, n as int) =~= ops0);
    (linked, code)
}

/// Redirects the arcs that take main arguments to the operators of those arguments.
fn rewire_env_arcs(arcs: Vec<Arc>, first: i32) -> (r: Vec<Arc>)
    requires
        forall|k: int| 0 <= k < arcs@.len() ==> env_offset_fits(#[trigger] arcs@[k], first as int),
    ensures
        r@.len() == arcs@.len(),
        forall|k: int| 0 <= k < arcs@.len() ==> rewired(arcs@[k], #[trigger] r@[k], first as int),
{
    let ghost a0 = arcs@;
    let n = arcs.len();
    let mut rest = arcs;
    let mut out: Vec<Arc> = Vec::new();
    let mut i: usize = 0;
    assert(rest@ =~= a0.subrange(0, n as int));
    while i < n
        invariant
            i <= n,
            n == a0.len(),
            rest@ == a0.subrange(i as int, n as int),
            out@.len() == i,
            forall|k: int| 0 <= k < a0.len() ==> env_offset_fits(#[trigger] a0[k], first as int),
            forall|k: int| 0 <= k < i ==> rewired(a0[k], #[trigger] out@[k], first as int),
        decreases n - i,
    {
        let arc = rest.remove(0);
        assert(arc == a0[i as int]);
        assert(rest@ =~= a0.subrange(i + 1, n as int));
        assert(env_offset_fits(a0[i as int], first as int));
        let Arc { target, source } = arc;
        let new_arc = match source.val {
            ValueType::EnvironmentVal(offset) => Arc {
                target,
                source: ArcSource {
                    s_type: String::from_str("local"),
                    val: ValueType::LocalVal(ArcIdentifier { operator: first + offset, index: -1 }),
                },
            },
            _ => Arc { target, source },
        };
        out.push(new_arc);
        i = i + 1;
    }
    out
}

/// The main entry point of wrapper generation.
///
/// The graph is analysed, and the text of the wrapper file is assembled from the
/// `skeleton`, an import for each namespace of a stateful function and each path in
/// `algo_io_imports`, a wrapper (from `wrapper_template`) for each stateful
/// function, and a wrapper (from `mainarg_template`) for each used main argument.
/// The graph is rewritten on the way: each operator is linked to its wrapper, the
/// used main arguments become operators numbered from one past the last operator
/// and targets of the input arcs, and the arcs that took main arguments from the
/// environment now leave those operators.
pub fn generate_wrappers(
    ohuadata: OhuaData,
    mainarg_types: &Vec<String>,
    algo_io_imports: &Vec<String>,
    skeleton: &str,
    wrapper_template: &str,
    mainarg_template: &str,
) -> (r: (OhuaData, String))
    requires
        wrappers_ok(ohuadata, mainarg_types@.len()),
    ensures
        ({
            let d = ohuadata;
            let e = r.0;
            let ops = d.graph.operators@;
            let n = ops.len();
            let first = n + 1;
            let used = used_mainargs(d.graph.arcs@, d.mainArity as int);
            &&& e.mainArity == d.mainArity
            &&& e.sfDependencies == d.sfDependencies
            &&& e.graph.return_arc == d.graph.return_arc
            &&& e.graph.operators@.len() == n + used.len()
            &&& forall|k: int| 0 <= k < n ==> {
                &&& (#[trigger] e.graph.operators@[k]).operatorId == ops[k].operatorId
                &&& e.graph.operators@[k].operatorType.qbNamespace == ops[k].operatorType.qbNamespace
                &&& e.graph.operators@[k].operatorType.qbName == ops[k].operatorType.qbName
                &&& e.graph.operators@[k].operatorType.func@ == wrapped_func(ops[k])
            }
            &&& forall|j: int| 0 <= j < used.len() ==> is_mainarg_operator(#[trigger] e.graph.operators@[n + j], first as i32, used[j])
            &&& e.graph.input_targets@ == d.graph.input_targets@
                + used.map_values(|k: i32| ArcIdentifier { operator: (first + k) as i32, index: 0 })
            &&& e.graph.arcs@.len() == d.graph.arcs@.len()
            &&& forall|k: int| 0 <= k < d.graph.arcs@.len() ==> rewired(d.graph.arcs@[k], #[trigger] e.graph.arcs@[k], first as int)
            &&& r.1@ == skeleton@ + use_lines(sorted_unique(app_namespaces(ops), str_lt())) + "\n"@
                + use_lines(algo_io_imports.deep_view()) + sfn_wrappers(wrapper_template@, ops, d.graph.arcs@, d.graph.return_arc)
                + mainarg_code(mainarg_template@, mainarg_types.deep_view(), d.graph.arcs@, d.mainArity as int)
        }),
{
    let ghost d = ohuadata;
    let namespaces = analyze_namespaces(&ohuadata);
    let OhuaData { graph, mainArity, sfDependencies } = ohuadata;
    let DFGraph { operators, arcs, return_arc, input_targets } = graph;
    let ghost ops = operators@;
    let n = operators.len();
    let (mut linked, func_code) = link_sfn_wrappers(operators, &arcs, &return_arc, wrapper_template);
    let first: i32 = (n + 1) as i32;
    let (mut mainarg_ops, mainarg_code_text) = mainarg_wrappers_of(first, mainArity, &arcs, mainarg_types, mainarg_template);
    let ghost used = used_mainargs(arcs@, mainArity as int);
    let ghost mops = mainarg_ops@;
    let mut targets = input_targets;
    let m = mainarg_ops.len();
    let mut j: usize = 0;
    while j < m
        invariant
            j <= m,
            m == mops.len(),
            mops == mainarg_ops@,
            mops.len() == used.len(),
            forall|q: int| 0 <= q < mops.len() ==> is_mainarg_operator(#[trigger] mops[q], first, used[q]),
            targets@ == d.graph.input_targets@
                + used.subrange(0, j as int).map_values(|k: i32| ArcIdentifier { operator: (first + k) as i32, index: 0 }),
        decreases m - j,
    {
        let id = mainarg_ops[j].operatorId;
        assert(is_mainarg_operator(mops[j as int], first, used[j as int]));
        targets.push(ArcIdentifier { operator: id, index: 0 });
        assert(used.subrange(0, (j + 1) as int) =~= used.subrange(0, j as int).push(used[j as int]));
        assert(targets@ =~= d.graph.input_targets@
            + used.subrange(0, (j + 1) as int).map_values(|k: i32| ArcIdentifier { operator: (first + k) as i32, index: 0 }));
        j = j + 1;
    }
    assert(used.subrange(0, m as int) =~= used);
    let ghost linked0 = linked@;
    linked.append(&mut mainarg_ops);
    assert(linked@ =~= linked0 + mops);
    assert forall|q: int| 0 <= q < used.len() implies is_mainarg_operator(#[trigger] linked@[n + q], first, used[q]) by {
        assert(linked@[n + q] == mops[q]);
    }
    let new_arcs = rewire_env_arcs(arcs, first);
    let ns_lines = use_lines_text(&namespaces);
    let io_lines = use_lines_text(algo_io_imports);
    let mut text = String::new();
    text.append(skeleton);
    text.append(ns_lines.as_str());
    text.append("\n");
    text.append(io_lines.as_str());
    text.append(func_code.as_str());
    text.append(mainarg_code_text.as_str());
    let e = OhuaData {
        graph: DFGraph { operators: linked, arcs: new_arcs, return_arc, input_targets: targets },
        mainArity,
        sfDependencies,
    };
    (e, text)
}

} // verus!
