//! Decides, for a graph at hand, the conditions under which the rewrites and the
//! generators can run: the graphs that the compiler hands over meet them, and the
//! generator refuses the others instead of failing half way.
use vstd::prelude::*;
use crate::codegen::ohua_types::{ArcSource, DirectArc, DirectArcM, Envs, NodeType, OhuaData, Operator, StateArc};
use crate::codegen::rewrite::{ctrls_ok, env_ids_fit, env_ref, env_refs, id_base, is_env_ref, is_nth, is_runtime_named, is_runtime_op_named, lemma_sorted_in_arcs_len, max_op_id, nth_inputs_ok, nths_ok, num_inputs, sort_in_arcs, sorted_in_arcs, spec_is_nth};
use crate::codegen::tasks::{in_arc_ok, in_arcs_ok, is_function_node, ops_ok, sfns_ok};
use crate::codegen::typedgen::{arcs_named, find_op, find_op_pos, get_in_arcs, get_num_inputs, is_env, local_arcs_named, op_exists, out_arc_var_ok, out_var_ok, spec_in_arcs, state_arc_named, state_arcs_named};
use crate::codegen::typedgen::generate_recur::{dedup_target_ports, is_recur, is_recur_op, recursion_ok, recurs_ok};
use crate::seqs::ints_i32;

verus! {

/// Whether the output variable of port `idx` of operator `op` can be named.
fn out_var_ok_exec(ops: &Vec<Operator>, op: i32, idx: i32) -> (r: bool)
    ensures
        r == out_var_ok(ops.deep_view(), op, idx),
{
    proof { reveal(out_var_ok); }
    if !op_exists(ops, op) {
        return false;
    }
    let pos = find_op_pos(op, ops);
    assert(ops@[pos as int].deep_view() == find_op(ops.deep_view(), op));
    match ops[pos].nodeType {
        NodeType::FunctionNode => idx == 0,
        NodeType::OperatorNode => idx >= 0,
    }
}

/// Whether a local arc can be named (an arc from the environment needs no name).
fn check_arc_named(ops: &Vec<Operator>, arc: &DirectArc) -> (r: bool)
    ensures
        r == (!is_env(arc.deep_view().source) ==> out_arc_var_ok(ops.deep_view(), arc.deep_view())),
{
    match &arc.source {
        ArcSource::Local(id) => out_var_ok_exec(ops, id.operator, id.index) && arc.target.index > -2,
        ArcSource::Env(_) => true,
    }
}

/// Whether every local arc can be named.
pub fn check_local_arcs_named(ops: &Vec<Operator>, arcs: &Vec<DirectArc>) -> (r: bool)
    ensures
        r == local_arcs_named(ops.deep_view(), arcs.deep_view()),
{
    let ghost ov = ops.deep_view();
    let ghost av = arcs.deep_view();
    let n = arcs.len();
    let mut i: usize = 0;
    while i < n
        invariant
            i <= n,
            n == av.len(),
            ov == ops.deep_view(),
            av == arcs.deep_view(),
            forall|j: int| 0 <= j < i && !is_env(av[j].source) ==> out_arc_var_ok(ov, #[trigger] av[j]),
        decreases n - i,
    {
        assert(arcs@[i as int].deep_view() == av[i as int]);
        if !check_arc_named(ops, &arcs[i]) {
            assert(!is_env(av[i as int].source) && !out_arc_var_ok(ov, av[i as int]));
            return false;
        }
        i = i + 1;
    }
    true
}

/// Whether the sending end of every state arc can be named.
pub fn check_state_arcs_named(ops: &Vec<Operator>, states: &Vec<StateArc>) -> (r: bool)
    ensures
        r == state_arcs_named(ops.deep_view(), states.deep_view()),
{
    let ghost ov = ops.deep_view();
    let ghost sv = states.deep_view();
    let n = states.len();
    let mut i: usize = 0;
    while i < n
        invariant
            i <= n,
            n == sv.len(),
            ov == ops.deep_view(),
            sv == states.deep_view(),
            forall|j: int| 0 <= j < i ==> state_arc_named(ov, #[trigger] sv[j]),
        decreases n - i,
    {
        assert(states@[i as int].deep_view() == sv[i as int]);
        let ok = match &states[i].source {
            ArcSource::Local(id) => out_var_ok_exec(ops, id.operator, id.index),
            ArcSource::Env(Envs::EnvRefLit { content }) => out_var_ok_exec(ops, *content, *content),
            _ => false,
        };
        if !ok {
            assert(!state_arc_named(ov, sv[i as int]));
            assert(!state_arcs_named(ov, sv)) by { reveal(state_arcs_named); }
            return false;
        }
        i = i + 1;
    }
    assert(state_arcs_named(ov, sv)) by { reveal(state_arcs_named); }
    true
}

/// Whether every name of the channel declarations can be formed.
pub fn check_arcs_named(d: &OhuaData) -> (r: bool)
    ensures
        r == arcs_named(d.deep_view()),
{
    check_local_arcs_named(&d.graph.operators, &d.graph.arcs.direct)
        && check_state_arcs_named(&d.graph.operators, &d.graph.arcs.state)
}

/// Whether every input arc of `op` outside the control port can be turned into code.
pub fn check_in_arcs_ok(op: i32, arcs: &Vec<DirectArc>, nargs: usize) -> (r: bool)
    ensures
        r == in_arcs_ok(op, arcs.deep_view(), nargs as int),
{
    let in_arcs = get_in_arcs(&op, arcs);
    let ghost iv = in_arcs.deep_view();
    let n = in_arcs.len();
    let mut j: usize = 0;
    while j < n
        invariant
            j <= n,
            n == iv.len(),
            iv == in_arcs.deep_view(),
            iv == spec_in_arcs(op, arcs.deep_view()),
            forall|k: int| 0 <= k < j && iv[k].target.index != -1 ==> in_arc_ok(#[trigger] iv[k], nargs as int),
        decreases n - j,
    {
        let a = in_arcs[j];
        assert(a.deep_view() == iv[j as int]);
        if a.target.index != -1 {
            let ok = match &a.source {
                ArcSource::Env(Envs::EnvRefLit { content }) => 0 <= *content && (*content as usize) < nargs,
                ArcSource::Local(_) => a.target.index > -2,
                _ => true,
            };
            if !ok {
                assert(!in_arc_ok(iv[j as int], nargs as int));
                return false;
            }
        }
        j = j + 1;
    }
    true
}

/// Whether the tasks of the stateful functions can be generated with `nargs` call arguments.
pub fn check_sfns_ok(d: &OhuaData, nargs: usize) -> (r: bool)
    ensures
        r == sfns_ok(d.deep_view(), nargs as int),
{
    let ghost ov = d.deep_view().graph.operators;
    if !check_local_arcs_named(&d.graph.operators, &d.graph.arcs.direct) {
        return false;
    }
    let n = d.graph.operators.len();
    let mut i: usize = 0;
    while i < n
        invariant
            i <= n,
            n == ov.len(),
            ov == d.deep_view().graph.operators,
            forall|k: int| 0 <= k < i && is_function_node(ov[k]) ==> in_arcs_ok(#[trigger] ov[k].id, d.deep_view().graph.arcs.direct, nargs as int),
        decreases n - i,
    {
        assert(d.graph.operators@[i as int].deep_view() == ov[i as int]);
        let op = &d.graph.operators[i];
        if op.nodeType == NodeType::FunctionNode {
            if !check_in_arcs_ok(op.operatorId, &d.graph.arcs.direct, nargs) {
                assert(is_function_node(ov[i as int]));
                assert(!in_arcs_ok(ov[i as int].id, d.deep_view().graph.arcs.direct, nargs as int));
                return false;
            }
        }
        i = i + 1;
    }
    true
}

/// Whether the tasks of the operators can be generated.
pub fn check_ops_ok(d: &OhuaData) -> (r: bool)
    ensures
        r == ops_ok(d.deep_view()),
{
    let ghost ov = d.deep_view().graph.operators;
    if !check_local_arcs_named(&d.graph.operators, &d.graph.arcs.direct) {
        return false;
    }
    let n = d.graph.operators.len();
    let mut i: usize = 0;
    while i < n
        invariant
            i <= n,
            n == ov.len(),
            ov == d.deep_view().graph.operators,
            forall|k: int| 0 <= k < i && !is_function_node(ov[k]) ==> in_arcs_ok(#[trigger] ov[k].id, d.deep_view().graph.arcs.direct, 0),
        decreases n - i,
    {
        assert(d.graph.operators@[i as int].deep_view() == ov[i as int]);
        let op = &d.graph.operators[i];
        if op.nodeType == NodeType::OperatorNode {
            if !check_in_arcs_ok(op.operatorId, &d.graph.arcs.direct, 0) {
                assert(!is_function_node(ov[i as int]));
                assert(!in_arcs_ok(ov[i as int].id, d.deep_view().graph.arcs.direct, 0));
                return false;
            }
        }
        i = i + 1;
    }
    true
}

/// Whether every `ctrl` operator has a control input and at least one variable.
pub fn check_ctrls_ok(d: &OhuaData) -> (r: bool)
    ensures
        r == ctrls_ok(d.deep_view()),
{
    let ghost ov = d.deep_view().graph.operators;
    let ghost av = d.deep_view().graph.arcs.direct;
    let n = d.graph.operators.len();
    let mut i: usize = 0;
    while i < n
        invariant
            i <= n,
            n == ov.len(),
            ov == d.deep_view().graph.operators,
            av == d.deep_view().graph.arcs.direct,
            forall|k: int| 0 <= k < i && is_runtime_named(ov[k], "ctrl"@) ==> num_inputs(#[trigger] ov[k], av) >= 2,
        decreases n - i,
    {
        assert(d.graph.operators@[i as int].deep_view() == ov[i as int]);
        let op = &d.graph.operators[i];
        if is_runtime_op_named(op, "ctrl") && get_num_inputs(&op.operatorId, &d.graph.arcs.direct) < 2 {
            assert(is_runtime_named(ov[i as int], "ctrl"@) && num_inputs(ov[i as int], av) < 2);
            return false;
        }
        i = i + 1;
    }
    true
}

/// Whether every `recurFun` operator has a condition and a result port.
pub fn check_recurs_ok(d: &OhuaData) -> (r: bool)
    ensures
        r == recurs_ok(d.deep_view()),
{
    let ghost ov = d.deep_view().graph.operators;
    let ghost av = d.deep_view().graph.arcs.direct;
    let n = d.graph.operators.len();
    let mut i: usize = 0;
    while i < n
        invariant
            i <= n,
            n == ov.len(),
            ov == d.deep_view().graph.operators,
            av == d.deep_view().graph.arcs.direct,
            forall|k: int| 0 <= k < i && is_recur(ov[k]) ==> recursion_ok(#[trigger] ov[k].id, av),
        decreases n - i,
    {
        assert(d.graph.operators@[i as int].deep_view() == ov[i as int]);
        let op = &d.graph.operators[i];
        if is_recur_op(op) && dedup_target_ports(op.operatorId, &d.graph.arcs).len() < 2 {
            assert(is_recur(ov[i as int]) && !recursion_ok(ov[i as int].id, av));
            return false;
        }
        i = i + 1;
    }
    true
}

/// Whether the inputs of the `nth` operator `op` are well formed.
fn check_nth_inputs(op: i32, arcs: &Vec<DirectArc>) -> (r: bool)
    ensures
        r == nth_inputs_ok(op, arcs.deep_view()),
{
    proof { lemma_sorted_in_arcs_len(op, arcs.deep_view()); }
    if get_num_inputs(&op, arcs) != 3 {
        return false;
    }
    let sorted = sort_in_arcs(&op, arcs);
    assert(sorted@[0].deep_view() == sorted_in_arcs(op, arcs.deep_view())[0]);
    assert(sorted@[1].deep_view() == sorted_in_arcs(op, arcs.deep_view())[1]);
    let first = match &sorted[0].source {
        ArcSource::Env(Envs::NumericLit { .. }) => true,
        _ => false,
    };
    let second = match &sorted[1].source {
        ArcSource::Env(Envs::NumericLit { .. }) => true,
        _ => false,
    };
    first && second
}

/// Whether every `nth` operator has well-formed inputs and no arc into one ends beyond port 2.
pub fn check_nths_ok(d: &OhuaData) -> (r: bool)
    ensures
        r == nths_ok(d.deep_view()),
{
    let ghost ov = d.deep_view().graph.operators;
    let ghost av = d.deep_view().graph.arcs.direct;
    let n = d.graph.operators.len();
    let mut i: usize = 0;
    while i < n
        invariant
            i <= n,
            n == ov.len(),
            ov == d.deep_view().graph.operators,
            av == d.deep_view().graph.arcs.direct,
            forall|k: int| 0 <= k < i && is_runtime_named(ov[k], "nth"@) ==> nth_inputs_ok(#[trigger] ov[k].id, av),
        decreases n - i,
    {
        assert(d.graph.operators@[i as int].deep_view() == ov[i as int]);
        let op = &d.graph.operators[i];
        if is_runtime_op_named(op, "nth") && !check_nth_inputs(op.operatorId, &d.graph.arcs.direct) {
            assert(is_runtime_named(ov[i as int], "nth"@) && !nth_inputs_ok(ov[i as int].id, av));
            return false;
        }
        i = i + 1;
    }
    let m = d.graph.arcs.direct.len();
    let mut j: usize = 0;
    while j < m
        invariant
            j <= m,
            m == av.len(),
            ov == d.deep_view().graph.operators,
            av == d.deep_view().graph.arcs.direct,
            forall|k: int| 0 <= k < n && is_runtime_named(ov[k], "nth"@) ==> nth_inputs_ok(#[trigger] ov[k].id, av),
            forall|k: int| 0 <= k < j && spec_is_nth(av[k].target.operator, ov) ==> #[trigger] av[k].target.index <= 2,
        decreases m - j,
    {
        assert(d.graph.arcs.direct@[j as int].deep_view() == av[j as int]);
        let t = d.graph.arcs.direct[j].target;
        if is_nth(&t.operator, &d.graph.operators) && t.index > 2 {
            assert(spec_is_nth(av[j as int].target.operator, ov) && av[j as int].target.index > 2);
            return false;
        }
        j = j + 1;
    }
    true
}

/// Whether the ids of the new `id` operators, and their base, fit in an `i32`.
pub fn check_env_ids_fit(d: &OhuaData) -> (r: bool)
    ensures
        r == env_ids_fit(d.deep_view()),
{
    let ghost av = d.deep_view().graph.arcs.direct;
    let ghost refs = env_refs(av);
    let ghost ep = |a: DirectArcM| is_env_ref(a);
    let ghost ef = |a: DirectArcM| env_ref(a);
    let max_id = max_op_id(&d.graph.operators);
    let base: i64 = max_id as i64 + 1;
    assert(base == id_base(d.deep_view().graph.operators));
    if base > i32::MAX as i64 {
        return false;
    }
    let n = d.graph.arcs.direct.len();
    let mut k: usize = 0;
    while k < n
        invariant
            k <= n,
            n == av.len(),
            av == d.deep_view().graph.arcs.direct,
            base == id_base(d.deep_view().graph.operators),
            base <= i32::MAX,
            refs == env_refs(av),
            ep == (|a: DirectArcM| is_env_ref(a)),
            ef == (|a: DirectArcM| env_ref(a)),
            forall|j: int| 0 <= j < k && is_env_ref(av[j]) ==> i32::MIN <= base + #[trigger] env_ref(av[j]) <= i32::MAX,
        decreases n - k,
    {
        assert(d.graph.arcs.direct@[k as int].deep_view() == av[k as int]);
        match &d.graph.arcs.direct[k].source {
            ArcSource::Env(Envs::EnvRefLit { content }) => {
                let v: i64 = base + *content as i64;
                if v < i32::MIN as i64 || v > i32::MAX as i64 {
                    proof {
                        av.lemma_filter_contains(ep, k as int);
                        let q = choose|q: int| 0 <= q < av.filter(ep).len() && av.filter(ep)[q] == av[k as int];
                        assert(refs[q] == env_ref(av[k as int]));
                        assert(ints_i32(refs)[q] == *content as int);
                        assert(ints_i32(refs).contains(*content as int));
                    }
                    return false;
                }
            },
            _ => {},
        }
        k = k + 1;
    }
    proof {
        assert forall|i: int| #[trigger] ints_i32(refs).contains(i) implies i32::MIN <= base + i <= i32::MAX by {
            let q = choose|q: int| 0 <= q < ints_i32(refs).len() && ints_i32(refs)[q] == i;
            let fa = av.filter(ep);
            assert(refs[q] == ef(fa[q]));
            assert(fa.contains(fa[q]));
            av.lemma_filter_contains_rev(ep, fa[q]);
            av.lemma_filter_pred(ep, q);
            let w = choose|w: int| 0 <= w < av.len() && av[w] == fa[q];
            assert(is_env_ref(av[w]));
            assert(env_ref(av[w]) as int == i);
        }
    }
    true
}

} // verus!
