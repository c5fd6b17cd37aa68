//! Typed code generation: channels for the arcs, tasks for the stateful
//! functions and operators, and the rewrites of the graph that precede them.
#![allow(non_snake_case)]

use vstd::prelude::*;
use crate::codegen::ohua_types::{
    ArcIdentifier, ArcSource, ArcSourceM, DirectArc, DirectArcM, Envs, EnvsM, NodeType, Operator,
    OperatorM,
};
use crate::seqs::{lemma_concat_map_push, lemma_concat_index, ints_i32, concat, lemma_concat_step, lemma_filter_step, sort_dedup_i32, sorted_set_i32};
use crate::text::{i32_to_string, int_decimal, lemma_int_decimal_chars, lemma_int_decimal_injective, lemma_split_at_underscore, string_is, Tokens};
use crate::codegen::ohua_types::{OhuaData, OhuaDataM, StateArc, StateArcM};

pub mod generate_recur;
use crate::codegen::backend_optimizations::{run_backend_optimizations, spec_process_dead_ends};
use crate::codegen::imports::{generate_imports, spec_generate_imports};
use crate::codegen::rewrite::{
    ctrls_ok, env_ids_fit, generate_ctrls, generate_nths, handle_environment_arcs, nths_ok,
    spec_ctrl_code, spec_generate_ctrls, spec_generate_nths, spec_handle_environment_arcs,
    spec_nth_code,
};
use crate::codegen::tasks::{generate_ops, generate_sfns, ops_ok, sfns_ok, spec_generate_ops, spec_generate_sfns};
use crate::codegen::typedgen::generate_recur::{recurs_ok, spec_generate_recur, spec_recur_code};
use crate::codegen::checks::{
    check_arcs_named, check_ctrls_ok, check_env_ids_fit, check_nths_ok, check_ops_ok,
    check_recurs_ok, check_sfns_ok,
};

verus! {

// ---------------------------------------------------------------------------
// Names of the generated variables

/// `sf_{op}_out_{idx}`: the sending end of an output port.
pub open spec fn out_var_name(op: i32, idx: i32) -> Seq<char> {
    "sf_"@ + int_decimal(op as int) + "_out_"@ + int_decimal(idx as int)
}

/// `sf_{op}_in_{idx}`: the receiving end of an input port.
pub open spec fn in_var_name(op: i32, idx: i32) -> Seq<char> {
    "sf_"@ + int_decimal(op as int) + "_in_"@ + int_decimal(idx as int)
}

/// `{out}__{in}`: the sending end of one arc.
pub open spec fn arc_var_name(out_port: Seq<char>, in_port: Seq<char>) -> Seq<char> {
    out_port + "__"@ + in_port
}

/// `sf_{op}_state`: the receiving end of a state arc.
pub open spec fn state_recv_name(op: i32) -> Seq<char> {
    "sf_"@ + int_decimal(op as int) + "_state"@
}

/// The namespace of the operators that the Ohua runtime provides.
pub open spec fn runtime_namespace() -> Seq<Seq<char>> {
    seq!["ohua_runtime"@, "lang"@]
}

// ---------------------------------------------------------------------------
// Queries on operators and arcs

/// `ops` holds an operator with this id.
pub open spec fn op_registered(ops: Seq<OperatorM>, id: i32) -> bool {
    exists|i: int| 0 <= i < ops.len() && ops[i].id == id
}

/// The position of the first operator with this id.
pub open spec fn first_op_index(ops: Seq<OperatorM>, id: i32) -> int {
    choose|i: int|
        0 <= i < ops.len() && ops[i].id == id && forall|j: int| 0 <= j < i ==> ops[j].id != id
}

/// The first operator with this id.
pub open spec fn find_op(ops: Seq<OperatorM>, id: i32) -> OperatorM {
    ops[first_op_index(ops, id)]
}

/// The index an output port may carry for an operator of this kind.
pub open spec fn out_index_ok(node: NodeType, idx: i32) -> bool {
    match node {
        NodeType::FunctionNode => idx == 0,
        NodeType::OperatorNode => idx >= 0,
    }
}

/// The output variable of port `idx` of operator `op` can be named.
#[verifier::opaque]
pub open spec fn out_var_ok(ops: Seq<OperatorM>, op: i32, idx: i32) -> bool {
    op_registered(ops, id_of(op)) && out_index_ok(find_op(ops, op).node, idx)
}

/// Identity on operator ids (keeps triggers readable).
pub open spec fn id_of(op: i32) -> i32 {
    op
}

/// The arc comes from an environment value.
pub open spec fn is_env(s: ArcSourceM) -> bool {
    s is Env
}

/// The source names an operator: a local arc or a reference to an environment argument.
pub open spec fn source_named(s: ArcSourceM) -> bool {
    match s {
        ArcSourceM::Env(EnvsM::EnvRefLit(_)) => true,
        ArcSourceM::Local(_) => true,
        _ => false,
    }
}

/// The operator id a source names.
pub open spec fn source_op(s: ArcSourceM) -> i32 {
    match s {
        ArcSourceM::Env(EnvsM::EnvRefLit(i)) => i,
        ArcSourceM::Local(id) => id.operator,
        _ => 0,
    }
}

/// The output index a source names.
pub open spec fn source_index(s: ArcSourceM) -> i32 {
    match s {
        ArcSourceM::Env(EnvsM::EnvRefLit(i)) => i,
        ArcSourceM::Local(id) => id.index,
        _ => 0,
    }
}

/// The arc is a local arc that starts at operator `op`.
pub open spec fn from_op(a: DirectArcM, op: i32) -> bool {
    match a.source {
        ArcSourceM::Local(id) => id.operator == op,
        _ => false,
    }
}

/// The arcs that end at operator `op`, in order.
pub open spec fn spec_in_arcs(op: i32, arcs: Seq<DirectArcM>) -> Seq<DirectArcM> {
    arcs.filter(|a: DirectArcM| a.target.operator == op)
}

/// The local arcs that start at operator `op`, in order.
pub open spec fn spec_out_arcs(op: i32, arcs: Seq<DirectArcM>) -> Seq<DirectArcM> {
    arcs.filter(|a: DirectArcM| from_op(a, op))
}

/// The name of the sending end of an arc.
pub open spec fn spec_out_arc_var(a: DirectArcM) -> Seq<char> {
    arc_var_name(
        out_var_name(source_op(a.source), source_index(a.source)),
        in_var_name(a.target.operator, a.target.index),
    )
}

/// The sending end of an arc can be named.
pub open spec fn out_arc_var_ok(ops: Seq<OperatorM>, a: DirectArcM) -> bool {
    &&& source_named(a.source)
    &&& out_var_ok(ops, source_op(a.source), source_index(a.source))
    &&& a.target.index > -2
}

/// Whether the operator is one of the runtime's own.
pub fn is_runtime_op(op: &Operator) -> (r: bool)
    ensures
        r == (op.deep_view().ty.namespace == runtime_namespace()),
{
    let ns = &op.operatorType.qbNamespace;
    let r = ns.len() == 2 && string_is(&ns[0], "ohua_runtime") && string_is(&ns[1], "lang");
    proof {
        if r {
            assert(op.deep_view().ty.namespace =~= runtime_namespace());
        } else if op.deep_view().ty.namespace == runtime_namespace() {
            assert(ns.deep_view().len() == ns@.len());
            assert(ns.deep_view()[0] == ns@[0]@);
            assert(ns.deep_view()[1] == ns@[1]@);
        }
    }
    r
}

/// The operator an arc source names.
fn get_op_id(val: &ArcSource) -> (r: &i32)
    requires
        source_named(val.deep_view()),
    ensures
        *r == source_op(val.deep_view()),
{
    match val {
        ArcSource::Env(Envs::EnvRefLit { content }) => content,
        ArcSource::Local(i) => &i.operator,
        _ => { assert(false); unreached() },
    }
}

/// The output index an arc source names.
fn get_out_index_from_source(src: &ArcSource) -> (r: &i32)
    requires
        source_named(src.deep_view()),
    ensures
        *r == source_index(src.deep_view()),
{
    match src {
        ArcSource::Env(Envs::EnvRefLit { content }) => content,
        ArcSource::Local(arc_id) => &arc_id.index,
        _ => { assert(false); unreached() },
    }
}

/// The number of arcs that end at operator `op`.
pub(crate) fn get_num_inputs(op: &i32, arcs: &Vec<DirectArc>) -> (n: usize)
    ensures
        n == spec_in_arcs(*op, arcs.deep_view()).len(),
{
    get_in_arcs(op, arcs).len()
}

/// No arc takes a value from the environment.
pub open spec fn all_local(arcs: Seq<DirectArcM>) -> bool {
    forall|k: int| 0 <= k < arcs.len() ==> (#[trigger] arcs[k]).source is Local
}

/// The output ports after one more arc.
proof fn lemma_out_ports_step(op: i32, av: Seq<DirectArcM>, i: int)
    requires
        0 <= i < av.len(),
    ensures
        out_ports(op, av.subrange(0, i + 1)) == if from_op(av[i], op) {
            out_ports(op, av.subrange(0, i)).push(source_index(av[i].source))
        } else {
            out_ports(op, av.subrange(0, i))
        },
{
    lemma_filter_step(av, |a: DirectArcM| from_op(a, op), i);
    if from_op(av[i], op) {
        assert(out_ports(op, av.subrange(0, i + 1)) =~= out_ports(op, av.subrange(0, i)).push(source_index(av[i].source)));
    }
}

/// The numbers do not decrease.
pub open spec fn ascending(s: Seq<i32>) -> bool {
    forall|i: int, j: int| 0 <= i <= j < s.len() ==> s[i] <= s[j]
}

/// The number of arcs that leave operator `op`; defined where no arc takes a
/// value from the environment.
pub fn get_num_outputs(op: &i32, arcs: &Vec<DirectArc>) -> (n: usize)
    requires
        all_local(arcs.deep_view()),
    ensures
        n == out_ports(*op, arcs.deep_view()).len(),
{
    let ghost av = arcs.deep_view();
    let n = arcs.len();
    let mut c: usize = 0;
    let mut i: usize = 0;
    assert(av.subrange(0, 0) =~= Seq::<DirectArcM>::empty());
    while i < n
        invariant
            i <= n,
            n == av.len(),
            av == arcs.deep_view(),
            c == out_ports(*op, av.subrange(0, i as int)).len(),
            c <= i,
        decreases n - i,
    {
        proof { lemma_out_ports_step(*op, av, i as int); }
        assert(av[i as int] == arcs@[i as int].deep_view());
        match &arcs[i].source {
            ArcSource::Local(a_id) => {
                if a_id.operator == *op {
                    c = c + 1;
                }
            },
            ArcSource::Env(_) => {},
        }
        i = i + 1;
    }
    assert(av.subrange(0, n as int) =~= av);
    c
}

/// Inserts `x` into the ascending `r`, before the first larger number.
fn insert_ascending(r: &mut Vec<i32>, x: i32)
    requires
        ascending(old(r)@),
    ensures
        ascending(final(r)@),
        final(r)@.to_multiset() == old(r)@.to_multiset().insert(x),
{
    broadcast use vstd::seq_lib::group_to_multiset_ensures;
    let n = r.len();
    let mut p: usize = 0;
    while p < n && r[p] <= x
        invariant
            p <= n,
            n == r@.len(),
            r@ == old(r)@,
            forall|k: int| 0 <= k < p ==> r@[k] <= x,
        decreases n - p,
    {
        p = p + 1;
    }
    let ghost before = r@;
    r.insert(p, x);
    assert(r@ == before.insert(p as int, x));
    assert forall|i: int, j: int| 0 <= i <= j < r@.len() implies r@[i] <= r@[j] by {
        if j < p {
            assert(before[i] <= before[j]);
        } else if i > p {
            assert(before[i - 1] <= before[j - 1]);
        } else if i == p && j > p {
            assert(before[p as int] > x);
            assert(before[p as int] <= before[j - 1]);
        } else if i < p && j > p {
            assert(before[i] <= x);
            assert(before[p as int] > x);
            assert(before[p as int] <= before[j - 1]);
        } else if i < p && j == p {
            assert(before[i] <= x);
        }
    }
}

/// The source ports of the arcs that leave operator `op`, in ascending order;
/// defined where no arc takes a value from the environment.
pub fn get_outputs(op: &i32, arcs: &Vec<DirectArc>) -> (r: Vec<i32>)
    requires
        all_local(arcs.deep_view()),
    ensures
        ascending(r@),
        r@.to_multiset() == out_ports(*op, arcs.deep_view()).to_multiset(),
{
    broadcast use vstd::seq_lib::group_to_multiset_ensures;
    let ghost av = arcs.deep_view();
    let n = arcs.len();
    let mut t: Vec<i32> = Vec::new();
    let mut i: usize = 0;
    assert(av.subrange(0, 0) =~= Seq::<DirectArcM>::empty());
    assert(t@.to_multiset() =~= Seq::<i32>::empty().to_multiset());
    while i < n
        invariant
            i <= n,
            n == av.len(),
            av == arcs.deep_view(),
            ascending(t@),
            t@.to_multiset() == out_ports(*op, av.subrange(0, i as int)).to_multiset(),
        decreases n - i,
    {
        proof { lemma_out_ports_step(*op, av, i as int); }
        assert(av[i as int] == arcs@[i as int].deep_view());
        let ghost prev = t@;
        let ghost prev_ports = out_ports(*op, av.subrange(0, i as int));
        match &arcs[i].source {
            ArcSource::Local(a_id) => {
                if a_id.operator == *op {
                    insert_ascending(&mut t, a_id.index);
                    proof { vstd::seq_lib::to_multiset_build(prev_ports, a_id.index); }
                }
            },
            ArcSource::Env(_) => {},
        }
        i = i + 1;
    }
    assert(av.subrange(0, n as int) =~= av);
    t
}

/// The arcs that end at operator `op`, in order.
pub(crate) fn get_in_arcs<'a>(op: &i32, arcs: &'a Vec<DirectArc>) -> (r: Vec<&'a DirectArc>)
    ensures
        r.deep_view() == spec_in_arcs(*op, arcs.deep_view()),
{
    let ghost pred = |a: DirectArcM| a.target.operator == *op;
    let mut r: Vec<&'a DirectArc> = Vec::new();
    let n = arcs.len();
    let mut i: usize = 0;
    assert(r.deep_view() =~= arcs.deep_view().subrange(0, 0).filter(pred));
    while i < n
        invariant
            i <= n,
            n == arcs@.len(),
            pred == (|a: DirectArcM| a.target.operator == *op),
            r.deep_view() == arcs.deep_view().subrange(0, i as int).filter(pred),
        decreases n - i,
    {
        proof { lemma_filter_step(arcs.deep_view(), pred, i as int); }
        if arcs[i].target.operator == *op {
            r.push(&arcs[i]);
            assert(r.deep_view() =~= arcs.deep_view().subrange(0, i as int).filter(pred).push(arcs.deep_view()[i as int]));
        }
        i = i + 1;
    }
    assert(arcs.deep_view().subrange(0, n as int) =~= arcs.deep_view());
    r
}

/// The local arcs that start at operator `op`, in order.
pub fn get_out_arcs<'a>(op: &i32, arcs: &'a Vec<DirectArc>) -> (r: Vec<&'a DirectArc>)
    ensures
        r.deep_view() == spec_out_arcs(*op, arcs.deep_view()),
{
    let ghost pred = |a: DirectArcM| from_op(a, *op);
    let mut r: Vec<&'a DirectArc> = Vec::new();
    let n = arcs.len();
    let mut i: usize = 0;
    assert(r.deep_view() =~= arcs.deep_view().subrange(0, 0).filter(pred));
    while i < n
        invariant
            i <= n,
            n == arcs@.len(),
            pred == (|a: DirectArcM| from_op(a, *op)),
            r.deep_view() == arcs.deep_view().subrange(0, i as int).filter(pred),
        decreases n - i,
    {
        proof { lemma_filter_step(arcs.deep_view(), pred, i as int); }
        let keep = match &arcs[i].source {
            ArcSource::Env(_) => false,
            ArcSource::Local(a_id) => a_id.operator == *op,
        };
        if keep {
            r.push(&arcs[i]);
            assert(r.deep_view() =~= arcs.deep_view().subrange(0, i as int).filter(pred).push(arcs.deep_view()[i as int]));
        }
        i = i + 1;
    }
    assert(arcs.deep_view().subrange(0, n as int) =~= arcs.deep_view());
    r
}

/// Finds the position of the first operator with id `op`.
pub(crate) fn find_op_pos(op: i32, ops: &Vec<Operator>) -> (pos: usize)
    requires
        op_registered(ops.deep_view(), op),
    ensures
        pos < ops@.len(),
        pos == first_op_index(ops.deep_view(), op),
{
    let n = ops.len();
    let mut i: usize = 0;
    while i < n
        invariant
            i <= n,
            n == ops@.len(),
            op_registered(ops.deep_view(), op),
            forall|j: int| 0 <= j < i ==> ops.deep_view()[j].id != op,
        decreases n - i,
    {
        if ops[i].operatorId == op {
            proof {
                let k = first_op_index(ops.deep_view(), op);
                assert(0 <= i < ops.deep_view().len() && ops.deep_view()[i as int].id == op
                    && forall|j: int| 0 <= j < i ==> ops.deep_view()[j].id != op);
                if k != i as int {
                    if k < i { } else { assert(ops.deep_view()[i as int].id != op); }
                }
            }
            return i;
        }
        i = i + 1;
    }
    proof {
        let k = choose|k: int| 0 <= k < ops.deep_view().len() && ops.deep_view()[k].id == op;
        assert(ops.deep_view()[k].id != op);
    }
    unreached()
}

/// `sf_{op}_out_{idx}` for an output port of a registered operator.
fn generate_var_for_out_arc(op: &i32, idx: &i32, ops: &Vec<Operator>) -> (s: String)
    requires
        out_var_ok(ops.deep_view(), *op, *idx),
    ensures
        s@ == out_var_name(*op, *idx),
{
    proof { reveal(out_var_ok); }
    let pos = find_op_pos(*op, ops);
    let computed_idx: i32 = match ops[pos].nodeType {
        NodeType::FunctionNode => 0,
        NodeType::OperatorNode => *idx,
    };
    let mut s = String::from_str("sf_");
    s.append(i32_to_string(*op).as_str());
    s.append("_out_");
    s.append(i32_to_string(computed_idx).as_str());
    s
}

/// `sf_{op}_in_{idx}`.
pub(crate) fn generate_var_for_in_arc(op: &i32, idx: &i32) -> (s: String)
    requires
        *idx > -2,
    ensures
        s@ == in_var_name(*op, *idx),
{
    let mut s = String::from_str("sf_");
    s.append(i32_to_string(*op).as_str());
    s.append("_in_");
    s.append(i32_to_string(*idx).as_str());
    s
}

/// `{out_port}__{in_port}`: an arc is identified by its source port and its target port.
fn make_out_arc_ident(out_port: &String, in_port: &String) -> (s: String)
    ensures
        s@ == arc_var_name(out_port@, in_port@),
{
    let mut s = out_port.clone();
    s.append("__");
    s.append(in_port.as_str());
    s
}

/// The name of the sending end of an arc.
fn generate_out_arc_var(arc: &DirectArc, ops: &Vec<Operator>) -> (s: String)
    requires
        out_arc_var_ok(ops.deep_view(), arc.deep_view()),
    ensures
        s@ == spec_out_arc_var(arc.deep_view()),
{
    let out_idx = get_out_index_from_source(&arc.source);
    let src_op = get_op_id(&arc.source);
    let out_port = generate_var_for_out_arc(src_op, out_idx, ops);
    let in_port = generate_var_for_in_arc(&arc.target.operator, &arc.target.index);
    make_out_arc_ident(&out_port, &in_port)
}


// ---------------------------------------------------------------------------
// Output ports that serve several arcs

/// The source operators of the local arcs, in order.
pub open spec fn local_source_ops(arcs: Seq<DirectArcM>) -> Seq<i32>
    decreases arcs.len(),
{
    if arcs.len() == 0 {
        Seq::empty()
    } else {
        let r = local_source_ops(arcs.drop_last());
        match arcs.last().source {
            ArcSourceM::Local(id) => r.push(id.operator),
            _ => r,
        }
    }
}

/// The output ports of the local arcs that start at `op`, in order.
pub open spec fn out_ports(op: i32, arcs: Seq<DirectArcM>) -> Seq<i32> {
    spec_out_arcs(op, arcs).map_values(|a: DirectArcM| source_index(a.source))
}

/// The arcs that leave port `port` of operator `op`, in order.
pub open spec fn port_group(arcs: Seq<DirectArcM>, op: i32, port: i32) -> Seq<DirectArcM> {
    arcs.filter(|a: DirectArcM| a.source == ArcSourceM::Local(ArcIdentifier { operator: op, index: port }))
}

/// The ports of `op`, in increasing order, that serve more than one arc.
pub open spec fn shared_ports(arcs: Seq<DirectArcM>, op: i32) -> Seq<i32> {
    sorted_set_i32(out_ports(op, arcs)).filter(|p: i32| port_group(arcs, op, p).len() > 1)
}

/// The arc groups of the shared ports of `op`.
pub open spec fn pairs_of_op(arcs: Seq<DirectArcM>, op: i32) -> Seq<Seq<DirectArcM>> {
    shared_ports(arcs, op).map_values(|p: i32| port_group(arcs, op, p))
}

/// All output ports that serve more than one arc, as groups of their arcs: by
/// operator in increasing order, then by port in increasing order; the arcs of a
/// group in the order of `arcs`.
pub open spec fn spec_port_pairs(arcs: Seq<DirectArcM>) -> Seq<Seq<DirectArcM>> {
    concat(sorted_set_i32(local_source_ops(arcs)).map_values(|o: i32| pairs_of_op(arcs, o)))
}

proof fn lemma_local_source_ops_step(arcs: Seq<DirectArcM>, i: int)
    requires
        0 <= i < arcs.len(),
    ensures
        local_source_ops(arcs.subrange(0, i + 1)) == match arcs[i].source {
            ArcSourceM::Local(id) => local_source_ops(arcs.subrange(0, i)).push(id.operator),
            _ => local_source_ops(arcs.subrange(0, i)),
        },
{
    assert(arcs.subrange(0, i + 1).drop_last() =~= arcs.subrange(0, i));
}

/// The source operators of all local arcs.
fn collect_local_source_ops(arcs: &Vec<DirectArc>) -> (r: Vec<i32>)
    ensures
        r@ == local_source_ops(arcs.deep_view()),
{
    let mut r: Vec<i32> = Vec::new();
    let n = arcs.len();
    let mut i: usize = 0;
    assert(arcs.deep_view().subrange(0, 0).len() == 0);
    assert(r@ =~= local_source_ops(arcs.deep_view().subrange(0, 0)));
    while i < n
        invariant
            i <= n,
            n == arcs@.len(),
            r@ == local_source_ops(arcs.deep_view().subrange(0, i as int)),
        decreases n - i,
    {
        proof { lemma_local_source_ops_step(arcs.deep_view(), i as int); }
        match &arcs[i].source {
            ArcSource::Local(src) => { r.push(src.operator); },
            _ => {},
        }
        i = i + 1;
    }
    assert(arcs.deep_view().subrange(0, n as int) =~= arcs.deep_view());
    r
}

/// The output ports of the out arcs of `op`.
fn collect_out_ports(op: i32, arcs: &Vec<DirectArc>) -> (r: Vec<i32>)
    ensures
        r@ == out_ports(op, arcs.deep_view()),
{
    let outs = get_out_arcs(&op, arcs);
    let mut r: Vec<i32> = Vec::new();
    let n = outs.len();
    let mut i: usize = 0;
    while i < n
        invariant
            i <= n,
            n == outs@.len(),
            outs.deep_view() == spec_out_arcs(op, arcs.deep_view()),
            r@ == outs.deep_view().subrange(0, i as int).map_values(|a: DirectArcM| source_index(a.source)),
        decreases n - i,
    {
        let idx: i32 = match &outs[i].source {
            ArcSource::Local(src) => src.index,
            ArcSource::Env(Envs::EnvRefLit { content }) => *content,
            _ => 0,
        };
        r.push(idx);
        assert(outs.deep_view().subrange(0, (i + 1) as int) =~= outs.deep_view().subrange(0, i as int).push(outs.deep_view()[i as int]));
        assert(r@ =~= outs.deep_view().subrange(0, (i + 1) as int).map_values(|a: DirectArcM| source_index(a.source)));
        i = i + 1;
    }
    assert(outs.deep_view().subrange(0, n as int) =~= outs.deep_view());
    r
}

/// The arcs that leave port `port` of operator `op`.
fn collect_port_group<'a>(arcs: &'a Vec<DirectArc>, op: i32, port: i32) -> (r: Vec<&'a DirectArc>)
    ensures
        r.deep_view() == port_group(arcs.deep_view(), op, port),
{
    let ghost pred = |a: DirectArcM| a.source == ArcSourceM::Local(ArcIdentifier { operator: op, index: port });
    let mut r: Vec<&'a DirectArc> = Vec::new();
    let n = arcs.len();
    let mut i: usize = 0;
    assert(r.deep_view() =~= arcs.deep_view().subrange(0, 0).filter(pred));
    while i < n
        invariant
            i <= n,
            n == arcs@.len(),
            pred == (|a: DirectArcM| a.source == ArcSourceM::Local(ArcIdentifier { operator: op, index: port })),
            r.deep_view() == arcs.deep_view().subrange(0, i as int).filter(pred),
        decreases n - i,
    {
        proof { lemma_filter_step(arcs.deep_view(), pred, i as int); }
        let keep = match &arcs[i].source {
            ArcSource::Local(src) => src.operator == op && src.index == port,
            _ => false,
        };
        if keep {
            r.push(&arcs[i]);
            assert(r.deep_view() =~= arcs.deep_view().subrange(0, i as int).filter(pred).push(arcs.deep_view()[i as int]));
        }
        i = i + 1;
    }
    assert(arcs.deep_view().subrange(0, n as int) =~= arcs.deep_view());
    r
}

/// Finds the output ports that serve more than one outgoing arc and returns their
/// arcs, bundled into one vector per port.
///
/// The arcs of one port come in the order of `arcs`: one of the orders that an
/// unstable sort by port may leave them in.
fn find_out_port_pairs<'a>(arcs: &'a Vec<DirectArc>) -> (res: Vec<Vec<&'a DirectArc>>)
    ensures
        res.deep_view() == spec_port_pairs(arcs.deep_view()),
{
    let ghost av = arcs.deep_view();
    let all_ops = collect_local_source_ops(arcs);
    let indices = sort_dedup_i32(&all_ops);
    let ghost opsq = indices@.map_values(|o: i32| pairs_of_op(av, o));
    let mut res: Vec<Vec<&'a DirectArc>> = Vec::new();
    let n = indices.len();
    let mut i: usize = 0;
    assert(res.deep_view() =~= concat(opsq.subrange(0, 0)));
    while i < n
        invariant
            i <= n,
            n == indices@.len(),
            av == arcs.deep_view(),
            opsq == indices@.map_values(|o: i32| pairs_of_op(av, o)),
            res.deep_view() == concat(opsq.subrange(0, i as int)),
        decreases n - i,
    {
        let op = indices[i];
        let ports_all = collect_out_ports(op, arcs);
        let ports = sort_dedup_i32(&ports_all);
        let ghost base = res.deep_view();
        let ghost gpred = |p: i32| port_group(av, op, p).len() > 1;
        let ghost gmap = |p: i32| port_group(av, op, p);
        let m = ports.len();
        let mut j: usize = 0;
        assert(res.deep_view() =~= base + ports@.subrange(0, 0).filter(gpred).map_values(gmap));
        while j < m
            invariant
                j <= m,
                m == ports@.len(),
                av == arcs.deep_view(),
                ports@ == sorted_set_i32(out_ports(op, av)),
                gpred == (|p: i32| port_group(av, op, p).len() > 1),
                gmap == (|p: i32| port_group(av, op, p)),
                res.deep_view() == base + ports@.subrange(0, j as int).filter(gpred).map_values(gmap),
            decreases m - j,
        {
            let port = ports[j];
            let group = collect_port_group(arcs, op, port);
            proof { lemma_filter_step(ports@, gpred, j as int); }
            if group.len() > 1 {
                let ghost f = ports@.subrange(0, j as int).filter(gpred);
                let ghost g = group.deep_view();
                assert(g.len() == group@.len());
                assert(gpred(port));
                assert(ports@.subrange(0, (j + 1) as int).filter(gpred) == f.push(port));
                assert(f.push(port).map_values(gmap) =~= f.map_values(gmap).push(gmap(port)));
                let ghost old_dv = res.deep_view();
                res.push(group);
                assert(res.deep_view() =~= old_dv.push(g));
                assert(res.deep_view() =~= base + f.map_values(gmap).push(g));
                assert(res.deep_view() =~= base + ports@.subrange(0, (j + 1) as int).filter(gpred).map_values(gmap));
            } else {
                assert(res.deep_view() =~= base + ports@.subrange(0, (j + 1) as int).filter(gpred).map_values(gmap));
            }
            j = j + 1;
        }
        assert(ports@.subrange(0, m as int) =~= ports@);
        assert(ports@.filter(gpred).map_values(gmap) =~= pairs_of_op(av, op));
        proof { lemma_concat_step(opsq, i as int); }
        i = i + 1;
    }
    assert(opsq.subrange(0, n as int) =~= opsq);
    res
}


/// The variable of an output port that serves several arcs: `sf_{op}_out_{idx}`.
fn generate_pair_arc_var<'a>(arc: &'a DirectArc) -> (s: String)
    requires
        arc.deep_view().source is Local,
    ensures
        s@ == out_var_name(source_op(arc.deep_view().source), source_index(arc.deep_view().source)),
{
    match &arc.source {
        ArcSource::Local(src) => {
            let mut s = String::from_str("sf_");
            s.append(i32_to_string(src.operator).as_str());
            s.append("_out_");
            s.append(i32_to_string(src.index).as_str());
            s
        },
        _ => { assert(false); unreached() },
    }
}

/// The sending end used for port `p` of `op`: the shared variable of the port when
/// it serves several arcs, otherwise the variable of its single arc.
pub open spec fn port_entry(arcs: Seq<DirectArcM>, op: i32, p: i32) -> (DirectArcM, Seq<char>) {
    let g = port_group(arcs, op, p);
    if g.len() > 1 {
        (g[0], out_var_name(op, p))
    } else {
        (g[0], spec_out_arc_var(g[0]))
    }
}

/// The output arcs of `op` with the variables that feed them, one per output port,
/// by port in increasing order.
pub open spec fn spec_out_arcs_vec(op: i32, arcs: Seq<DirectArcM>) -> Seq<(DirectArcM, Seq<char>)> {
    sorted_set_i32(out_ports(op, arcs)).map_values(|p: i32| port_entry(arcs, op, p))
}

/// Every out arc of `op` can be named.
pub open spec fn out_arcs_named(ops: Seq<OperatorM>, op: i32, arcs: Seq<DirectArcM>) -> bool {
    forall|i: int| 0 <= i < arcs.len() && from_op(arcs[i], op) ==> out_arc_var_ok(ops, #[trigger] arcs[i])
}

proof fn lemma_port_group_nonempty(arcs: Seq<DirectArcM>, op: i32, port: i32, ports: Seq<i32>)
    requires
        ints_i32(ports).to_set() == ints_i32(out_ports(op, arcs)).to_set(),
        ports.contains(port),
    ensures
        port_group(arcs, op, port).len() > 0,
        forall|i: int| 0 <= i < port_group(arcs, op, port).len() ==> {
            &&& arcs.contains(#[trigger] port_group(arcs, op, port)[i])
            &&& from_op(port_group(arcs, op, port)[i], op)
            &&& port_group(arcs, op, port)[i].source == ArcSourceM::Local(ArcIdentifier { operator: op, index: port })
        },
{
    let k0 = choose|k: int| 0 <= k < ports.len() && ports[k] == port;
    assert(ints_i32(ports)[k0] == port as int);
    assert(ints_i32(ports).to_set().contains(port as int));
    assert(ints_i32(out_ports(op, arcs)).to_set().contains(port as int));
    assert(ints_i32(out_ports(op, arcs)).contains(port as int));
    let k = choose|k: int| 0 <= k < ints_i32(out_ports(op, arcs)).len() && ints_i32(out_ports(op, arcs))[k] == port as int;
    let outs = spec_out_arcs(op, arcs);
    let pred = |a: DirectArcM| from_op(a, op);
    assert(outs == arcs.filter(pred));
    assert(ints_i32(out_ports(op, arcs)).len() == outs.len());
    assert(outs.contains(outs[k]));
    arcs.lemma_filter_contains_rev(pred, outs[k]);
    arcs.lemma_filter_pred(pred, k);
    let a = outs[k];
    assert(source_index(a.source) == port);
    assert(a.source == ArcSourceM::Local(ArcIdentifier { operator: op, index: port }));
    let m = choose|m: int| 0 <= m < arcs.len() && arcs[m] == a;
    let gpred = |a: DirectArcM| a.source == ArcSourceM::Local(ArcIdentifier { operator: op, index: port });
    arcs.lemma_filter_contains(gpred, m);
    assert(port_group(arcs, op, port).contains(a));
    assert forall|i: int| 0 <= i < port_group(arcs, op, port).len() implies {
        &&& arcs.contains(#[trigger] port_group(arcs, op, port)[i])
        &&& from_op(port_group(arcs, op, port)[i], op)
        &&& port_group(arcs, op, port)[i].source == ArcSourceM::Local(ArcIdentifier { operator: op, index: port })
    } by {
        let g = port_group(arcs, op, port);
        assert(g.contains(g[i]));
        arcs.lemma_filter_contains_rev(gpred, g[i]);
        arcs.lemma_filter_pred(gpred, i);
    }
}

/// The entry of one output port for `generate_out_arcs_vec`.
fn out_port_entry<'a>(arcs: &'a Vec<DirectArc>, ops: &Vec<Operator>, op: i32, port: i32, Ghost(ports): Ghost<Seq<i32>>) -> (r: (&'a DirectArc, String))
    requires
        out_arcs_named(ops.deep_view(), op, arcs.deep_view()),
        ints_i32(ports).to_set() == ints_i32(out_ports(op, arcs.deep_view())).to_set(),
        ports.contains(port),
    ensures
        (r.0.deep_view(), r.1@) == port_entry(arcs.deep_view(), op, port),
{
    let ghost av = arcs.deep_view();
    let group = collect_port_group(arcs, op, port);
    proof {
        lemma_port_group_nonempty(av, op, port, ports);
        assert(group.deep_view().len() == group@.len());
    }
    let first: &'a DirectArc = group[0];
    proof {
        assert(first.deep_view() == group.deep_view()[0]);
        assert(first.deep_view() == port_group(av, op, port)[0]);
    }
    if group.len() > 1 {
        let name = generate_pair_arc_var(first);
        (first, name)
    } else {
        proof {
            assert(av.contains(first.deep_view()));
            let k = choose|k: int| 0 <= k < av.len() && av[k] == first.deep_view();
            assert(out_arc_var_ok(ops.deep_view(), av[k]));
        }
        let name = generate_out_arc_var(first, ops);
        (first, name)
    }
}

/// The output arcs of `op` with the variables that feed them.
///
/// Output ports that serve more than one arc are replaced by a single entry for the
/// shared port variable, so that every port appears once; the entries are ordered by port.
pub(crate) fn generate_out_arcs_vec<'a>(op: &i32, arcs: &'a Vec<DirectArc>, ops: &Vec<Operator>) -> (res: Vec<(&'a DirectArc, String)>)
    requires
        out_arcs_named(ops.deep_view(), *op, arcs.deep_view()),
    ensures
        res.deep_view() == spec_out_arcs_vec(*op, arcs.deep_view()),
{
    let ghost av = arcs.deep_view();
    let ports_all = collect_out_ports(*op, arcs);
    let ports = sort_dedup_i32(&ports_all);
    let ghost emap = |p: i32| port_entry(av, *op, p);
    let mut res: Vec<(&'a DirectArc, String)> = Vec::new();
    let m = ports.len();
    let mut j: usize = 0;
    assert(res.deep_view() =~= ports@.subrange(0, 0).map_values(emap));
    while j < m
        invariant
            j <= m,
            m == ports@.len(),
            av == arcs.deep_view(),
            out_arcs_named(ops.deep_view(), *op, av),
            ports@ == sorted_set_i32(out_ports(*op, av)),
            ints_i32(ports@).to_set() == ints_i32(out_ports(*op, av)).to_set(),
            emap == (|p: i32| port_entry(av, *op, p)),
            res.deep_view() == ports@.subrange(0, j as int).map_values(emap),
        decreases m - j,
    {
        let port = ports[j];
        assert(ports@.contains(port)) by { assert(ports@[j as int] == port); }
        let (first, name) = out_port_entry(arcs, ops, *op, port, Ghost(ports@));
        let ghost old_dv = res.deep_view();
        res.push((first, name));
        assert(res.deep_view() =~= old_dv.push(emap(port)));
        assert(ports@.subrange(0, (j + 1) as int) =~= ports@.subrange(0, j as int).push(port));
        assert(res.deep_view() =~= ports@.subrange(0, (j + 1) as int).map_values(emap));
        j = j + 1;
    }
    assert(ports@.subrange(0, m as int) =~= ports@);
    res
}


// ---------------------------------------------------------------------------
// Channels for the arcs

/// Whether an arc is not fed by an environment value.
fn filter_env_arc(arc: &DirectArc) -> (r: bool)
    ensures
        r == !is_env(arc.deep_view().source),
{
    match arc.source {
        ArcSource::Env(_) => false,
        _ => true,
    }
}

/// The arcs not fed by environment values, in order.
pub open spec fn non_env_arcs(arcs: Seq<DirectArcM>) -> Seq<DirectArcM> {
    arcs.filter(|a: DirectArcM| !is_env(a.source))
}

/// `let ( out , in ) = std :: sync :: mpsc :: channel ( ) ;`
pub open spec fn channel_stmt(out: Seq<char>, inp: Seq<char>) -> Seq<Seq<char>> {
    seq!["let"@, "("@, out, ","@, inp, ")"@, "="@, "std"@, "::"@, "sync"@, "::"@, "mpsc"@, "::"@,
        "channel"@, "("@, ")"@, ";"@]
}

/// `let out = DeadEndArc :: default ( ) ;`
pub open spec fn dead_end_stmt(out: Seq<char>) -> Seq<Seq<char>> {
    seq!["let"@, out, "="@, "DeadEndArc"@, "::"@, "default"@, "("@, ")"@, ";"@]
}

/// `a1 , a2 , ... ,`: each name followed by a comma.
pub open spec fn trailing_commas(names: Seq<Seq<char>>) -> Seq<Seq<char>> {
    concat(names.map_values(|n: Seq<char>| seq![n, ","@]))
}

/// `let var = DispatchQueue :: new ( vec ! [ a1 , a2 , ] ) ;`
pub open spec fn dispatch_stmt(var: Seq<char>, args: Seq<Seq<char>>) -> Seq<Seq<char>> {
    seq!["let"@, var, "="@, "DispatchQueue"@, "::"@, "new"@, "("@, "vec"@, "!"@, "["@]
        + trailing_commas(args) + seq!["]"@, ")"@, ";"@]
}

/// The sending end of a state arc: `{out_port}__state`.
pub open spec fn state_send_name(a: StateArcM) -> Seq<char> {
    out_var_name(source_op(a.source), source_index(a.source)) + "__state"@
}

/// The arcs whose target operator is part of the graph.
pub open spec fn normal_arcs(ops: Seq<OperatorM>, arcs: Seq<DirectArcM>) -> Seq<DirectArcM> {
    arcs.filter(|a: DirectArcM| !is_env(a.source) && op_registered(ops, a.target.operator))
}

/// The arcs whose target operator is not part of the graph.
pub open spec fn dead_arcs(ops: Seq<OperatorM>, arcs: Seq<DirectArcM>) -> Seq<DirectArcM> {
    arcs.filter(|a: DirectArcM| !is_env(a.source) && !op_registered(ops, a.target.operator))
}

/// The channel declarations for a compiled algorithm: one channel per arc between
/// operators, a dead end for every arc that leaves the graph, a channel per state
/// arc, and a dispatch queue for every output port that serves several arcs.
pub open spec fn spec_generate_arcs(d: OhuaDataM) -> Seq<Seq<char>> {
    let ops = d.graph.operators;
    let arcs = d.graph.arcs.direct;
    concat(normal_arcs(ops, arcs).map_values(|a: DirectArcM| arc_channel(a)))
    + concat(dead_arcs(ops, arcs).map_values(|a: DirectArcM| dead_end_stmt(spec_out_arc_var(a))))
    + concat(d.graph.arcs.state.map_values(|a: StateArcM| state_channel(a)))
    + concat(spec_port_pairs(arcs).map_values(|g: Seq<DirectArcM>| group_dispatch(g)))
}

/// The channel of an arc between two operators.
pub open spec fn arc_channel(a: DirectArcM) -> Seq<Seq<char>> {
    channel_stmt(spec_out_arc_var(a), in_var_name(a.target.operator, a.target.index))
}

/// The channel of a state arc.
pub open spec fn state_channel(a: StateArcM) -> Seq<Seq<char>> {
    channel_stmt(state_send_name(a), state_recv_name(a.target))
}

/// Every name that `generate_arcs` derives can be formed.
pub open spec fn arcs_named(d: OhuaDataM) -> bool {
    &&& local_arcs_named(d.graph.operators, d.graph.arcs.direct)
    &&& state_arcs_named(d.graph.operators, d.graph.arcs.state)
}

/// Whether an operator with this id is part of the graph.
pub(crate) fn op_exists(ops: &Vec<Operator>, id: i32) -> (r: bool)
    ensures
        r == op_registered(ops.deep_view(), id),
{
    let n = ops.len();
    let mut i: usize = 0;
    while i < n
        invariant
            i <= n,
            n == ops@.len(),
            forall|j: int| 0 <= j < i ==> ops.deep_view()[j].id != id,
        decreases n - i,
    {
        if ops[i].operatorId == id {
            assert(ops.deep_view()[i as int].id == id);
            return true;
        }
        i = i + 1;
    }
    false
}

fn channel_tokens(out: String, inp: String) -> (t: Tokens)
    ensures
        t@ == channel_stmt(out@, inp@),
{
    let mut t = Tokens::new();
    t.push("let"); t.push("("); t.push_string(out); t.push(","); t.push_string(inp);
    t.push(")"); t.push("="); t.push("std"); t.push("::"); t.push("sync"); t.push("::");
    t.push("mpsc"); t.push("::"); t.push("channel"); t.push("("); t.push(")"); t.push(";");
    assert(t@ =~= channel_stmt(out@, inp@));
    t
}

fn dead_end_tokens(out: String) -> (t: Tokens)
    ensures
        t@ == dead_end_stmt(out@),
{
    let mut t = Tokens::new();
    t.push("let"); t.push_string(out); t.push("="); t.push("DeadEndArc"); t.push("::");
    t.push("default"); t.push("("); t.push(")"); t.push(";");
    assert(t@ =~= dead_end_stmt(out@));
    t
}

/// The name of the sending end of a state arc.
fn generate_send_var_for_state_arc(arc: &StateArc, ops: &Vec<Operator>) -> (s: String)
    requires
        source_named(arc.deep_view().source),
        out_var_ok(ops.deep_view(), source_op(arc.deep_view().source), source_index(arc.deep_view().source)),
    ensures
        s@ == state_send_name(arc.deep_view()),
{
    let out_idx = get_out_index_from_source(&arc.source);
    let src_op = get_op_id(&arc.source);
    let mut out_port = generate_var_for_out_arc(src_op, out_idx, ops);
    out_port.append("__state");
    out_port
}

/// The name of the receiving end of the state arc of operator `op`.
pub(crate) fn generate_recv_var_for_state_arc(op: &i32) -> (s: String)
    ensures
        s@ == state_recv_name(*op),
{
    let mut s = String::from_str("sf_");
    s.append(i32_to_string(*op).as_str());
    s.append("_state");
    s
}

fn dispatch_tokens(var: String, args: &Vec<String>) -> (t: Tokens)
    ensures
        t@ == dispatch_stmt(var@, args.deep_view()),
{
    let ghost cm = |n: Seq<char>| seq![n, ","@];
    let mut t = Tokens::new();
    t.push("let"); t.push_string(var); t.push("="); t.push("DispatchQueue"); t.push("::");
    t.push("new"); t.push("("); t.push("vec"); t.push("!"); t.push("[");
    let ghost head = t@;
    let n = args.len();
    let mut i: usize = 0;
    assert(t@ =~= head + concat(args.deep_view().subrange(0, 0).map_values(cm)));
    while i < n
        invariant
            i <= n,
            n == args@.len(),
            cm == (|n: Seq<char>| seq![n, ","@]),
            t@ == head + concat(args.deep_view().subrange(0, i as int).map_values(cm)),
        decreases n - i,
    {
        t.push_string(args[i].clone());
        t.push(",");
        let ghost ms = args.deep_view().subrange(0, (i + 1) as int).map_values(cm);
        assert(ms =~= args.deep_view().subrange(0, i as int).map_values(cm).push(cm(args.deep_view()[i as int])));
        proof { lemma_concat_step(ms, i as int); }
        assert(ms.subrange(0, i as int) =~= args.deep_view().subrange(0, i as int).map_values(cm));
        assert(ms.subrange(0, (i + 1) as int) =~= ms);
        assert(t@ =~= head + concat(ms));
        i = i + 1;
    }
    assert(args.deep_view().subrange(0, n as int) =~= args.deep_view());
    t.push("]"); t.push(")"); t.push(";");
    assert(t@ =~= dispatch_stmt(var@, args.deep_view()));
    t
}


/// Every group of `spec_port_pairs` has at least two arcs, all local arcs of `arcs`
/// that leave the same port.
pub proof fn lemma_port_pairs_groups(arcs: Seq<DirectArcM>, k: int)
    requires
        0 <= k < spec_port_pairs(arcs).len(),
    ensures
        spec_port_pairs(arcs)[k].len() > 1,
        forall|i: int| 0 <= i < spec_port_pairs(arcs)[k].len() ==> {
            &&& arcs.contains(#[trigger] spec_port_pairs(arcs)[k][i])
            &&& spec_port_pairs(arcs)[k][i].source is Local
            &&& spec_port_pairs(arcs)[k][i].source == spec_port_pairs(arcs)[k][0].source
        },
{
    let parts = sorted_set_i32(local_source_ops(arcs)).map_values(|o: i32| pairs_of_op(arcs, o));
    lemma_concat_index(parts, k);
    let (j, m) = choose|j: int, m: int| 0 <= j < parts.len() && 0 <= m < parts[j].len() && concat(parts)[k] == parts[j][m];
    let o = sorted_set_i32(local_source_ops(arcs))[j];
    assert(parts[j] == pairs_of_op(arcs, o));
    let sp = shared_ports(arcs, o);
    let p = sp[m];
    let spred = |p: i32| port_group(arcs, o, p).len() > 1;
    sorted_set_i32(out_ports(o, arcs)).lemma_filter_pred(spred, m);
    let g = port_group(arcs, o, p);
    assert(spec_port_pairs(arcs)[k] == g);
    let gpred = |a: DirectArcM| a.source == ArcSourceM::Local(ArcIdentifier { operator: o, index: p });
    assert forall|i: int| 0 <= i < g.len() implies {
        &&& arcs.contains(#[trigger] g[i])
        &&& g[i].source is Local
        &&& g[i].source == g[0].source
    } by {
        assert(g.contains(g[i]));
        arcs.lemma_filter_contains_rev(gpred, g[i]);
        arcs.lemma_filter_pred(gpred, i);
        arcs.lemma_filter_pred(gpred, 0);
    }
}


fn arc_channels(compiled: &OhuaData) -> (t: Tokens)
    requires
        arcs_named(compiled.deep_view()),
    ensures
        t@ == concat(normal_arcs(compiled.deep_view().graph.operators, compiled.deep_view().graph.arcs.direct)
            .map_values(|a: DirectArcM| arc_channel(a))),
{
    let ghost d = compiled.deep_view();
    let ghost ops = d.graph.operators;
    let ghost av = d.graph.arcs.direct;
    let ghost pred = |a: DirectArcM| !is_env(a.source) && op_registered(ops, a.target.operator);
    let ghost f = |a: DirectArcM| arc_channel(a);
    let arcs = &compiled.graph.arcs.direct;
    let mut t = Tokens::new();
    let n = arcs.len();
    let mut i: usize = 0;
    assert(t@ =~= concat(av.subrange(0, 0).filter(pred).map_values(f)));
    while i < n
        invariant
            i <= n,
            n == arcs@.len(),
            d == compiled.deep_view(),
            ops == d.graph.operators,
            av == d.graph.arcs.direct,
            av == arcs.deep_view(),
            arcs_named(d),
            pred == (|a: DirectArcM| !is_env(a.source) && op_registered(ops, a.target.operator)),
            f == (|a: DirectArcM| arc_channel(a)),
            t@ == concat(av.subrange(0, i as int).filter(pred).map_values(f)),
        decreases n - i,
    {
        let arc = &arcs[i];
        proof { lemma_filter_step(av, pred, i as int); }
        assert(arc.deep_view() == av[i as int]);
        if filter_env_arc(arc) && op_exists(&compiled.graph.operators, arc.target.operator) {
            let out = generate_out_arc_var(arc, &compiled.graph.operators);
            let inp = generate_var_for_in_arc(&arc.target.operator, &arc.target.index);
            let c = channel_tokens(out, inp);
            t.extend(&c);
            proof { lemma_concat_map_push(av.subrange(0, i as int).filter(pred), av[i as int], f); }
        }
        i = i + 1;
    }
    assert(av.subrange(0, n as int) =~= av);
    t
}

fn dead_end_arcs(compiled: &OhuaData) -> (t: Tokens)
    requires
        arcs_named(compiled.deep_view()),
    ensures
        t@ == concat(dead_arcs(compiled.deep_view().graph.operators, compiled.deep_view().graph.arcs.direct)
            .map_values(|a: DirectArcM| dead_end_stmt(spec_out_arc_var(a)))),
{
    let ghost d = compiled.deep_view();
    let ghost ops = d.graph.operators;
    let ghost av = d.graph.arcs.direct;
    let ghost pred = |a: DirectArcM| !is_env(a.source) && !op_registered(ops, a.target.operator);
    let ghost f = |a: DirectArcM| dead_end_stmt(spec_out_arc_var(a));
    let arcs = &compiled.graph.arcs.direct;
    let mut t = Tokens::new();
    let n = arcs.len();
    let mut i: usize = 0;
    assert(t@ =~= concat(av.subrange(0, 0).filter(pred).map_values(f)));
    while i < n
        invariant
            i <= n,
            n == arcs@.len(),
            d == compiled.deep_view(),
            ops == d.graph.operators,
            av == d.graph.arcs.direct,
            av == arcs.deep_view(),
            arcs_named(d),
            pred == (|a: DirectArcM| !is_env(a.source) && !op_registered(ops, a.target.operator)),
            f == (|a: DirectArcM| dead_end_stmt(spec_out_arc_var(a))),
            t@ == concat(av.subrange(0, i as int).filter(pred).map_values(f)),
        decreases n - i,
    {
        let arc = &arcs[i];
        proof { lemma_filter_step(av, pred, i as int); }
        assert(arc.deep_view() == av[i as int]);
        if filter_env_arc(arc) && !op_exists(&compiled.graph.operators, arc.target.operator) {
            let out = generate_out_arc_var(arc, &compiled.graph.operators);
            let c = dead_end_tokens(out);
            t.extend(&c);
            proof { lemma_concat_map_push(av.subrange(0, i as int).filter(pred), av[i as int], f); }
        }
        i = i + 1;
    }
    assert(av.subrange(0, n as int) =~= av);
    t
}

/// The sending end of a state arc can be named.
pub open spec fn state_arc_named(ops: Seq<OperatorM>, a: StateArcM) -> bool {
    &&& source_named(a.source)
    &&& out_var_ok(ops, source_op(a.source), source_index(a.source))
}

/// The channel of one state arc.
fn state_channel_tokens(arc: &StateArc, ops: &Vec<Operator>) -> (t: Tokens)
    requires
        state_arc_named(ops.deep_view(), arc.deep_view()),
    ensures
        t@ == state_channel(arc.deep_view()),
{
    let out = generate_send_var_for_state_arc(arc, ops);
    let inp = generate_recv_var_for_state_arc(&arc.target);
    channel_tokens(out, inp)
}

/// The sending end of every state arc can be named.
#[verifier::opaque]
pub open spec fn state_arcs_named(ops: Seq<OperatorM>, states: Seq<StateArcM>) -> bool {
    forall|i: int| 0 <= i < states.len() ==> state_arc_named(ops, #[trigger] states[i])
}

fn state_channels(states: &Vec<StateArc>, ops: &Vec<Operator>) -> (t: Tokens)
    requires
        state_arcs_named(ops.deep_view(), states.deep_view()),
    ensures
        t@ == concat(states.deep_view().map_values(|a: StateArcM| state_channel(a))),
{
    let ghost sv = states.deep_view();
    let ghost ov = ops.deep_view();
    let ghost f = |a: StateArcM| state_channel(a);
    let mut t = Tokens::new();
    let n = states.len();
    let mut i: usize = 0;
    assert(t@ =~= concat(sv.subrange(0, 0).map_values(f)));
    while i < n
        invariant
            i <= n,
            n == sv.len(),
            sv == states.deep_view(),
            ov == ops.deep_view(),
            state_arcs_named(ov, sv),
            f == (|a: StateArcM| state_channel(a)),
            t@ == concat(sv.subrange(0, i as int).map_values(f)),
        decreases n - i,
    {
        let arc = &states[i];
        let ghost a = sv[i as int];
        assert(arc.deep_view() == a);
        assert(state_arc_named(ov, a)) by { reveal(state_arcs_named); }
        let c = state_channel_tokens(arc, ops);
        t.extend(&c);
        proof {
            lemma_concat_map_push(sv.subrange(0, i as int), a, f);
            assert(sv.subrange(0, (i + 1) as int) =~= sv.subrange(0, i as int).push(a));
        }
        i = i + 1;
    }
    assert(sv.subrange(0, n as int) =~= sv);
    t
}

/// The variables of the arcs of one shared port.
fn group_arc_vars(group: &Vec<&DirectArc>, ops: &Vec<Operator>) -> (r: Vec<String>)
    requires
        forall|i: int| 0 <= i < group@.len() ==> out_arc_var_ok(ops.deep_view(), #[trigger] group.deep_view()[i]),
    ensures
        r.deep_view() == group.deep_view().map_values(|a: DirectArcM| spec_out_arc_var(a)),
{
    let mut r: Vec<String> = Vec::new();
    let n = group.len();
    let mut i: usize = 0;
    while i < n
        invariant
            i <= n,
            n == group@.len(),
            forall|i: int| 0 <= i < group@.len() ==> out_arc_var_ok(ops.deep_view(), #[trigger] group.deep_view()[i]),
            r.deep_view() == group.deep_view().subrange(0, i as int).map_values(|a: DirectArcM| spec_out_arc_var(a)),
        decreases n - i,
    {
        assert(group.deep_view()[i as int] == group[i as int].deep_view());
        let v = generate_out_arc_var(group[i], ops);
        let ghost old_dv = r.deep_view();
        r.push(v);
        assert(r.deep_view() =~= old_dv.push(v@));
        assert(r.deep_view() =~= group.deep_view().subrange(0, (i + 1) as int).map_values(|a: DirectArcM| spec_out_arc_var(a)));
        i = i + 1;
    }
    assert(group.deep_view().subrange(0, n as int) =~= group.deep_view());
    r
}

/// Every local arc can be named.
pub open spec fn local_arcs_named(ops: Seq<OperatorM>, arcs: Seq<DirectArcM>) -> bool {
    forall|i: int| 0 <= i < arcs.len() && !is_env(arcs[i].source) ==> out_arc_var_ok(ops, #[trigger] arcs[i])
}

/// The dispatch statement of a group of arcs that share a port.
pub open spec fn group_dispatch(g: Seq<DirectArcM>) -> Seq<Seq<char>> {
    dispatch_stmt(out_var_name(source_op(g[0].source), source_index(g[0].source)),
        g.map_values(|a: DirectArcM| spec_out_arc_var(a)))
}

fn dispatch_queues(arcs: &Vec<DirectArc>, ops: &Vec<Operator>) -> (t: Tokens)
    requires
        local_arcs_named(ops.deep_view(), arcs.deep_view()),
    ensures
        t@ == concat(spec_port_pairs(arcs.deep_view()).map_values(|g: Seq<DirectArcM>| group_dispatch(g))),
{
    let ghost av = arcs.deep_view();
    let ghost f = |g: Seq<DirectArcM>| group_dispatch(g);
    let pairs = find_out_port_pairs(arcs);
    let ghost pv = pairs.deep_view();
    let mut t = Tokens::new();
    let n = pairs.len();
    let mut i: usize = 0;
    assert(t@ =~= concat(pv.subrange(0, 0).map_values(f)));
    while i < n
        invariant
            i <= n,
            n == pairs@.len(),
            av == arcs.deep_view(),
            pv == pairs.deep_view(),
            pv == spec_port_pairs(av),
            local_arcs_named(ops.deep_view(), av),
            f == (|g: Seq<DirectArcM>| group_dispatch(g)),
            t@ == concat(pv.subrange(0, i as int).map_values(f)),
        decreases n - i,
    {
        let group = &pairs[i];
        proof {
            lemma_port_pairs_groups(av, i as int);
            assert(group.deep_view() == pv[i as int]);
            assert forall|j: int| 0 <= j < group@.len() implies out_arc_var_ok(ops.deep_view(), #[trigger] group.deep_view()[j]) by {
                assert(av.contains(pv[i as int][j]));
                let k = choose|k: int| 0 <= k < av.len() && av[k] == pv[i as int][j];
                assert(!is_env(av[k].source));
            }
            assert(group.deep_view()[0] == group[0].deep_view());
        }
        let var = generate_pair_arc_var(group[0]);
        let args = group_arc_vars(group, ops);
        let c = dispatch_tokens(var, &args);
        t.extend(&c);
        proof {
            lemma_concat_map_push(pv.subrange(0, i as int), pv[i as int], f);
            assert(pv.subrange(0, (i + 1) as int) =~= pv.subrange(0, i as int).push(pv[i as int]));
        }
        i = i + 1;
    }
    assert(pv.subrange(0, n as int) =~= pv);
    t
}

/// Generates the declarations of all channels of a compiled algorithm.
pub fn generate_arcs(compiled: &OhuaData) -> (t: Tokens)
    requires
        arcs_named(compiled.deep_view()),
    ensures
        t@ == spec_generate_arcs(compiled.deep_view()),
{
    let ghost d = compiled.deep_view();
    assert(d.graph.arcs.state == compiled.graph.arcs.state.deep_view());
    assert(d.graph.operators == compiled.graph.operators.deep_view());
    assert(d.graph.arcs.direct == compiled.graph.arcs.direct.deep_view());
    let mut t = arc_channels(compiled);
    let ghost p1 = t@;
    let e = dead_end_arcs(compiled);
    t.extend(&e);
    let ghost p2 = e@;
    let s = state_channels(&compiled.graph.arcs.state, &compiled.graph.operators);
    t.extend(&s);
    let ghost p3 = s@;
    let q = dispatch_queues(&compiled.graph.arcs.direct, &compiled.graph.operators);
    t.extend(&q);
    let ghost p4 = q@;
    assert(t@ == p1 + p2 + p3 + p4);
    t
}

// ---------------------------------------------------------------------------
// The whole algorithm

/// `let ( result_snd , result_rcv ) = std :: sync :: mpsc :: channel ( ) ;`
pub open spec fn result_channel() -> Seq<Seq<char>> {
    channel_stmt("result_snd"@, "result_rcv"@)
}

/// `run_tasks ( tasks ) ; result_rcv . recv ( ) . unwrap ( )`
pub open spec fn run_and_return() -> Seq<Seq<char>> {
    seq!["run_tasks"@, "("@, "tasks"@, ")"@, ";"@, "result_rcv"@, "."@, "recv"@, "("@, ")"@, "."@,
        "unwrap"@, "("@, ")"@]
}

/// The graph after all rewrites: dead arcs turned into direct arcs, environment
/// arguments captured, and the `ctrl`, `nth` and `recurFun` operators specialised.
pub open spec fn rewritten(d: OhuaDataM) -> OhuaDataM {
    spec_generate_recur(spec_generate_nths(spec_generate_ctrls(spec_handle_environment_arcs(spec_process_dead_ends(d)))))
}

/// Every rewrite and every generator can run on the graph and its intermediate forms.
pub open spec fn code_ok(d: OhuaDataM, nargs: int) -> bool {
    let d1 = spec_process_dead_ends(d);
    let d2 = spec_handle_environment_arcs(d1);
    let d3 = spec_generate_ctrls(d2);
    let d4 = spec_generate_nths(d3);
    let d5 = spec_generate_recur(d4);
    &&& env_ids_fit(d1)
    &&& ctrls_ok(d2)
    &&& nths_ok(d3)
    &&& recurs_ok(d4)
    &&& arcs_named(d5)
    &&& sfns_ok(d5, nargs)
    &&& ops_ok(d5)
}

/// The code of a compiled algorithm: a block that imports the runtime and the
/// functions, defines the generated operators, creates the channels and the tasks,
/// runs the tasks and returns the result.
pub open spec fn spec_generate_code(d: OhuaDataM, args: Seq<Seq<Seq<char>>>) -> Seq<Seq<char>> {
    let d1 = spec_process_dead_ends(d);
    let d2 = spec_handle_environment_arcs(d1);
    let d3 = spec_generate_ctrls(d2);
    let d4 = spec_generate_nths(d3);
    let d5 = spec_generate_recur(d4);
    code_block(d5, args, spec_ctrl_code(d2), spec_nth_code(d3), spec_recur_code(d4))
}

/// The block of generated code around the operators generated for the graph `d`.
pub open spec fn code_block(
    d: OhuaDataM,
    args: Seq<Seq<Seq<char>>>,
    ctrl: Seq<Seq<char>>,
    nth: Seq<Seq<char>>,
    recur: Seq<Seq<char>>,
) -> Seq<Seq<char>> {
    seq!["{"@]
        + spec_generate_imports(d.graph.operators, d.graph.arcs.direct)
        + ctrl
        + nth
        + recur
        + spec_generate_arcs(d)
        + result_channel()
        + spec_generate_sfns(d, args)
        + spec_generate_ops(d)
        + run_and_return()
        + seq!["}"@]
}

/// Assembles the block of generated code for a rewritten graph.
#[verifier::rlimit(40)]
fn emit_code(compiled_algo: &OhuaData, algo_call_args: &Vec<Tokens>, ctrl_code: &Tokens, nth_code: &Tokens, recur_code: &Tokens) -> (t: Tokens)
    requires
        arcs_named(compiled_algo.deep_view()),
        sfns_ok(compiled_algo.deep_view(), algo_call_args@.len() as int),
        ops_ok(compiled_algo.deep_view()),
    ensures
        t@ == code_block(compiled_algo.deep_view(), algo_call_args.deep_view(), ctrl_code@, nth_code@, recur_code@),
{
    assert(compiled_algo.graph.operators.deep_view() == compiled_algo.deep_view().graph.operators);
    assert(compiled_algo.graph.arcs.direct.deep_view() == compiled_algo.deep_view().graph.arcs.direct);
    let header_code = generate_imports(&compiled_algo.graph.operators, &compiled_algo.graph.arcs.direct);
    let arc_code = generate_arcs(compiled_algo);
    let sf_code = generate_sfns(compiled_algo, algo_call_args);
    let op_code = generate_ops(compiled_algo);
    let mut t = Tokens::new();
    t.push("{");
    t.extend(&header_code);
    t.extend(ctrl_code);
    t.extend(nth_code);
    t.extend(recur_code);
    t.extend(&arc_code);
    let result = channel_tokens(String::from_str("result_snd"), String::from_str("result_rcv"));
    proof {
        reveal_strlit("result_snd");
        reveal_strlit("result_rcv");
    }
    t.extend(&result);
    t.extend(&sf_code);
    t.extend(&op_code);
    t.push("run_tasks"); t.push("("); t.push("tasks"); t.push(")"); t.push(";");
    t.push("result_rcv"); t.push("."); t.push("recv"); t.push("("); t.push(")"); t.push(".");
    t.push("unwrap"); t.push("("); t.push(")");
    t.push("}");
    assert(t@ =~= code_block(compiled_algo.deep_view(), algo_call_args.deep_view(), ctrl_code@, nth_code@, recur_code@));
    t
}

/// Generates the code of a compiled algorithm, called with `algo_call_args`, and
/// leaves the graph rewritten.
pub fn generate_code(compiled_algo: &mut OhuaData, algo_call_args: &Vec<Tokens>) -> (t: Tokens)
    requires
        code_ok(old(compiled_algo).deep_view(), algo_call_args@.len() as int),
    ensures
        t@ == spec_generate_code(old(compiled_algo).deep_view(), algo_call_args.deep_view()),
        final(compiled_algo).deep_view() == rewritten(old(compiled_algo).deep_view()),
{
    let ghost d0 = compiled_algo.deep_view();
    let ghost d1 = spec_process_dead_ends(d0);
    let ghost d2 = spec_handle_environment_arcs(d1);
    let ghost d3 = spec_generate_ctrls(d2);
    let ghost d4 = spec_generate_nths(d3);
    let ghost d5 = spec_generate_recur(d4);
    run_backend_optimizations(compiled_algo);
    handle_environment_arcs(compiled_algo);
    let ctrl_code = generate_ctrls(compiled_algo);
    let nth_code = generate_nths(compiled_algo);
    let recur_code = generate_recur::generate(compiled_algo);
    assert(compiled_algo.deep_view() == d5);
    let t = emit_code(compiled_algo, algo_call_args, &ctrl_code, &nth_code, &recur_code);
    assert(t@ == code_block(d5, algo_call_args.deep_view(), spec_ctrl_code(d2), spec_nth_code(d3), spec_recur_code(d4)));
    t
}

/// Generates the code of a compiled algorithm if the graph and its rewritten forms
/// meet the conditions of every step, and `None` otherwise; then the graph is
/// left as far as the rewrites got.
pub fn generate_code_checked(compiled_algo: &mut OhuaData, algo_call_args: &Vec<Tokens>) -> (r: Option<Tokens>)
    ensures
        r is Some <==> code_ok(old(compiled_algo).deep_view(), algo_call_args@.len() as int),
        r is Some ==> r->0@ == spec_generate_code(old(compiled_algo).deep_view(), algo_call_args.deep_view()),
        r is Some ==> final(compiled_algo).deep_view() == rewritten(old(compiled_algo).deep_view()),
{
    let ghost d0 = compiled_algo.deep_view();
    let ghost d1 = spec_process_dead_ends(d0);
    let ghost d2 = spec_handle_environment_arcs(d1);
    let ghost d3 = spec_generate_ctrls(d2);
    let ghost d4 = spec_generate_nths(d3);
    let ghost d5 = spec_generate_recur(d4);
    let n = algo_call_args.len();
    run_backend_optimizations(compiled_algo);
    if !check_env_ids_fit(compiled_algo) {
        return None;
    }
    handle_environment_arcs(compiled_algo);
    if !check_ctrls_ok(compiled_algo) {
        return None;
    }
    let ctrl_code = generate_ctrls(compiled_algo);
    if !check_nths_ok(compiled_algo) {
        return None;
    }
    let nth_code = generate_nths(compiled_algo);
    if !check_recurs_ok(compiled_algo) {
        return None;
    }
    let recur_code = generate_recur::generate(compiled_algo);
    if !check_arcs_named(compiled_algo) || !check_sfns_ok(compiled_algo, n) || !check_ops_ok(compiled_algo) {
        return None;
    }
    assert(compiled_algo.deep_view() == d5);
    let t = emit_code(compiled_algo, algo_call_args, &ctrl_code, &nth_code, &recur_code);
    assert(t@ == code_block(d5, algo_call_args.deep_view(), spec_ctrl_code(d2), spec_nth_code(d3), spec_recur_code(d4)));
    Some(t)
}

// ---------------------------------------------------------------------------
// Uniqueness of the generated names

/// No character of the text is an underscore.
pub open spec fn no_underscore(d: Seq<char>) -> bool {
    forall|k: int| 0 <= k < d.len() ==> #[trigger] d[k] != '_'
}

/// Two arc names built from underscore-free parts agree only where every part agrees.
proof fn lemma_arc_name_parts(
    d1: Seq<char>, d2: Seq<char>, d3: Seq<char>, d4: Seq<char>,
    e1: Seq<char>, e2: Seq<char>, e3: Seq<char>, e4: Seq<char>,
)
    requires
        no_underscore(d1), no_underscore(d2), no_underscore(d3),
        no_underscore(e1), no_underscore(e2), no_underscore(e3),
        ("sf_"@ + d1 + "_out_"@ + d2) + "__"@ + ("sf_"@ + d3 + "_in_"@ + d4)
            == ("sf_"@ + e1 + "_out_"@ + e2) + "__"@ + ("sf_"@ + e3 + "_in_"@ + e4),
    ensures
        d1 == e1, d2 == e2, d3 == e3, d4 == e4,
{
    reveal_strlit("sf_");
    reveal_strlit("_out_");
    reveal_strlit("__");
    reveal_strlit("_in_");
    let sf = "sf_"@;
    let out = "_out_"@;
    let sep = "__"@;
    let inn = "_in_"@;
    let r1a = out + d2 + sep + sf + d3 + inn + d4;
    let r1b = out + e2 + sep + sf + e3 + inn + e4;
    assert(sf + d1 + r1a =~= sf + e1 + r1b) by {
        assert(sf + d1 + r1a =~= (sf + d1 + out + d2) + sep + (sf + d3 + inn + d4));
        assert(sf + e1 + r1b =~= (sf + e1 + out + e2) + sep + (sf + e3 + inn + e4));
    }
    lemma_split_at_underscore(sf, d1, r1a, e1, r1b);
    let r2a = sep + sf + d3 + inn + d4;
    let r2b = sep + sf + e3 + inn + e4;
    assert(out + d2 + r2a =~= out + e2 + r2b) by {
        assert(r1a =~= out + d2 + r2a);
        assert(r1b =~= out + e2 + r2b);
    }
    lemma_split_at_underscore(out, d2, r2a, e2, r2b);
    let r3a = inn + d4;
    let r3b = inn + e4;
    assert((sep + sf) + d3 + r3a =~= (sep + sf) + e3 + r3b) by {
        assert(r2a =~= (sep + sf) + d3 + r3a);
        assert(r2b =~= (sep + sf) + e3 + r3b);
    }
    lemma_split_at_underscore(sep + sf, d3, r3a, e3, r3b);
    assert(d4 =~= r3a.subrange(inn.len() as int, r3a.len() as int));
    assert(e4 =~= r3b.subrange(inn.len() as int, r3b.len() as int));
}

/// An input port can have one incoming arc only, but an output port may serve
/// several arcs; the name of an arc's sending end is made of both ports, so the
/// name determines the source port and the target port of the arc: different
/// arcs get different names.
pub proof fn lemma_arc_var_names_unique(a: DirectArcM, b: DirectArcM)
    requires
        spec_out_arc_var(a) == spec_out_arc_var(b),
    ensures
        source_op(a.source) == source_op(b.source),
        source_index(a.source) == source_index(b.source),
        a.target == b.target,
{
    lemma_int_decimal_chars(source_op(a.source) as int);
    lemma_int_decimal_chars(source_index(a.source) as int);
    lemma_int_decimal_chars(a.target.operator as int);
    lemma_int_decimal_chars(source_op(b.source) as int);
    lemma_int_decimal_chars(source_index(b.source) as int);
    lemma_int_decimal_chars(b.target.operator as int);
    lemma_arc_name_parts(
        int_decimal(source_op(a.source) as int), int_decimal(source_index(a.source) as int),
        int_decimal(a.target.operator as int), int_decimal(a.target.index as int),
        int_decimal(source_op(b.source) as int), int_decimal(source_index(b.source) as int),
        int_decimal(b.target.operator as int), int_decimal(b.target.index as int),
    );
    lemma_int_decimal_injective(source_op(a.source) as int, source_op(b.source) as int);
    lemma_int_decimal_injective(source_index(a.source) as int, source_index(b.source) as int);
    lemma_int_decimal_injective(a.target.operator as int, b.target.operator as int);
    lemma_int_decimal_injective(a.target.index as int, b.target.index as int);
}

} // verus!
