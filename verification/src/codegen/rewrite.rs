//! Rewrites of the graph that prepare it for code generation: environment
//! arguments captured in `id` operators, and the `ctrl`, `nth` and `recurFun`
//! operators specialised to their arities.
#![allow(non_snake_case)]

use vstd::prelude::*;
use crate::codegen::ohua_types::{ArcIdentifier, ArcSource, ArcSourceM, ArcsM, DFGraphM, DirectArc, DirectArcM, Envs, EnvsM, NodeType, OhuaData, OhuaDataM, Operator, OperatorM, OperatorType, OperatorTypeM};
use crate::codegen::typedgen::{find_op, find_op_pos, get_in_arcs, op_exists, get_num_inputs, is_runtime_op, op_registered, runtime_namespace, spec_in_arcs};
use crate::codegen::tasks::{in_port_group, in_ports};
use crate::codegen::lang::{ctrl_fun_name, ctrl_operator, generate_ctrl_operator, generate_nth, indexed_name, nth_fun_name, nth_operator};
use crate::order::{sort_dedup_triples, sorted_unique, triple_lt};
use crate::seqs::{concat, ints_i32, ints_usize, strictly_sorted, lemma_concat_map_push, lemma_filter_step, lemma_sorted_set_i32_props, sort_dedup_i32, sort_dedup_usize, sorted_set_i32, sorted_set_usize};
use crate::text::{i32_to_string, string_is, Tokens};

verus! {

// ---------------------------------------------------------------------------
// Environment arguments

/// The arc carries a reference to an environment argument.
pub open spec fn is_env_ref(a: DirectArcM) -> bool {
    a.source matches ArcSourceM::Env(EnvsM::EnvRefLit(_))
}

/// The environment argument an arc refers to.
pub open spec fn env_ref(a: DirectArcM) -> i32 {
    match a.source {
        ArcSourceM::Env(EnvsM::EnvRefLit(i)) => i,
        _ => 0,
    }
}

/// The environment arguments that arcs refer to, in the order of the arcs.
pub open spec fn env_refs(arcs: Seq<DirectArcM>) -> Seq<i32> {
    arcs.filter(|a: DirectArcM| is_env_ref(a)).map_values(|a: DirectArcM| env_ref(a))
}

/// The environment arguments that arcs refer to, in increasing order, without duplicates.
pub open spec fn env_ids(arcs: Seq<DirectArcM>) -> Seq<i32> {
    sorted_set_i32(env_refs(arcs))
}

/// The ids of the operators.
pub open spec fn op_ids(ops: Seq<OperatorM>) -> Seq<int> {
    ops.map_values(|o: OperatorM| o.id as int)
}

/// One more than the largest operator id, `1` for a graph without operators: the
/// base of the ids of new operators.
pub open spec fn id_base(ops: Seq<OperatorM>) -> int {
    op_ids(ops).max() + 1
}

/// The `id` operator from the runtime, with this id.
pub open spec fn id_operator(id: int) -> OperatorM {
    OperatorM {
        id: id as i32,
        ty: OperatorTypeM { namespace: runtime_namespace(), name: "id"@ },
        node: NodeType::FunctionNode,
    }
}

/// The arc that hands environment argument `i` to its `id` operator.
pub open spec fn env_capture_arc(base: int, i: i32) -> DirectArcM {
    DirectArcM {
        target: ArcIdentifier { operator: (base + i) as i32, index: 0 },
        source: ArcSourceM::Env(EnvsM::EnvRefLit(i)),
    }
}

/// An arc from environment argument `i` now leaves output 0 of its `id` operator.
pub open spec fn reroute_env(a: DirectArcM, base: int) -> DirectArcM {
    match a.source {
        ArcSourceM::Env(EnvsM::EnvRefLit(i)) => DirectArcM {
            target: a.target,
            source: ArcSourceM::Local(ArcIdentifier { operator: (base + i) as i32, index: 0 }),
        },
        _ => a,
    }
}

/// The graph in which every environment argument is captured in an `id` operator:
/// one new operator per argument, with id `id_base + i`, appended in increasing
/// order of the arguments; every arc that read the argument now reads the
/// operator's output; and one arc per argument feeds it into its operator.
#[verifier::opaque]
pub open spec fn spec_handle_environment_arcs(d: OhuaDataM) -> OhuaDataM {
    let base = id_base(d.graph.operators);
    let ids = env_ids(d.graph.arcs.direct);
    OhuaDataM {
        graph: DFGraphM {
            operators: d.graph.operators + ids.map_values(|i: i32| id_operator(base + i)),
            arcs: ArcsM {
                direct: d.graph.arcs.direct.map_values(|a: DirectArcM| reroute_env(a, base))
                    + ids.map_values(|i: i32| env_capture_arc(base, i)),
                compound: d.graph.arcs.compound,
                state: d.graph.arcs.state,
                dead: d.graph.arcs.dead,
            },
            return_arc: d.graph.return_arc,
            input_targets: d.graph.input_targets,
        },
        main_arity: d.main_arity,
        sf_dependencies: d.sf_dependencies,
    }
}

/// The ids of the new `id` operators, and their base, fit in an `i32`.
pub open spec fn env_ids_fit(d: OhuaDataM) -> bool {
    &&& id_base(d.graph.operators) <= i32::MAX
    &&&     forall|i: int| #[trigger] ints_i32(env_refs(d.graph.arcs.direct)).contains(i)
        ==> i32::MIN <= id_base(d.graph.operators) + i <= i32::MAX
}

/// The largest operator id, `0` for no operators.
pub(crate) fn max_op_id(ops: &Vec<Operator>) -> (m: i32)
    ensures
        m as int == op_ids(ops.deep_view()).max(),
{
    let ghost s = op_ids(ops.deep_view());
    let n = ops.len();
    if n == 0 {
        return 0;
    }
    let mut m: i32 = ops[0].operatorId;
    assert(ops.deep_view()[0].id == m);
    assert(s[0] == m);
    let mut i: usize = 1;
    while i < n
        invariant
            1 <= i <= n,
            n == s.len(),
            s == op_ids(ops.deep_view()),
            exists|k: int| 0 <= k < i && s[k] == m,
            forall|k: int| 0 <= k < i ==> s[k] <= m,
        decreases n - i,
    {
        assert(ops.deep_view()[i as int].id == ops@[i as int].operatorId);
        if ops[i].operatorId > m {
            m = ops[i].operatorId;
            assert(s[i as int] == m);
        }
        i = i + 1;
    }
    proof {
        s.max_ensures();
        let k = choose|k: int| 0 <= k < n && s[k] == m;
        assert(s.contains(m as int));
        assert(m <= s.max());
        let j = choose|j: int| 0 <= j < s.len() && s[j] == s.max();
        assert(s[j] <= m);
    }
    m
}

/// Captures the environment arguments in `id` operators, so that an argument used
/// several times is cloned where the arcs of its operator need it, as for every
/// other local arc, and nowhere else.
pub fn handle_environment_arcs(compiled_algo: &mut OhuaData)
    requires
        env_ids_fit(old(compiled_algo).deep_view()),
    ensures
        final(compiled_algo).deep_view() == spec_handle_environment_arcs(old(compiled_algo).deep_view()),
{
    proof { reveal(spec_handle_environment_arcs); }
    let ghost d = compiled_algo.deep_view();
    let ghost av = d.graph.arcs.direct;
    let ghost ep = |a: DirectArcM| is_env_ref(a);
    let ghost ef = |a: DirectArcM| env_ref(a);
    let mut refs: Vec<i32> = Vec::new();
    let n = compiled_algo.graph.arcs.direct.len();
    let mut k: usize = 0;
    while k < n
        invariant
            k <= n,
            n == av.len(),
            av == compiled_algo.graph.arcs.direct.deep_view(),
            ep == (|a: DirectArcM| is_env_ref(a)),
            ef == (|a: DirectArcM| env_ref(a)),
            refs@ == av.subrange(0, k as int).filter(ep).map_values(ef),
        decreases n - k,
    {
        proof { lemma_filter_step(av, ep, k as int); }
        assert(compiled_algo.graph.arcs.direct@[k as int].deep_view() == av[k as int]);
        match &compiled_algo.graph.arcs.direct[k].source {
            ArcSource::Env(Envs::EnvRefLit { content }) => {
                refs.push(*content);
                assert(av.subrange(0, k as int).filter(ep).push(av[k as int]).map_values(ef)
                    =~= av.subrange(0, k as int).filter(ep).map_values(ef).push(ef(av[k as int])));
            },
            _ => {},
        }
        k = k + 1;
    }
    assert(av.subrange(0, n as int) =~= av);
    let ids = sort_dedup_i32(&refs);
    let ghost iv = ids@;
    assert(iv == env_ids(av));

    let max_id = max_op_id(&compiled_algo.graph.operators);
    let ghost base = id_base(d.graph.operators);
    let new_op_id_base: i32 = max_id + 1;
    assert(new_op_id_base == base);

    // Reroute every arc that reads an environment argument.
    let ghost rf = |a: DirectArcM| reroute_env(a, base);
    let mut k: usize = 0;
    while k < n
        invariant
            k <= n,
            n == av.len(),
            new_op_id_base == base,
            rf == (|a: DirectArcM| reroute_env(a, base)),
            compiled_algo.graph.arcs.direct@.len() == n,
            forall|j: int| 0 <= j < k ==> #[trigger] compiled_algo.graph.arcs.direct.deep_view()[j] == rf(av[j]),
            forall|j: int| k <= j < n ==> #[trigger] compiled_algo.graph.arcs.direct.deep_view()[j] == av[j],
            forall|i: int| ints_i32(refs@).contains(i) ==> i32::MIN <= base + i <= i32::MAX,
            refs@ == av.filter(ep).map_values(ef),
            ep == (|a: DirectArcM| is_env_ref(a)),
            ef == (|a: DirectArcM| env_ref(a)),
            compiled_algo.graph.operators.deep_view() == d.graph.operators,
            compiled_algo.graph.arcs.compound.deep_view() == d.graph.arcs.compound,
            compiled_algo.graph.arcs.state.deep_view() == d.graph.arcs.state,
            compiled_algo.graph.arcs.dead.deep_view() == d.graph.arcs.dead,
            compiled_algo.graph.return_arc == d.graph.return_arc,
            compiled_algo.graph.input_targets.deep_view() == d.graph.input_targets,
            compiled_algo.mainArity == d.main_arity,
            compiled_algo.sfDependencies.deep_view() == d.sf_dependencies,
        decreases n - k,
    {
        let ghost cur = compiled_algo.graph.arcs.direct.deep_view();
        let ghost cur_v = compiled_algo.graph.arcs.direct@;
        assert(cur_v[k as int].deep_view() == cur[k as int]);
        let target = compiled_algo.graph.arcs.direct[k].target;
        let env_id: Option<i32> = match &compiled_algo.graph.arcs.direct[k].source {
            ArcSource::Env(Envs::EnvRefLit { content }) => Some(*content),
            _ => None,
        };
        match env_id {
            Some(i) => {
                proof {
                    assert(av.filter(ep).contains(av[k as int])) by { av.lemma_filter_contains(ep, k as int); }
                    let q = choose|q: int| 0 <= q < av.filter(ep).len() && av.filter(ep)[q] == av[k as int];
                    assert(ints_i32(refs@)[q] == i as int);
                    assert(ints_i32(refs@).contains(i as int));
                }
                let arc = DirectArc {
                    target: target,
                    source: ArcSource::Local(ArcIdentifier { operator: new_op_id_base + i, index: 0 }),
                };
                compiled_algo.graph.arcs.direct.set(k, arc);
                assert forall|j: int| 0 <= j < n && j != k implies #[trigger] compiled_algo.graph.arcs.direct.deep_view()[j] == cur[j] by {
                    assert(compiled_algo.graph.arcs.direct@[j] == cur_v[j]);
                }
                assert(compiled_algo.graph.arcs.direct.deep_view()[k as int] == rf(av[k as int]));
            },
            None => {
                assert(rf(av[k as int]) == av[k as int]);
            },
        }
        k = k + 1;
    }
    assert(compiled_algo.graph.arcs.direct.deep_view() =~= av.map_values(rf));

    // One `id` operator and one arc into it per argument.
    let ghost opf = |i: i32| id_operator(base + i);
    let ghost arf = |i: i32| env_capture_arc(base, i);
    let ghost rerouted = av.map_values(rf);
    let m = ids.len();
    let mut j: usize = 0;
    while j < m
        invariant
            j <= m,
            m == iv.len(),
            iv == ids@,
            new_op_id_base == base,
            opf == (|i: i32| id_operator(base + i)),
            arf == (|i: i32| env_capture_arc(base, i)),
            forall|i: int| ints_i32(refs@).contains(i) ==> i32::MIN <= base + i <= i32::MAX,
            ints_i32(iv).to_set() == ints_i32(refs@).to_set(),
            compiled_algo.graph.operators.deep_view() == d.graph.operators + iv.subrange(0, j as int).map_values(opf),
            compiled_algo.graph.arcs.direct.deep_view() == rerouted + iv.subrange(0, j as int).map_values(arf),
            compiled_algo.graph.arcs.compound.deep_view() == d.graph.arcs.compound,
            compiled_algo.graph.arcs.state.deep_view() == d.graph.arcs.state,
            compiled_algo.graph.arcs.dead.deep_view() == d.graph.arcs.dead,
            compiled_algo.graph.return_arc == d.graph.return_arc,
            compiled_algo.graph.input_targets.deep_view() == d.graph.input_targets,
            compiled_algo.mainArity == d.main_arity,
            compiled_algo.sfDependencies.deep_view() == d.sf_dependencies,
        decreases m - j,
    {
        let i = ids[j];
        proof {
            assert(ints_i32(iv)[j as int] == i as int);
            assert(ints_i32(iv).to_set().contains(i as int));
            assert(ints_i32(refs@).contains(i as int));
        }
        let id: i32 = new_op_id_base + i;
        let mut ns: Vec<String> = Vec::new();
        ns.push(String::from_str("ohua_runtime"));
        ns.push(String::from_str("lang"));
        let ghost ops_before = compiled_algo.graph.operators.deep_view();
        compiled_algo.graph.operators.push(Operator {
            operatorId: id,
            operatorType: OperatorType { qbNamespace: ns, qbName: String::from_str("id") },
            nodeType: NodeType::FunctionNode,
        });
        proof {
            reveal_strlit("ohua_runtime");
            reveal_strlit("lang");
            reveal_strlit("id");
            let last = compiled_algo.graph.operators@[ops_before.len() as int];
            assert(last.operatorType.qbNamespace.deep_view() =~= runtime_namespace());
            assert(compiled_algo.graph.operators.deep_view() =~= ops_before.push(opf(i)));
            assert(iv.subrange(0, (j + 1) as int).map_values(opf) =~= iv.subrange(0, j as int).map_values(opf).push(opf(i)));
        }
        let ghost arcs_before = compiled_algo.graph.arcs.direct.deep_view();
        compiled_algo.graph.arcs.direct.push(DirectArc {
            target: ArcIdentifier { operator: id, index: 0 },
            source: ArcSource::Env(Envs::EnvRefLit { content: i }),
        });
        proof {
            assert(compiled_algo.graph.arcs.direct.deep_view() =~= arcs_before.push(arf(i)));
            assert(iv.subrange(0, (j + 1) as int).map_values(arf) =~= iv.subrange(0, j as int).map_values(arf).push(arf(i)));
        }
        j = j + 1;
    }
    assert(iv.subrange(0, m as int) =~= iv);
    assert(compiled_algo.deep_view() =~= spec_handle_environment_arcs(d));
}

/// Once the environment arguments are captured, an arc reads an environment
/// argument only if it is one of the capture arcs appended at the end: it ends at
/// port 0 of an `id` operator of the runtime whose id is the base plus the
/// argument, and no other arc reads the same argument.
pub proof fn lemma_env_args_captured(d: OhuaDataM, k: int)
    requires
        env_ids_fit(d),
        0 <= k < spec_handle_environment_arcs(d).graph.arcs.direct.len(),
        is_env_ref(spec_handle_environment_arcs(d).graph.arcs.direct[k]),
    ensures
        ({
            let d2 = spec_handle_environment_arcs(d);
            let a = d2.graph.arcs.direct[k];
            &&& k >= d.graph.arcs.direct.len()
            &&& a.target.index == 0
            &&& a.target.operator as int == id_base(d.graph.operators) + env_ref(a)
            &&& d2.graph.operators.contains(id_operator(a.target.operator as int))
            &&& forall|j: int| 0 <= j < d2.graph.arcs.direct.len() && j != k && is_env_ref(#[trigger] d2.graph.arcs.direct[j])
                ==> env_ref(d2.graph.arcs.direct[j]) != env_ref(a)
        }),
{
    reveal(spec_handle_environment_arcs);
    let d2 = spec_handle_environment_arcs(d);
    let base = id_base(d.graph.operators);
    let av = d.graph.arcs.direct;
    let ids = env_ids(av);
    let n = av.len();
    let a = d2.graph.arcs.direct[k];
    if k < n {
        assert(a == reroute_env(av[k], base));
        assert(false);
    }
    lemma_sorted_set_i32_props(env_refs(av));
    let i = ids[k - n];
    assert(a == env_capture_arc(base, i));
    assert(ints_i32(ids)[k - n] == i as int);
    assert(ints_i32(ids).to_set().contains(i as int));
    assert(ints_i32(env_refs(av)).contains(i as int));
    assert((base + i) as i32 as int == base + i);
    let nops = d.graph.operators.len();
    assert(d2.graph.operators[nops + (k - n)] == id_operator(base + i));
    assert(d2.graph.operators.contains(id_operator(a.target.operator as int)));
    assert forall|j: int| 0 <= j < d2.graph.arcs.direct.len() && j != k && is_env_ref(#[trigger] d2.graph.arcs.direct[j])
        implies env_ref(d2.graph.arcs.direct[j]) != env_ref(a) by {
        if j < n {
            assert(d2.graph.arcs.direct[j] == reroute_env(av[j], base));
        } else {
            assert(d2.graph.arcs.direct[j] == env_capture_arc(base, ids[j - n]));
            assert(ints_i32(ids)[j - n] == ids[j - n] as int);
            if j - n < k - n {
                assert(ints_i32(ids)[j - n] < ints_i32(ids)[k - n]);
            } else {
                assert(ints_i32(ids)[k - n] < ints_i32(ids)[j - n]);
            }
        }
    }
}

// ---------------------------------------------------------------------------
// ctrl

/// The operator is `name` from the runtime.
pub open spec fn is_runtime_named(o: OperatorM, name: Seq<char>) -> bool {
    o.ty.namespace == runtime_namespace() && o.ty.name == name
}

/// The number of arcs that end at the operator.
pub open spec fn num_inputs(o: OperatorM, arcs: Seq<DirectArcM>) -> int {
    spec_in_arcs(o.id, arcs).len() as int
}

/// The number of variables of a `ctrl` operator: its inputs without the control input.
pub open spec fn ctrl_arity(o: OperatorM, arcs: Seq<DirectArcM>) -> usize {
    (num_inputs(o, arcs) - 1) as usize
}

/// The number of variables of each `ctrl` operator, in the order of the operators.
pub open spec fn ctrl_arities(d: OhuaDataM) -> Seq<usize> {
    d.graph.operators.filter(|o: OperatorM| is_runtime_named(o, "ctrl"@)).map_values(
        |o: OperatorM| ctrl_arity(o, d.graph.arcs.direct),
    )
}

/// A `ctrl` operator renamed to the generated `ctrl_n` in the root namespace.
pub open spec fn ctrl_renamed(o: OperatorM, arcs: Seq<DirectArcM>) -> OperatorM {
    if is_runtime_named(o, "ctrl"@) {
        OperatorM {
            id: o.id,
            ty: OperatorTypeM { namespace: Seq::empty(), name: ctrl_fun_name((num_inputs(o, arcs) - 1) as nat) },
            node: o.node,
        }
    } else {
        o
    }
}

/// One `ctrl` operator per distinct number of variables, in increasing order.
pub open spec fn spec_ctrl_code(d: OhuaDataM) -> Seq<Seq<char>> {
    concat(sorted_set_usize(ctrl_arities(d)).map_values(|n: usize| ctrl_operator(n as nat)))
}

/// The graph with every `ctrl` operator renamed to its generated operator.
#[verifier::opaque]
pub open spec fn spec_generate_ctrls(d: OhuaDataM) -> OhuaDataM {
    OhuaDataM {
        graph: DFGraphM {
            operators: d.graph.operators.map_values(|o: OperatorM| ctrl_renamed(o, d.graph.arcs.direct)),
            arcs: d.graph.arcs,
            return_arc: d.graph.return_arc,
            input_targets: d.graph.input_targets,
        },
        main_arity: d.main_arity,
        sf_dependencies: d.sf_dependencies,
    }
}

/// Every `ctrl` operator has a control input and at least one variable.
pub open spec fn ctrls_ok(d: OhuaDataM) -> bool {
    forall|k: int|
        0 <= k < d.graph.operators.len() && is_runtime_named(d.graph.operators[k], "ctrl"@)
            ==> num_inputs(#[trigger] d.graph.operators[k], d.graph.arcs.direct) >= 2
}

/// Whether the operator is `name` from the runtime.
pub(crate) fn is_runtime_op_named(op: &Operator, name: &str) -> (r: bool)
    ensures
        r == is_runtime_named(op.deep_view(), name@),
{
    is_runtime_op(op) && string_is(&op.operatorType.qbName, name)
}

/// Generates one `ctrl` operator per distinct number of variables, and renames
/// every `ctrl` operator of the graph to the operator generated for it.
pub fn generate_ctrls(compiled_algo: &mut OhuaData) -> (t: Tokens)
    requires
        ctrls_ok(old(compiled_algo).deep_view()),
    ensures
        t@ == spec_ctrl_code(old(compiled_algo).deep_view()),
        final(compiled_algo).deep_view() == spec_generate_ctrls(old(compiled_algo).deep_view()),
{
    proof { reveal(spec_generate_ctrls); }
    let ghost d = compiled_algo.deep_view();
    let ghost ov = d.graph.operators;
    let ghost av = d.graph.arcs.direct;
    let ghost cp = |o: OperatorM| is_runtime_named(o, "ctrl"@);
    let ghost af = |o: OperatorM| ctrl_arity(o, av);
    let mut num_args: Vec<usize> = Vec::new();
    let n = compiled_algo.graph.operators.len();
    let mut i: usize = 0;
    while i < n
        invariant
            i <= n,
            n == ov.len(),
            d == compiled_algo.deep_view(),
            ov == d.graph.operators,
            av == d.graph.arcs.direct,
            ctrls_ok(d),
            cp == (|o: OperatorM| is_runtime_named(o, "ctrl"@)),
            af == (|o: OperatorM| ctrl_arity(o, av)),
            num_args@ == ov.subrange(0, i as int).filter(cp).map_values(af),
            forall|k: int| 0 <= k < num_args@.len() ==> #[trigger] num_args@[k] >= 1,
        decreases n - i,
    {
        proof { lemma_filter_step(ov, cp, i as int); }
        let op = &compiled_algo.graph.operators[i];
        assert(op.deep_view() == ov[i as int]);
        if is_runtime_op_named(op, "ctrl") {
            let inputs = get_num_inputs(&op.operatorId, &compiled_algo.graph.arcs.direct);
            assert(num_inputs(ov[i as int], av) >= 2);
            num_args.push(inputs - 1);
            assert(ov.subrange(0, i as int).filter(cp).push(ov[i as int]).map_values(af)
                =~= ov.subrange(0, i as int).filter(cp).map_values(af).push(af(ov[i as int])));
        }
        i = i + 1;
    }
    assert(ov.subrange(0, n as int) =~= ov);
    let arities = sort_dedup_usize(&num_args);
    let ghost sv = arities@;
    let ghost cf = |k: usize| ctrl_operator(k as nat);
    let mut t = Tokens::new();
    let m = arities.len();
    let mut j: usize = 0;
    assert(t@ =~= concat(sv.subrange(0, 0).map_values(cf)));
    while j < m
        invariant
            j <= m,
            m == sv.len(),
            sv == arities@,
            sv == sorted_set_usize(ctrl_arities(d)),
            forall|k: int| 0 <= k < num_args@.len() ==> #[trigger] num_args@[k] >= 1,
            ints_usize(sv).to_set() == ints_usize(num_args@).to_set(),
            ctrls_ok(d),
            ov == d.graph.operators,
            av == d.graph.arcs.direct,
            cf == (|k: usize| ctrl_operator(k as nat)),
            t@ == concat(sv.subrange(0, j as int).map_values(cf)),
        decreases m - j,
    {
        let k = arities[j];
        proof {
            assert(ints_usize(sv)[j as int] == k as int);
            assert(ints_usize(sv).to_set().contains(k as int));
            assert(ints_usize(num_args@).contains(k as int));
            let q = choose|q: int| 0 <= q < ints_usize(num_args@).len() && ints_usize(num_args@)[q] == k as int;
            assert(num_args@[q] >= 1);
        }
        let c = generate_ctrl_operator(k);
        t.extend(&c);
        proof {
            lemma_concat_map_push(sv.subrange(0, j as int), k, cf);
            assert(sv.subrange(0, (j + 1) as int) =~= sv.subrange(0, j as int).push(k));
        }
        j = j + 1;
    }
    assert(sv.subrange(0, m as int) =~= sv);

    // Rename the `ctrl` operators.
    let ghost rf = |o: OperatorM| ctrl_renamed(o, av);
    let mut i: usize = 0;
    while i < n
        invariant
            i <= n,
            n == ov.len(),
            ov == d.graph.operators,
            av == d.graph.arcs.direct,
            ctrls_ok(d),
            rf == (|o: OperatorM| ctrl_renamed(o, av)),
            compiled_algo.graph.operators@.len() == n,
            forall|j: int| 0 <= j < i ==> #[trigger] compiled_algo.graph.operators.deep_view()[j] == rf(ov[j]),
            forall|j: int| i <= j < n ==> #[trigger] compiled_algo.graph.operators.deep_view()[j] == ov[j],
            compiled_algo.graph.arcs.deep_view() == d.graph.arcs,
            compiled_algo.graph.return_arc == d.graph.return_arc,
            compiled_algo.graph.input_targets.deep_view() == d.graph.input_targets,
            compiled_algo.mainArity == d.main_arity,
            compiled_algo.sfDependencies.deep_view() == d.sf_dependencies,
        decreases n - i,
    {
        let ghost cur_v = compiled_algo.graph.operators@;
        let ghost cur = compiled_algo.graph.operators.deep_view();
        assert(compiled_algo.graph.operators.deep_view()[i as int] == ov[i as int]);
        assert(cur_v[i as int].deep_view() == compiled_algo.graph.operators.deep_view()[i as int]);
        let is_ctrl = is_runtime_op_named(&compiled_algo.graph.operators[i], "ctrl");
        if !is_ctrl {
            assert(rf(ov[i as int]) == ov[i as int]);
        }
        if is_ctrl {
            let id = compiled_algo.graph.operators[i].operatorId;
            let node = compiled_algo.graph.operators[i].nodeType;
            let inputs = get_num_inputs(&id, &compiled_algo.graph.arcs.direct);
            assert(compiled_algo.graph.arcs.direct.deep_view() == av);
            assert(num_inputs(ov[i as int], av) >= 2);
            let name = indexed_name("ctrl_", inputs - 1);
            compiled_algo.graph.operators.set(i, Operator {
                operatorId: id,
                operatorType: OperatorType { qbNamespace: Vec::new(), qbName: name },
                nodeType: node,
            });
            proof {
                let nv = compiled_algo.graph.operators@[i as int].operatorType.qbNamespace;
                assert(nv.deep_view() =~= Seq::<Seq<char>>::empty());
                assert(compiled_algo.graph.operators.deep_view()[i as int] == rf(ov[i as int]));
                assert forall|j: int| 0 <= j < n && j != i implies #[trigger] compiled_algo.graph.operators.deep_view()[j] == cur[j] by {
                    assert(compiled_algo.graph.operators@[j] == cur_v[j]);
                    assert(cur[j] == cur_v[j].deep_view());
                }
            }
        }
        i = i + 1;
    }
    assert(compiled_algo.graph.operators.deep_view() =~= ov.map_values(rf));
    assert(compiled_algo.deep_view() =~= spec_generate_ctrls(d));
    t
}

// ---------------------------------------------------------------------------
// nth

/// The arcs that end at `op`, sorted by input port; arcs at the same port keep
/// their order (a stable sort).
pub open spec fn sorted_in_arcs(op: i32, arcs: Seq<DirectArcM>) -> Seq<DirectArcM> {
    concat(sorted_set_i32(in_ports(op, arcs)).map_values(|k: i32| in_port_group(op, arcs, k)))
}

/// The arcs that end at `op`, sorted by input port.
pub(crate) fn sort_in_arcs<'a>(op: &i32, arcs: &'a Vec<DirectArc>) -> (r: Vec<&'a DirectArc>)
    ensures
        r.deep_view() == sorted_in_arcs(*op, arcs.deep_view()),
{
    let ghost av = arcs.deep_view();
    let ghost grp = |k: i32| in_port_group(*op, av, k);
    let in_arcs = get_in_arcs(op, arcs);
    let ghost iv = in_arcs.deep_view();
    let mut keys: Vec<i32> = Vec::new();
    let n = in_arcs.len();
    let mut i: usize = 0;
    while i < n
        invariant
            i <= n,
            n == in_arcs@.len(),
            iv == in_arcs.deep_view(),
            keys@ == iv.subrange(0, i as int).map_values(|a: DirectArcM| a.target.index),
        decreases n - i,
    {
        assert(in_arcs@[i as int].deep_view() == iv[i as int]);
        keys.push(in_arcs[i].target.index);
        assert(iv.subrange(0, (i + 1) as int) =~= iv.subrange(0, i as int).push(iv[i as int]));
        assert(keys@ =~= iv.subrange(0, (i + 1) as int).map_values(|a: DirectArcM| a.target.index));
        i = i + 1;
    }
    assert(iv.subrange(0, n as int) =~= iv);
    let ks = sort_dedup_i32(&keys);
    let mut r: Vec<&'a DirectArc> = Vec::new();
    let m = ks.len();
    let mut i: usize = 0;
    assert(r.deep_view() =~= concat(ks@.subrange(0, 0).map_values(grp)));
    while i < m
        invariant
            i <= m,
            m == ks@.len(),
            n == in_arcs@.len(),
            av == arcs.deep_view(),
            iv == in_arcs.deep_view(),
            iv == spec_in_arcs(*op, av),
            ks@ == sorted_set_i32(in_ports(*op, av)),
            grp == (|k: i32| in_port_group(*op, av, k)),
            r.deep_view() == concat(ks@.subrange(0, i as int).map_values(grp)),
        decreases m - i,
    {
        let k = ks[i];
        let ghost base = r.deep_view();
        let ghost gp = |a: DirectArcM| a.target.index == k;
        let mut j: usize = 0;
        assert(r.deep_view() =~= base + iv.subrange(0, 0).filter(gp));
        while j < n
            invariant
                j <= n,
                n == in_arcs@.len(),
                iv == in_arcs.deep_view(),
                gp == (|a: DirectArcM| a.target.index == k),
                r.deep_view() == base + iv.subrange(0, j as int).filter(gp),
            decreases n - j,
        {
            proof { lemma_filter_step(iv, gp, j as int); }
            let a = in_arcs[j];
            assert(a.deep_view() == iv[j as int]);
            if a.target.index == k {
                let ghost old_dv = r.deep_view();
                r.push(a);
                assert(r.deep_view() =~= old_dv.push(iv[j as int]));
            }
            assert(r.deep_view() =~= base + iv.subrange(0, (j + 1) as int).filter(gp));
            j = j + 1;
        }
        proof {
            assert(iv.subrange(0, n as int) =~= iv);
            assert(iv.filter(gp) == grp(k));
            lemma_concat_map_push(ks@.subrange(0, i as int), k, grp);
            assert(ks@.subrange(0, (i + 1) as int) =~= ks@.subrange(0, i as int).push(k));
        }
        i = i + 1;
    }
    assert(ks@.subrange(0, m as int) =~= ks@);
    r
}

/// The number a numeric literal carries.
pub open spec fn numeric_value(a: DirectArcM) -> i32 {
    match a.source {
        ArcSourceM::Env(EnvsM::NumericLit(n)) => n,
        _ => 0,
    }
}

/// The arc carries a numeric literal.
pub open spec fn is_numeric(a: DirectArcM) -> bool {
    a.source matches ArcSourceM::Env(EnvsM::NumericLit(_))
}

/// The inputs of an `nth` operator are well formed: three arcs, the two at the
/// lowest ports numeric literals (the index taken and the length of the tuple).
pub open spec fn nth_inputs_ok(op: i32, arcs: Seq<DirectArcM>) -> bool {
    &&& spec_in_arcs(op, arcs).len() == 3
    &&& is_numeric(sorted_in_arcs(op, arcs)[0])
    &&& is_numeric(sorted_in_arcs(op, arcs)[1])
}

/// The index and the tuple length of an `nth` operator.
pub open spec fn nth_info(op: i32, arcs: Seq<DirectArcM>) -> (i32, i32) {
    (numeric_value(sorted_in_arcs(op, arcs)[0]), numeric_value(sorted_in_arcs(op, arcs)[1]))
}

/// Sorting the arcs of an operator by port keeps all of them.
pub(crate) proof fn lemma_sorted_in_arcs_len(op: i32, arcs: Seq<DirectArcM>)
    ensures
        sorted_in_arcs(op, arcs).len() == spec_in_arcs(op, arcs).len(),
{
    let iv = spec_in_arcs(op, arcs);
    let ks = sorted_set_i32(in_ports(op, arcs));
    lemma_sorted_set_i32_props(in_ports(op, arcs));
    lemma_concat_groups_len(iv, ks);
    let f1 = |k: i32| in_port_group(op, arcs, k);
    let f2 = |k: i32| iv.filter(|a: DirectArcM| a.target.index == k);
    assert(ks.map_values(f1) =~= ks.map_values(f2));
}

/// Grouping a sequence by a duplicate-free list of all its keys keeps every element.
proof fn lemma_concat_groups_len(iv: Seq<DirectArcM>, ks: Seq<i32>)
    requires
        strictly_sorted(ints_i32(ks)),
        ints_i32(ks).to_set() == ints_i32(iv.map_values(|a: DirectArcM| a.target.index)).to_set(),
    ensures
        concat(ks.map_values(|k: i32| iv.filter(|a: DirectArcM| a.target.index == k))).len() == iv.len(),
{
    lemma_groups_len(iv, ks, ks.len() as int);
    assert(ks.subrange(0, ks.len() as int) =~= ks);
    let keep = |a: DirectArcM| ints_i32(ks).contains(a.target.index as int);
    assert(iv.filter(keep) =~= iv) by {
        assert forall|j: int| 0 <= j < iv.len() implies keep(iv[j]) by {
            let ports = ints_i32(iv.map_values(|a: DirectArcM| a.target.index));
            assert(ports[j] == iv[j].target.index as int);
            assert(ports.to_set().contains(ports[j]));
        }
        lemma_filter_all(iv, keep);
    }
}

/// A filter that keeps every element keeps the sequence.
proof fn lemma_filter_all<A>(s: Seq<A>, p: spec_fn(A) -> bool)
    requires
        forall|j: int| 0 <= j < s.len() ==> p(#[trigger] s[j]),
    ensures
        s.filter(p) == s,
    decreases s.len(),
{
    reveal(Seq::filter);
    if s.len() > 0 {
        lemma_filter_all(s.drop_last(), p);
        assert(s =~= s.drop_last().push(s.last()));
    } else {
        assert(s.filter(p) =~= s);
    }
}

/// The groups of the first `m` keys hold exactly the elements whose key is among them.
proof fn lemma_groups_len(iv: Seq<DirectArcM>, ks: Seq<i32>, m: int)
    requires
        strictly_sorted(ints_i32(ks)),
        0 <= m <= ks.len(),
    ensures
        concat(ks.subrange(0, m).map_values(|k: i32| iv.filter(|a: DirectArcM| a.target.index == k))).len()
            == iv.filter(|a: DirectArcM| ints_i32(ks.subrange(0, m)).contains(a.target.index as int)).len(),
    decreases m,
{
    let gf = |k: i32| iv.filter(|a: DirectArcM| a.target.index == k);
    if m == 0 {
        assert(ks.subrange(0, 0).map_values(gf) =~= Seq::<Seq<DirectArcM>>::empty());
        assert(iv.filter(|a: DirectArcM| ints_i32(ks.subrange(0, 0)).contains(a.target.index as int)).len() == 0) by {
            lemma_filter_none(iv, |a: DirectArcM| ints_i32(ks.subrange(0, 0)).contains(a.target.index as int));
        }
    } else {
        lemma_groups_len(iv, ks, m - 1);
        let k = ks[m - 1];
        assert(ks.subrange(0, m).map_values(gf) =~= ks.subrange(0, m - 1).map_values(gf).push(gf(k)));
        assert(ks.subrange(0, m).map_values(gf).drop_last() =~= ks.subrange(0, m - 1).map_values(gf));
        let before = |a: DirectArcM| ints_i32(ks.subrange(0, m - 1)).contains(a.target.index as int);
        let now = |a: DirectArcM| ints_i32(ks.subrange(0, m)).contains(a.target.index as int);
        let at = |a: DirectArcM| a.target.index == k;
        assert forall|a: DirectArcM| #[trigger] now(a) == (before(a) || at(a)) by {
            if now(a) {
                let q = choose|q: int| 0 <= q < m && #[trigger] ints_i32(ks.subrange(0, m))[q] == a.target.index as int;
                if q < m - 1 {
                    assert(ints_i32(ks.subrange(0, m - 1))[q] == a.target.index as int);
                } else {
                    assert(ks[m - 1] == a.target.index);
                }
            }
            if before(a) {
                let q = choose|q: int| 0 <= q < m - 1 && #[trigger] ints_i32(ks.subrange(0, m - 1))[q] == a.target.index as int;
                assert(ints_i32(ks.subrange(0, m))[q] == a.target.index as int);
            }
            if at(a) {
                assert(ints_i32(ks.subrange(0, m))[m - 1] == a.target.index as int);
            }
        }
        assert forall|a: DirectArcM| #[trigger] before(a) implies !at(a) by {
            let q = choose|q: int| 0 <= q < m - 1 && #[trigger] ints_i32(ks.subrange(0, m - 1))[q] == a.target.index as int;
            assert(ints_i32(ks)[q] < ints_i32(ks)[m - 1]);
        }
        lemma_filter_union_len(iv, before, at, now);
    }
}

/// A filter that keeps none of the elements is empty.
proof fn lemma_filter_none<A>(s: Seq<A>, p: spec_fn(A) -> bool)
    requires
        forall|a: A| !#[trigger] p(a),
    ensures
        s.filter(p).len() == 0,
    decreases s.len(),
{
    reveal(Seq::filter);
    if s.len() > 0 {
        lemma_filter_none(s.drop_last(), p);
    }
}

/// Filtering by a disjoint union of two predicates keeps as many elements as the
/// two filters together.
proof fn lemma_filter_union_len<A>(s: Seq<A>, p: spec_fn(A) -> bool, q: spec_fn(A) -> bool, u: spec_fn(A) -> bool)
    requires
        forall|a: A| #[trigger] u(a) == (p(a) || q(a)),
        forall|a: A| #[trigger] p(a) ==> !q(a),
    ensures
        s.filter(u).len() == s.filter(p).len() + s.filter(q).len(),
    decreases s.len(),
{
    reveal(Seq::filter);
    if s.len() > 0 {
        lemma_filter_union_len(s.drop_last(), p, q, u);
    }
}

/// Finds the index and the tuple length of an `nth` operator: the numeric literals
/// at its two lowest input ports.
pub fn find_nth_info(op_id: &i32, direct_arcs: &Vec<DirectArc>) -> (r: (i32, i32))
    requires
        nth_inputs_ok(*op_id, direct_arcs.deep_view()),
    ensures
        r == nth_info(*op_id, direct_arcs.deep_view()),
{
    let in_arcs = sort_in_arcs(op_id, direct_arcs);
    proof { lemma_sorted_in_arcs_len(*op_id, direct_arcs.deep_view()); }
    let num_arc = in_arcs[0];
    let len_arc = in_arcs[1];
    assert(num_arc.deep_view() == in_arcs.deep_view()[0]);
    assert(len_arc.deep_view() == in_arcs.deep_view()[1]);
    let num = match &num_arc.source {
        ArcSource::Env(Envs::NumericLit { content }) => *content,
        _ => { assert(false); 0 },
    };
    let len = match &len_arc.source {
        ArcSource::Env(Envs::NumericLit { content }) => *content,
        _ => { assert(false); 0 },
    };
    (num, len)
}

/// The first operator with this id is the `nth` operator of the runtime.
#[verifier::opaque]
pub open spec fn spec_is_nth(op_id: i32, ops: Seq<OperatorM>) -> bool {
    op_registered(ops, op_id) && is_runtime_named(find_op(ops, op_id), "nth"@)
}

/// Whether the first operator with this id is the `nth` operator of the runtime.
pub fn is_nth(op_id: &i32, ops: &Vec<Operator>) -> (r: bool)
    ensures
        r == spec_is_nth(*op_id, ops.deep_view()),
{
    proof { reveal(spec_is_nth); }
    if !op_exists(ops, *op_id) {
        return false;
    }
    let pos = find_op_pos(*op_id, ops);
    assert(ops@[pos as int].deep_view() == find_op(ops.deep_view(), *op_id));
    is_runtime_op_named(&ops[pos], "nth")
}

/// The entry of an `nth` operator: its id, the index it takes and the tuple length.
pub open spec fn nth_entry(o: OperatorM, arcs: Seq<DirectArcM>) -> (i32, i32, i32) {
    (o.id, nth_info(o.id, arcs).0, nth_info(o.id, arcs).1)
}

/// The entries of the `nth` operators, sorted and without duplicates.
pub open spec fn nth_table(d: OhuaDataM) -> Seq<(i32, i32, i32)> {
    sorted_unique(
        d.graph.operators.filter(|o: OperatorM| is_runtime_named(o, "nth"@)).map_values(
            |o: OperatorM| nth_entry(o, d.graph.arcs.direct),
        ),
        triple_lt(),
    )
}

/// One operator per entry of the table.
pub open spec fn spec_nth_code(d: OhuaDataM) -> Seq<Seq<char>> {
    concat(nth_table(d).map_values(|e: (i32, i32, i32)| nth_operator(e.0, e.1, e.2)))
}

/// The table has an entry for this operator id.
pub open spec fn has_entry(table: Seq<(i32, i32, i32)>, id: i32) -> bool {
    exists|k: int| 0 <= k < table.len() && table[k].0 == id
}

/// The first entry of the table for this operator id.
pub open spec fn first_entry(table: Seq<(i32, i32, i32)>, id: i32) -> (i32, i32, i32) {
    table[choose|k: int| 0 <= k < table.len() && table[k].0 == id && forall|j: int| 0 <= j < k ==> table[j].0 != id]
}

/// An operator with an entry, renamed to its generated `nth` operator in the root namespace.
pub open spec fn nth_renamed(o: OperatorM, table: Seq<(i32, i32, i32)>) -> OperatorM {
    if has_entry(table, o.id) {
        let e = first_entry(table, o.id);
        OperatorM {
            id: o.id,
            ty: OperatorTypeM { namespace: Seq::empty(), name: nth_fun_name(e.0, e.1, e.2) },
            node: o.node,
        }
    } else {
        o
    }
}

/// An arc into an `nth` operator: the tuple at port 2 becomes the only input, at port 0.
pub open spec fn nth_arc(a: DirectArcM, ops: Seq<OperatorM>) -> DirectArcM {
    if spec_is_nth(a.target.operator, ops) {
        DirectArcM { target: ArcIdentifier { operator: a.target.operator, index: 0 }, source: a.source }
    } else {
        a
    }
}

/// The arc stays: it does not carry the index or the length into an `nth` operator.
pub open spec fn keeps_arc(a: DirectArcM, ops: Seq<OperatorM>) -> bool {
    !spec_is_nth(a.target.operator, ops) || a.target.index >= 2
}

/// The graph with each `nth` operator renamed to the operator generated for it and
/// with its literal inputs dropped.
#[verifier::opaque]
pub open spec fn spec_generate_nths(d: OhuaDataM) -> OhuaDataM {
    let ops = d.graph.operators;
    OhuaDataM {
        graph: DFGraphM {
            operators: ops.map_values(|o: OperatorM| nth_renamed(o, nth_table(d))),
            arcs: ArcsM {
                direct: d.graph.arcs.direct.filter(|a: DirectArcM| keeps_arc(a, ops)).map_values(
                    |a: DirectArcM| nth_arc(a, ops),
                ),
                compound: d.graph.arcs.compound,
                state: d.graph.arcs.state,
                dead: d.graph.arcs.dead,
            },
            return_arc: d.graph.return_arc,
            input_targets: d.graph.input_targets,
        },
        main_arity: d.main_arity,
        sf_dependencies: d.sf_dependencies,
    }
}

/// Every `nth` operator has well-formed inputs, and no arc into one ends beyond port 2.
pub open spec fn nths_ok(d: OhuaDataM) -> bool {
    &&& forall|k: int|
        0 <= k < d.graph.operators.len() && is_runtime_named(d.graph.operators[k], "nth"@)
            ==> nth_inputs_ok(#[trigger] d.graph.operators[k].id, d.graph.arcs.direct)
    &&& forall|j: int|
        0 <= j < d.graph.arcs.direct.len() && spec_is_nth(d.graph.arcs.direct[j].target.operator, d.graph.operators)
            ==> #[trigger] d.graph.arcs.direct[j].target.index <= 2
}

/// The first entry of the table for this operator id, if there is one.
fn find_entry(table: &Vec<(i32, i32, i32)>, id: i32) -> (r: Option<(i32, i32, i32)>)
    ensures
        r is Some <==> has_entry(table@, id),
        r is Some ==> r->0 == first_entry(table@, id),
{
    let n = table.len();
    let mut i: usize = 0;
    while i < n
        invariant
            i <= n,
            n == table@.len(),
            forall|j: int| 0 <= j < i ==> table@[j].0 != id,
        decreases n - i,
    {
        if table[i].0 == id {
            proof {
                let t = table@;
                let k = choose|k: int| 0 <= k < t.len() && t[k].0 == id && forall|j: int| 0 <= j < k ==> t[j].0 != id;
                assert(0 <= i < t.len() && t[i as int].0 == id && forall|j: int| 0 <= j < i ==> t[j].0 != id);
                if k != i as int {
                    if k > i { assert(t[i as int].0 != id); }
                }
            }
            return Some(table[i]);
        }
        i = i + 1;
    }
    None
}

/// The entries of the `nth` operators, in the order of the operators.
fn collect_nth_entries(compiled_algo: &OhuaData) -> (r: Vec<(i32, i32, i32)>)
    requires
        nths_ok(compiled_algo.deep_view()),
    ensures
        r@ == compiled_algo.deep_view().graph.operators.filter(|o: OperatorM| is_runtime_named(o, "nth"@))
            .map_values(|o: OperatorM| nth_entry(o, compiled_algo.deep_view().graph.arcs.direct)),
{
    let ghost d = compiled_algo.deep_view();
    let ghost ov = d.graph.operators;
    let ghost av = d.graph.arcs.direct;
    let ghost np = |o: OperatorM| is_runtime_named(o, "nth"@);
    let ghost ef = |o: OperatorM| nth_entry(o, av);
    let mut nths: Vec<(i32, i32, i32)> = Vec::new();
    let n = compiled_algo.graph.operators.len();
    let mut i: usize = 0;
    while i < n
        invariant
            i <= n,
            n == ov.len(),
            d == compiled_algo.deep_view(),
            ov == d.graph.operators,
            av == d.graph.arcs.direct,
            nths_ok(d),
            np == (|o: OperatorM| is_runtime_named(o, "nth"@)),
            ef == (|o: OperatorM| nth_entry(o, av)),
            nths@ == ov.subrange(0, i as int).filter(np).map_values(ef),
        decreases n - i,
    {
        proof { lemma_filter_step(ov, np, i as int); }
        let op = &compiled_algo.graph.operators[i];
        assert(op.deep_view() == ov[i as int]);
        if is_runtime_op_named(op, "nth") {
            assert(nth_inputs_ok(ov[i as int].id, av));
            let (idx, total) = find_nth_info(&op.operatorId, &compiled_algo.graph.arcs.direct);
            nths.push((op.operatorId, idx, total));
            assert(ov.subrange(0, i as int).filter(np).push(ov[i as int]).map_values(ef)
                =~= ov.subrange(0, i as int).filter(np).map_values(ef).push(ef(ov[i as int])));
        }
        i = i + 1;
    }
    assert(ov.subrange(0, n as int) =~= ov);
    nths
}

/// One `nth` operator per entry.
fn nth_code(table: &Vec<(i32, i32, i32)>) -> (t: Tokens)
    ensures
        t@ == concat(table@.map_values(|e: (i32, i32, i32)| nth_operator(e.0, e.1, e.2))),
{
    let ghost tv = table@;
    let ghost cf = |e: (i32, i32, i32)| nth_operator(e.0, e.1, e.2);
    let mut t = Tokens::new();
    let m = table.len();
    let mut j: usize = 0;
    assert(t@ =~= concat(tv.subrange(0, 0).map_values(cf)));
    while j < m
        invariant
            j <= m,
            m == tv.len(),
            tv == table@,
            cf == (|e: (i32, i32, i32)| nth_operator(e.0, e.1, e.2)),
            t@ == concat(tv.subrange(0, j as int).map_values(cf)),
        decreases m - j,
    {
        let e = table[j];
        let c = generate_nth(&e.0, &e.1, &e.2);
        t.extend(&c);
        proof {
            lemma_concat_map_push(tv.subrange(0, j as int), e, cf);
            assert(tv.subrange(0, (j + 1) as int) =~= tv.subrange(0, j as int).push(e));
        }
        j = j + 1;
    }
    assert(tv.subrange(0, m as int) =~= tv);
    t
}

/// Removes and returns the first arc.
fn take_first(v: &mut Vec<DirectArc>) -> (r: DirectArc)
    requires
        old(v)@.len() > 0,
    ensures
        r.deep_view() == old(v).deep_view()[0],
        final(v).deep_view() == old(v).deep_view().drop_first(),
        final(v)@.len() == old(v)@.len() - 1,
{
    let ghost before = v@;
    let ghost before_dv = v.deep_view();
    assert(before_dv[0] == before[0].deep_view());
    let r = v.remove(0);
    assert(v@ == before.remove(0));
    assert forall|q: int| 0 <= q < v@.len() implies #[trigger] v.deep_view()[q] == before_dv[q + 1] by {
        assert(v@[q] == before[q + 1]);
        assert(before_dv[q + 1] == before[q + 1].deep_view());
    }
    assert(v.deep_view() =~= before_dv.drop_first());
    r
}

/// The arc as it stays after the literal inputs of the `nth` operators are dropped.
fn nth_kept_arc(arc: DirectArc, ops: &Vec<Operator>) -> (r: Option<DirectArc>)
    requires
        spec_is_nth(arc.deep_view().target.operator, ops.deep_view()) ==> arc.deep_view().target.index <= 2,
    ensures
        r is Some <==> keeps_arc(arc.deep_view(), ops.deep_view()),
        r is Some ==> r->0.deep_view() == nth_arc(arc.deep_view(), ops.deep_view()),
{
    let nth = is_nth(&arc.target.operator, ops);
    if !nth {
        Some(arc)
    } else if arc.target.index >= 2 {
        Some(DirectArc { target: ArcIdentifier { operator: arc.target.operator, index: 0 }, source: arc.source })
    } else {
        None
    }
}

/// Appends the arc as it stays, unless it is dropped.
fn push_kept_arc(dst: &mut Vec<DirectArc>, arc: DirectArc, ops: &Vec<Operator>)
    requires
        spec_is_nth(arc.deep_view().target.operator, ops.deep_view()) ==> arc.deep_view().target.index <= 2,
    ensures
        final(dst).deep_view() == if keeps_arc(arc.deep_view(), ops.deep_view()) {
            old(dst).deep_view().push(nth_arc(arc.deep_view(), ops.deep_view()))
        } else {
            old(dst).deep_view()
        },
{
    let ghost a = arc.deep_view();
    match nth_kept_arc(arc, ops) {
        Some(kept) => {
            let ghost old_dv = dst.deep_view();
            dst.push(kept);
            assert(dst.deep_view() =~= old_dv.push(nth_arc(a, ops.deep_view())));
        },
        None => {},
    }
}

/// Drops the literal inputs of the `nth` operators and moves their tuple input to port 0.
#[verifier::rlimit(40)]
fn drop_nth_literals(compiled_algo: &mut OhuaData)
    requires
        nths_ok(old(compiled_algo).deep_view()),
    ensures
        ({
            let d = old(compiled_algo).deep_view();
            let ops = d.graph.operators;
            final(compiled_algo).deep_view() == OhuaDataM {
                graph: DFGraphM {
                    operators: ops,
                    arcs: ArcsM {
                        direct: d.graph.arcs.direct.filter(|a: DirectArcM| keeps_arc(a, ops)).map_values(
                            |a: DirectArcM| nth_arc(a, ops),
                        ),
                        compound: d.graph.arcs.compound,
                        state: d.graph.arcs.state,
                        dead: d.graph.arcs.dead,
                    },
                    return_arc: d.graph.return_arc,
                    input_targets: d.graph.input_targets,
                },
                main_arity: d.main_arity,
                sf_dependencies: d.sf_dependencies,
            }
        }),
{
    let ghost d = compiled_algo.deep_view();
    let ghost ov = d.graph.operators;
    let ghost av = d.graph.arcs.direct;
    let ghost kp = |a: DirectArcM| keeps_arc(a, ov);
    let ghost af = |a: DirectArcM| nth_arc(a, ov);
    let mut old_arcs: Vec<DirectArc> = Vec::new();
    std::mem::swap(&mut old_arcs, &mut compiled_algo.graph.arcs.direct);
    assert(old_arcs.deep_view() == av);
    let k_n = old_arcs.len();
    let mut k: usize = 0;
    assert(av.subrange(0, 0).filter(kp).map_values(af) =~= Seq::<DirectArcM>::empty());
    assert(compiled_algo.graph.arcs.direct.deep_view() =~= Seq::<DirectArcM>::empty());
    assert(av.subrange(0, k_n as int) =~= av);
    while k < k_n
        invariant
            k <= k_n,
            k_n == av.len(),
            old_arcs@.len() == k_n - k,
            old_arcs.deep_view() == av.subrange(k as int, k_n as int),
            forall|j: int| 0 <= j < k_n && spec_is_nth(av[j].target.operator, ov) ==> #[trigger] av[j].target.index <= 2,
            ov == d.graph.operators,
            av == d.graph.arcs.direct,
            kp == (|a: DirectArcM| keeps_arc(a, ov)),
            af == (|a: DirectArcM| nth_arc(a, ov)),
            compiled_algo.graph.operators.deep_view() == ov,
            compiled_algo.graph.arcs.direct.deep_view() == av.subrange(0, k as int).filter(kp).map_values(af),
            compiled_algo.graph.arcs.compound.deep_view() == d.graph.arcs.compound,
            compiled_algo.graph.arcs.state.deep_view() == d.graph.arcs.state,
            compiled_algo.graph.arcs.dead.deep_view() == d.graph.arcs.dead,
            compiled_algo.graph.return_arc == d.graph.return_arc,
            compiled_algo.graph.input_targets.deep_view() == d.graph.input_targets,
            compiled_algo.mainArity == d.main_arity,
            compiled_algo.sfDependencies.deep_view() == d.sf_dependencies,
        decreases k_n - k,
    {
        proof { lemma_filter_step(av, kp, k as int); }
        let arc = take_first(&mut old_arcs);
        assert(arc.deep_view() == av[k as int]);
        assert(old_arcs.deep_view() =~= av.subrange(k + 1, k_n as int));
        push_kept_arc(&mut compiled_algo.graph.arcs.direct, arc, &compiled_algo.graph.operators);
        assert(av.subrange(0, k as int).filter(kp).push(av[k as int]).map_values(af)
            =~= av.subrange(0, k as int).filter(kp).map_values(af).push(af(av[k as int])));
        k = k + 1;
    }
    assert(av.subrange(0, k_n as int) =~= av);
    assert(compiled_algo.graph.arcs.direct.deep_view() =~= av.filter(kp).map_values(af));
}

/// Renames every operator with an entry in the table to its generated `nth` operator.
fn rename_nths(compiled_algo: &mut OhuaData, table: &Vec<(i32, i32, i32)>)
    ensures
        ({
            let d = old(compiled_algo).deep_view();
            final(compiled_algo).deep_view() == OhuaDataM {
                graph: DFGraphM {
                    operators: d.graph.operators.map_values(|o: OperatorM| nth_renamed(o, table@)),
                    arcs: d.graph.arcs,
                    return_arc: d.graph.return_arc,
                    input_targets: d.graph.input_targets,
                },
                main_arity: d.main_arity,
                sf_dependencies: d.sf_dependencies,
            }
        }),
{
    let ghost d = compiled_algo.deep_view();
    let ghost ov = d.graph.operators;
    let ghost tv = table@;
    let ghost rf = |o: OperatorM| nth_renamed(o, tv);
    let n = compiled_algo.graph.operators.len();
    let mut i: usize = 0;
    while i < n
        invariant
            i <= n,
            n == ov.len(),
            ov == d.graph.operators,
            tv == table@,
            rf == (|o: OperatorM| nth_renamed(o, tv)),
            compiled_algo.graph.operators@.len() == n,
            forall|j: int| 0 <= j < i ==> #[trigger] compiled_algo.graph.operators.deep_view()[j] == rf(ov[j]),
            forall|j: int| i <= j < n ==> #[trigger] compiled_algo.graph.operators.deep_view()[j] == ov[j],
            compiled_algo.graph.arcs.deep_view() == d.graph.arcs,
            compiled_algo.graph.return_arc == d.graph.return_arc,
            compiled_algo.graph.input_targets.deep_view() == d.graph.input_targets,
            compiled_algo.mainArity == d.main_arity,
            compiled_algo.sfDependencies.deep_view() == d.sf_dependencies,
        decreases n - i,
    {
        let ghost cur_v = compiled_algo.graph.operators@;
        let ghost cur = compiled_algo.graph.operators.deep_view();
        assert(cur[i as int] == ov[i as int]);
        assert(cur_v[i as int].deep_view() == cur[i as int]);
        let id = compiled_algo.graph.operators[i].operatorId;
        match find_entry(table, id) {
            Some(e) => {
                let node = compiled_algo.graph.operators[i].nodeType;
                let mut name = String::from_str("nth_op");
                name.append(i32_to_string(e.0).as_str());
                name.append("_");
                name.append(i32_to_string(e.1).as_str());
                name.append("_");
                name.append(i32_to_string(e.2).as_str());
                compiled_algo.graph.operators.set(i, Operator {
                    operatorId: id,
                    operatorType: OperatorType { qbNamespace: Vec::new(), qbName: name },
                    nodeType: node,
                });
                proof {
                    let nv = compiled_algo.graph.operators@[i as int].operatorType.qbNamespace;
                    assert(nv.deep_view() =~= Seq::<Seq<char>>::empty());
                    assert(compiled_algo.graph.operators.deep_view()[i as int] == rf(ov[i as int]));
                    assert forall|j: int| 0 <= j < n && j != i implies #[trigger] compiled_algo.graph.operators.deep_view()[j] == cur[j] by {
                        assert(compiled_algo.graph.operators@[j] == cur_v[j]);
                        assert(cur[j] == cur_v[j].deep_view());
                    }
                }
            },
            None => {
                assert(rf(ov[i as int]) == ov[i as int]);
            },
        }
        i = i + 1;
    }
    assert(compiled_algo.graph.operators.deep_view() =~= ov.map_values(rf));
    assert(compiled_algo.deep_view() =~= OhuaDataM {
        graph: DFGraphM {
            operators: ov.map_values(rf),
            arcs: d.graph.arcs,
            return_arc: d.graph.return_arc,
            input_targets: d.graph.input_targets,
        },
        main_arity: d.main_arity,
        sf_dependencies: d.sf_dependencies,
    });
}

/// Generates one operator per distinct `nth` entry, drops the index and length
/// inputs of the `nth` operators, moves their tuple input to port 0, and renames
/// them to the operators generated for them.
pub fn generate_nths(compiled_algo: &mut OhuaData) -> (t: Tokens)
    requires
        nths_ok(old(compiled_algo).deep_view()),
    ensures
        t@ == spec_nth_code(old(compiled_algo).deep_view()),
        final(compiled_algo).deep_view() == spec_generate_nths(old(compiled_algo).deep_view()),
{
    proof { reveal(spec_generate_nths); }
    let ghost d = compiled_algo.deep_view();
    let nths = collect_nth_entries(compiled_algo);
    let table = sort_dedup_triples(&nths);
    assert(table@ == nth_table(d));
    let t = nth_code(&table);
    drop_nth_literals(compiled_algo);
    rename_nths(compiled_algo, &table);
    assert(compiled_algo.deep_view() =~= spec_generate_nths(d));
    t
}

// ---------------------------------------------------------------------------
// Namespaces

/// The namespace in which the compiler places the operators of the language.
pub open spec fn compiler_lang_namespace() -> Seq<Seq<char>> {
    seq!["ohua"@, "lang"@]
}

/// An operator of the language, moved from the compiler's namespace to the runtime's.
pub open spec fn runtime_imported(o: OperatorM) -> OperatorM {
    if o.ty.namespace == compiler_lang_namespace() {
        OperatorM { id: o.id, ty: OperatorTypeM { namespace: runtime_namespace(), name: o.ty.name }, node: o.node }
    } else {
        o
    }
}

/// The graph with every operator of `ohua::lang` moved to `ohua_runtime::lang`.
pub open spec fn spec_alter_ohua_ns_imports(d: OhuaDataM) -> OhuaDataM {
    OhuaDataM {
        graph: DFGraphM {
            operators: d.graph.operators.map_values(|o: OperatorM| runtime_imported(o)),
            arcs: d.graph.arcs,
            return_arc: d.graph.return_arc,
            input_targets: d.graph.input_targets,
        },
        main_arity: d.main_arity,
        sf_dependencies: d.sf_dependencies,
    }
}

/// Whether the namespace is `ohua::lang`.
fn is_compiler_lang(ns: &Vec<String>) -> (r: bool)
    ensures
        r == (ns.deep_view() == compiler_lang_namespace()),
{
    let r = ns.len() == 2 && string_is(&ns[0], "ohua") && string_is(&ns[1], "lang");
    proof {
        if r {
            assert(ns.deep_view() =~= compiler_lang_namespace());
        } else if ns.deep_view() == compiler_lang_namespace() {
            assert(ns.deep_view().len() == ns@.len());
            assert(ns.deep_view()[0] == ns@[0]@);
            assert(ns.deep_view()[1] == ns@[1]@);
        }
    }
    r
}

/// Moves the operators of the language from the compiler's namespace `ohua::lang`
/// to the runtime's `ohua_runtime::lang`.
pub fn alter_ohua_ns_imports(data: &mut OhuaData)
    ensures
        final(data).deep_view() == spec_alter_ohua_ns_imports(old(data).deep_view()),
{
    let ghost d = data.deep_view();
    let ghost ov = d.graph.operators;
    let ghost rf = |o: OperatorM| runtime_imported(o);
    let n = data.graph.operators.len();
    let mut i: usize = 0;
    while i < n
        invariant
            i <= n,
            n == ov.len(),
            ov == d.graph.operators,
            rf == (|o: OperatorM| runtime_imported(o)),
            data.graph.operators@.len() == n,
            forall|j: int| 0 <= j < i ==> #[trigger] data.graph.operators.deep_view()[j] == rf(ov[j]),
            forall|j: int| i <= j < n ==> #[trigger] data.graph.operators.deep_view()[j] == ov[j],
            data.graph.arcs.deep_view() == d.graph.arcs,
            data.graph.return_arc == d.graph.return_arc,
            data.graph.input_targets.deep_view() == d.graph.input_targets,
            data.mainArity == d.main_arity,
            data.sfDependencies.deep_view() == d.sf_dependencies,
        decreases n - i,
    {
        let ghost cur_v = data.graph.operators@;
        let ghost cur = data.graph.operators.deep_view();
        assert(cur[i as int] == ov[i as int]);
        assert(cur_v[i as int].deep_view() == cur[i as int]);
        if is_compiler_lang(&data.graph.operators[i].operatorType.qbNamespace) {
            let id = data.graph.operators[i].operatorId;
            let node = data.graph.operators[i].nodeType;
            let name = data.graph.operators[i].operatorType.qbName.clone();
            let mut ns: Vec<String> = Vec::new();
            ns.push(String::from_str("ohua_runtime"));
            ns.push(String::from_str("lang"));
            data.graph.operators.set(i, Operator {
                operatorId: id,
                operatorType: OperatorType { qbNamespace: ns, qbName: name },
                nodeType: node,
            });
            proof {
                reveal_strlit("ohua_runtime");
                reveal_strlit("lang");
                let nv = data.graph.operators@[i as int].operatorType.qbNamespace;
                assert(nv.deep_view() =~= runtime_namespace());
                assert(data.graph.operators.deep_view()[i as int] == rf(ov[i as int]));
                assert forall|j: int| 0 <= j < n && j != i implies #[trigger] data.graph.operators.deep_view()[j] == cur[j] by {
                    assert(data.graph.operators@[j] == cur_v[j]);
                    assert(cur[j] == cur_v[j].deep_view());
                }
            }
        } else {
            assert(rf(ov[i as int]) == ov[i as int]);
        }
        i = i + 1;
    }
    assert(data.graph.operators.deep_view() =~= ov.map_values(rf));
    assert(data.deep_view() =~= spec_alter_ohua_ns_imports(d));
}

} // verus!
