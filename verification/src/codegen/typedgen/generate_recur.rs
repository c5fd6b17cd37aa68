//! Specialisation of the `recurFun` operators of a graph to their arities.
use vstd::prelude::*;
use bit_set::BitSet;
use crate::codegen::lang::generate_recur::{generate as generate_recur_operator, generate_fun_name, recur_fun_name, recur_operator};
use crate::codegen::ohua_types::{Arcs, DFGraphM, DirectArcM, NodeType, OhuaData, OhuaDataM, Operator, OperatorM, OperatorType, OperatorTypeM};
use crate::codegen::typedgen::{is_runtime_op, runtime_namespace, spec_in_arcs};
use crate::seqs::{lemma_sorted_set_unique, concat, ints_usize, lemma_concat_map_push, lemma_filter_step, sorted_set_usize, strictly_sorted, lemma_sorted_set_is, lemma_ints_usize_roundtrip, lemma_to_set_push_any, lemma_ints_usize_same_set};
use crate::text::{string_is, Tokens};

verus! {

/// A set of arities, each recorded once, held in a `bit_set::BitSet`.
#[verifier::external_body]
pub struct SimpleTracker {
    set: BitSet,
}

/// The arities a tracker has recorded.
pub uninterp spec fn ticks(t: SimpleTracker) -> Set<usize>;

impl SimpleTracker {
    /// `BitSet::new`: a tracker that has recorded nothing.
    #[verifier::external_body]
    pub fn new() -> (t: SimpleTracker)
        ensures
            ticks(t) == Set::<usize>::empty(),
    {
        SimpleTracker { set: BitSet::new() }
    }

    /// `BitSet::insert`: records an arity. The set grows its bit vector to `i + 1`
    /// bits, so `i` is below `usize::MAX`; the memory that a large value takes is
    /// not stated.
    #[verifier::external_body]
    pub fn tick(&mut self, i: usize)
        requires
            i < usize::MAX,
        ensures
            ticks(*final(self)) == ticks(*old(self)).insert(i),
    {
        self.set.insert(i);
    }

    /// `BitSet::iter`, collected: the source walks the bit blocks from the lowest,
    /// and each block from its lowest bit, so every recorded arity comes once, in
    /// increasing order.
    #[verifier::external_body]
    pub fn ticked(&self) -> (r: Vec<usize>)
        ensures
            strictly_sorted(ints_usize(r@)),
            r@.to_set() == ticks(*self),
    {
        self.set.iter().collect()
    }
}

/// `r` is a listing of the tracker, as `ticked` gives it: its arities, each once,
/// in increasing order.
pub open spec fn lists_ticks(r: Seq<usize>, t: SimpleTracker) -> bool {
    strictly_sorted(ints_usize(r)) && r.to_set() == ticks(t)
}

/// The arities recorded after the arities `s` are ticked in order on a tracker
/// that had recorded `start`, as the contract of `tick` gives them.
pub open spec fn ticks_after(start: Set<usize>, s: Seq<usize>) -> Set<usize>
    decreases s.len(),
{
    if s.len() == 0 {
        start
    } else {
        ticks_after(start, s.drop_last()).insert(s.last())
    }
}

/// Two trackers that have recorded the same arities list the same.
pub proof fn lemma_same_ticks_same_listing(t1: SimpleTracker, t2: SimpleTracker, r1: Seq<usize>, r2: Seq<usize>)
    requires
        ticks(t1) == ticks(t2),
        lists_ticks(r1, t1),
        lists_ticks(r2, t2),
    ensures
        r1 == r2,
{
    lemma_ints_usize_same_set(r1, r2);
    lemma_sorted_set_unique(ints_usize(r1), ints_usize(r2));
    lemma_ints_usize_roundtrip(r1);
    lemma_ints_usize_roundtrip(r2);
}

/// Ticking an arity twice lists the same as ticking it once.
pub proof fn lemma_tick_twice_lists_as_once(t: SimpleTracker, i: usize, t1: SimpleTracker, r1: Seq<usize>, t2: SimpleTracker, r2: Seq<usize>)
    requires
        ticks(t1) == ticks(t).insert(i).insert(i),
        ticks(t2) == ticks(t).insert(i),
        lists_ticks(r1, t1),
        lists_ticks(r2, t2),
    ensures
        r1 == r2,
{
    assert(ticks(t).insert(i).insert(i) =~= ticks(t).insert(i));
    lemma_same_ticks_same_listing(t1, t2, r1, r2);
}

/// Ticking two arities in either order lists the same.
pub proof fn lemma_tick_order_lists_the_same(t: SimpleTracker, i: usize, j: usize, t1: SimpleTracker, r1: Seq<usize>, t2: SimpleTracker, r2: Seq<usize>)
    requires
        ticks(t1) == ticks(t).insert(i).insert(j),
        ticks(t2) == ticks(t).insert(j).insert(i),
        lists_ticks(r1, t1),
        lists_ticks(r2, t2),
    ensures
        r1 == r2,
{
    assert(ticks(t).insert(i).insert(j) =~= ticks(t).insert(j).insert(i));
    lemma_same_ticks_same_listing(t1, t2, r1, r2);
}

/// Ticking the arities `s` in order on an empty tracker records exactly them.
proof fn lemma_ticks_after_empty(s: Seq<usize>)
    ensures
        ticks_after(Set::empty(), s) == s.to_set(),
    decreases s.len(),
{
    if s.len() > 0 {
        lemma_ticks_after_empty(s.drop_last());
        lemma_to_set_push_any(s.drop_last(), s.last());
        assert(s.drop_last().push(s.last()) =~= s);
    } else {
        assert(s.to_set() =~= Set::<usize>::empty());
    }
}

/// A new tracker on which the arities `s` were ticked in order, in any order and
/// with repeats, lists each of them once, in increasing order.
pub proof fn lemma_ticked_lists_each_arity_once(t: SimpleTracker, s: Seq<usize>, r: Seq<usize>)
    requires
        ticks(t) == ticks_after(Set::empty(), s),
        lists_ticks(r, t),
    ensures
        r == sorted_set_usize(s),
{
    lemma_ticks_after_empty(s);
    lemma_ints_usize_same_set(r, s);
    lemma_sorted_set_is(ints_usize(s), ints_usize(r));
    lemma_ints_usize_roundtrip(r);
}

/// `s` with every run of equal neighbours reduced to its first element, as
/// `Vec::dedup` leaves it.
pub open spec fn dedup_adjacent(s: Seq<i32>) -> Seq<i32>
    decreases s.len(),
{
    if s.len() == 0 {
        s
    } else {
        let r = dedup_adjacent(s.drop_last());
        if r.len() > 0 && r.last() == s.last() {
            r
        } else {
            r.push(s.last())
        }
    }
}

/// The input ports of the arcs that end at the operator, in order.
pub open spec fn target_ports(op_id: i32, arcs: Seq<DirectArcM>) -> Seq<i32> {
    spec_in_arcs(op_id, arcs).map_values(|a: DirectArcM| a.target.index)
}

/// The number of arguments of a `recurFun` operator: its input ports, without
/// repeats of neighbouring ports, less the condition and the result, halved for
/// the initial and the looping arguments.
pub open spec fn recursion_arity(op_id: i32, arcs: Seq<DirectArcM>) -> usize {
    ((dedup_adjacent(target_ports(op_id, arcs)).len() - 2) / 2) as usize
}

/// The `recurFun` operator has at least the condition and the result port.
pub open spec fn recursion_ok(op_id: i32, arcs: Seq<DirectArcM>) -> bool {
    dedup_adjacent(target_ports(op_id, arcs)).len() >= 2
}

/// The input ports of the arcs that end at the operator, runs of equal
/// neighbours reduced to one.
pub(crate) fn dedup_target_ports(op_id: i32, arcs: &Arcs) -> (x: Vec<i32>)
    ensures
        x@ == dedup_adjacent(target_ports(op_id, arcs.direct.deep_view())),
{
    let ghost av = arcs.direct.deep_view();
    let ghost ip = |a: DirectArcM| a.target.operator == op_id;
    let mut x: Vec<i32> = Vec::new();
    let n = arcs.direct.len();
    let mut i: usize = 0;
    let ghost mut seen: Seq<i32> = Seq::empty();
    assert(av.subrange(0, 0).filter(ip).map_values(|a: DirectArcM| a.target.index) =~= seen);
    while i < n
        invariant
            i <= n,
            n == av.len(),
            av == arcs.direct.deep_view(),
            ip == (|a: DirectArcM| a.target.operator == op_id),
            seen == av.subrange(0, i as int).filter(ip).map_values(|a: DirectArcM| a.target.index),
            x@ == dedup_adjacent(seen),
        decreases n - i,
    {
        proof { lemma_filter_step(av, ip, i as int); }
        assert(arcs.direct@[i as int].deep_view() == av[i as int]);
        let t = arcs.direct[i].target;
        if t.operator == op_id {
            let ghost prev = seen;
            proof {
                seen = seen.push(t.index);
                assert(seen.drop_last() =~= prev);
                assert(av.subrange(0, i as int).filter(ip).push(av[i as int]).map_values(|a: DirectArcM| a.target.index)
                    =~= prev.push(t.index));
            }
            let l = x.len();
            if l == 0 || x[l - 1] != t.index {
                x.push(t.index);
            }
        }
        i = i + 1;
    }
    assert(av.subrange(0, n as int) =~= av);
    x
}

/// Determines the number of arguments of a `recurFun` operator.
fn determine_recursion_arity(op_id: i32, arcs: &Arcs) -> (r: usize)
    requires
        recursion_ok(op_id, arcs.direct.deep_view()),
    ensures
        r == recursion_arity(op_id, arcs.direct.deep_view()),
        r < usize::MAX,
{
    let x = dedup_target_ports(op_id, arcs);
    (x.len() - 2) / 2
}

/// The operator is the `recurFun` operator of the runtime.
pub open spec fn is_recur(o: OperatorM) -> bool {
    o.ty.namespace == runtime_namespace() && o.ty.name == "recurFun"@ && o.node == NodeType::OperatorNode
}

/// Whether the operator is the `recurFun` operator of the runtime.
pub(crate) fn is_recur_op(op: &Operator) -> (r: bool)
    ensures
        r == is_recur(op.deep_view()),
{
    is_runtime_op(op) && string_is(&op.operatorType.qbName, "recurFun") && op.nodeType == NodeType::OperatorNode
}

/// A `recurFun` operator renamed to the generated `recur_n` in the root namespace.
pub open spec fn recur_renamed(o: OperatorM, arcs: Seq<DirectArcM>) -> OperatorM {
    if is_recur(o) {
        OperatorM {
            id: o.id,
            ty: OperatorTypeM { namespace: Seq::empty(), name: recur_fun_name(recursion_arity(o.id, arcs) as nat) },
            node: o.node,
        }
    } else {
        o
    }
}

/// The arities of the `recurFun` operators, in the order of the operators.
pub open spec fn recur_arities(d: OhuaDataM) -> Seq<usize> {
    d.graph.operators.filter(|o: OperatorM| is_recur(o)).map_values(
        |o: OperatorM| recursion_arity(o.id, d.graph.arcs.direct),
    )
}

/// One `recur` operator per distinct arity, in increasing order.
pub open spec fn spec_recur_code(d: OhuaDataM) -> Seq<Seq<char>> {
    concat(sorted_set_usize(recur_arities(d)).map_values(|a: usize| recur_operator(a as nat)))
}

/// The graph with every `recurFun` operator renamed to its generated operator.
#[verifier::opaque]
pub open spec fn spec_generate_recur(d: OhuaDataM) -> OhuaDataM {
    OhuaDataM {
        graph: DFGraphM {
            operators: d.graph.operators.map_values(|o: OperatorM| recur_renamed(o, d.graph.arcs.direct)),
            arcs: d.graph.arcs,
            return_arc: d.graph.return_arc,
            input_targets: d.graph.input_targets,
        },
        main_arity: d.main_arity,
        sf_dependencies: d.sf_dependencies,
    }
}

/// Every `recurFun` operator has a condition and a result port.
pub open spec fn recurs_ok(d: OhuaDataM) -> bool {
    forall|k: int|
        0 <= k < d.graph.operators.len() && is_recur(d.graph.operators[k])
            ==> recursion_ok(#[trigger] d.graph.operators[k].id, d.graph.arcs.direct)
}

/// Renames every `recurFun` operator to the operator generated for its arity, and
/// generates one such operator per distinct arity.
pub fn generate(algo: &mut OhuaData) -> (t: Tokens)
    requires
        recurs_ok(old(algo).deep_view()),
    ensures
        t@ == spec_recur_code(old(algo).deep_view()),
        final(algo).deep_view() == spec_generate_recur(old(algo).deep_view()),
{
    proof { reveal(spec_generate_recur); }
    let ghost d = algo.deep_view();
    let ghost ov = d.graph.operators;
    let ghost av = d.graph.arcs.direct;
    let ghost rp = |o: OperatorM| is_recur(o);
    let ghost af = |o: OperatorM| recursion_arity(o.id, av);
    let ghost rf = |o: OperatorM| recur_renamed(o, av);
    let mut arity_tracker = SimpleTracker::new();
    let n = algo.graph.operators.len();
    let mut i: usize = 0;
    assert(ov.subrange(0, 0).filter(rp).map_values(af).to_set() =~= Set::empty());
    while i < n
        invariant
            i <= n,
            n == ov.len(),
            ov == d.graph.operators,
            av == d.graph.arcs.direct,
            recurs_ok(d),
            rp == (|o: OperatorM| is_recur(o)),
            af == (|o: OperatorM| recursion_arity(o.id, av)),
            rf == (|o: OperatorM| recur_renamed(o, av)),
            ticks(arity_tracker) == ov.subrange(0, i as int).filter(rp).map_values(af).to_set(),
            algo.graph.operators@.len() == n,
            forall|j: int| 0 <= j < i ==> #[trigger] algo.graph.operators.deep_view()[j] == rf(ov[j]),
            forall|j: int| i <= j < n ==> #[trigger] algo.graph.operators.deep_view()[j] == ov[j],
            algo.graph.arcs.deep_view() == d.graph.arcs,
            algo.graph.return_arc == d.graph.return_arc,
            algo.graph.input_targets.deep_view() == d.graph.input_targets,
            algo.mainArity == d.main_arity,
            algo.sfDependencies.deep_view() == d.sf_dependencies,
        decreases n - i,
    {
        proof { lemma_filter_step(ov, rp, i as int); }
        let ghost cur_v = algo.graph.operators@;
        let ghost cur = algo.graph.operators.deep_view();
        assert(cur[i as int] == ov[i as int]);
        assert(cur_v[i as int].deep_view() == cur[i as int]);
        if is_recur_op(&algo.graph.operators[i]) {
            let id = algo.graph.operators[i].operatorId;
            let node = algo.graph.operators[i].nodeType;
            assert(recursion_ok(ov[i as int].id, av));
            assert(algo.graph.arcs.direct.deep_view() == av);
            let arity = determine_recursion_arity(id, &algo.graph.arcs);
            let name = generate_fun_name(arity);
            algo.graph.operators.set(i, Operator {
                operatorId: id,
                operatorType: OperatorType { qbNamespace: Vec::new(), qbName: name },
                nodeType: node,
            });
            let ghost before_ticks = ticks(arity_tracker);
            arity_tracker.tick(arity);
            proof {
                let nv = algo.graph.operators@[i as int].operatorType.qbNamespace;
                assert(nv.deep_view() =~= Seq::<Seq<char>>::empty());
                assert(algo.graph.operators.deep_view()[i as int] == rf(ov[i as int]));
                assert forall|j: int| 0 <= j < n && j != i implies #[trigger] algo.graph.operators.deep_view()[j] == cur[j] by {
                    assert(algo.graph.operators@[j] == cur_v[j]);
                    assert(cur[j] == cur_v[j].deep_view());
                }
                let p = ov.subrange(0, i as int).filter(rp).map_values(af);
                assert(ov.subrange(0, i as int).filter(rp).push(ov[i as int]).map_values(af) =~= p.push(arity));
                lemma_to_set_push_any(p, arity);
            }
        } else {
            assert(rf(ov[i as int]) == ov[i as int]);
        }
        i = i + 1;
    }
    assert(ov.subrange(0, n as int) =~= ov);
    assert(algo.graph.operators.deep_view() =~= ov.map_values(rf));
    assert(algo.deep_view() =~= spec_generate_recur(d));

    let arities = arity_tracker.ticked();
    proof {
        let sv = arities@;
        lemma_ints_usize_same_set(sv, recur_arities(d));
        lemma_sorted_set_is(ints_usize(recur_arities(d)), ints_usize(sv));
        lemma_ints_usize_roundtrip(sv);
        assert(sv == sorted_set_usize(recur_arities(d)));
    }
    let ghost sv = arities@;
    let ghost cf = |a: usize| recur_operator(a as nat);
    let mut t = Tokens::new();
    let m = arities.len();
    let mut j: usize = 0;
    assert(t@ =~= concat(sv.subrange(0, 0).map_values(cf)));
    while j < m
        invariant
            j <= m,
            m == sv.len(),
            sv == arities@,
            cf == (|a: usize| recur_operator(a as nat)),
            t@ == concat(sv.subrange(0, j as int).map_values(cf)),
        decreases m - j,
    {
        let a = arities[j];
        let c = generate_recur_operator(a);
        t.extend(&c);
        proof {
            lemma_concat_map_push(sv.subrange(0, j as int), a, cf);
            assert(sv.subrange(0, (j + 1) as int) =~= sv.subrange(0, j as int).push(a));
        }
        j = j + 1;
    }
    assert(sv.subrange(0, m as int) =~= sv);
    t
}

} // verus!
