//! The tasks of a compiled algorithm: one closure per stateful function and per
//! operator, each pulling its inputs from channels and dispatching its results.
#![allow(non_snake_case)]

use vstd::prelude::*;
use crate::codegen::ohua_types::{
    ArcSource, ArcSourceM, DirectArc, DirectArcM, Envs, EnvsM, NodeType, OhuaData, OhuaDataM,
    Operator, OperatorM, StateArc, StateArcM,
};
use crate::codegen::typedgen::{
    get_in_arcs, in_var_name, is_env, local_arcs_named, spec_in_arcs, spec_out_arcs_vec,
    state_recv_name, generate_out_arcs_vec, generate_var_for_in_arc,
    generate_recv_var_for_state_arc, out_arcs_named, from_op, out_arc_var_ok,
};
use crate::seqs::{
    concat, join_sep, lemma_concat_map_push, lemma_filter_step, sort_dedup_i32, sorted_set_i32,
};
use crate::text::{i32_to_string, int_decimal, starts_with, string_starts_with, Tokens};

verus! {

// ---------------------------------------------------------------------------
// Inputs of a call

/// How a constant is handed to a node: as it is to a stateful function,
/// wrapped in `send_once ( .. )` to an operator, which reads it from an arc.
pub open spec fn constant_input(node: NodeType, t: Seq<Seq<char>>) -> Seq<Seq<char>> {
    match node {
        NodeType::FunctionNode => t,
        NodeType::OperatorNode => seq!["send_once"@, "("@] + t + seq![")"@],
    }
}

/// `Unit { }`
pub open spec fn unit_lit() -> Seq<Seq<char>> {
    seq!["Unit"@, "{"@, "}"@]
}

/// The code that feeds one input arc into a call: the algorithm's call argument
/// for an environment reference, a constant for a literal, the receiving end of
/// the arc for a local arc.
pub open spec fn in_arc_code(a: DirectArcM, node: NodeType, args: Seq<Seq<Seq<char>>>) -> Seq<Seq<char>> {
    match a.source {
        ArcSourceM::Env(EnvsM::EnvRefLit(i)) => args[i as int],
        ArcSourceM::Env(EnvsM::NumericLit(n)) => constant_input(node, seq![int_decimal(n as int)]),
        ArcSourceM::Env(EnvsM::UnitLit) => constant_input(node, unit_lit()),
        ArcSourceM::Env(EnvsM::FunRefLit(ty, _)) => constant_input(node, seq![ty.name]),
        ArcSourceM::Local(_) => seq![in_var_name(a.target.operator, a.target.index)],
    }
}

/// The code of an input arc can be formed: an environment reference names one of
/// the `nargs` call arguments, a local arc ends at a port above `-2`.
pub open spec fn in_arc_ok(a: DirectArcM, nargs: int) -> bool {
    match a.source {
        ArcSourceM::Env(EnvsM::EnvRefLit(j)) => 0 <= j < nargs,
        ArcSourceM::Local(_) => a.target.index > -2,
        _ => true,
    }
}

/// Every input arc of `op` outside the control port can be turned into code.
pub open spec fn in_arcs_ok(op: i32, arcs: Seq<DirectArcM>, nargs: int) -> bool {
    forall|j: int|
        0 <= j < spec_in_arcs(op, arcs).len() && spec_in_arcs(op, arcs)[j].target.index != -1
            ==> in_arc_ok(#[trigger] spec_in_arcs(op, arcs)[j], nargs)
}

/// The input ports of the arcs that end at `op`, in order.
pub open spec fn in_ports(op: i32, arcs: Seq<DirectArcM>) -> Seq<i32> {
    spec_in_arcs(op, arcs).map_values(|a: DirectArcM| a.target.index)
}

/// The arcs that end at port `k` of `op`, in order.
pub open spec fn in_port_group(op: i32, arcs: Seq<DirectArcM>, k: i32) -> Seq<DirectArcM> {
    spec_in_arcs(op, arcs).filter(|a: DirectArcM| a.target.index == k)
}

/// The arcs that end at `op`, ordered by input port (a stable sort), without the
/// control port `-1`.
pub open spec fn call_arcs(op: i32, arcs: Seq<DirectArcM>) -> Seq<DirectArcM> {
    concat(
        sorted_set_i32(in_ports(op, arcs)).filter(|k: i32| k != -1).map_values(
            |k: i32| in_port_group(op, arcs, k),
        ),
    )
}

/// The arguments of the call of `op`, one per input arc, ordered by port.
pub open spec fn spec_in_arcs_vec(op: i32, node: NodeType, arcs: Seq<DirectArcM>, args: Seq<Seq<Seq<char>>>) -> Seq<Seq<Seq<char>>> {
    call_arcs(op, arcs).map_values(|a: DirectArcM| in_arc_code(a, node, args))
}

/// `send_once ( t )` for operators, `t` otherwise.
fn constant_input_tokens(node: &NodeType, t: Tokens) -> (r: Tokens)
    ensures
        r@ == constant_input(*node, t@),
{
    match node {
        NodeType::FunctionNode => t,
        NodeType::OperatorNode => {
            let mut r = Tokens::new();
            r.push("send_once");
            r.push("(");
            r.extend(&t);
            r.push(")");
            assert(r@ =~= constant_input(*node, t@));
            r
        },
    }
}

/// A literal input (a number, the unit value or a function reference) reaches a
/// stateful function as the literal itself, and an operator, which reads its
/// inputs from arcs, as `send_once ( literal )`.
pub proof fn lemma_literal_inputs(a: DirectArcM, args: Seq<Seq<Seq<char>>>)
    ensures
        match a.source {
            ArcSourceM::Env(EnvsM::NumericLit(n)) => {
                &&& in_arc_code(a, NodeType::FunctionNode, args) == seq![int_decimal(n as int)]
                &&& in_arc_code(a, NodeType::OperatorNode, args)
                    == seq!["send_once"@, "("@, int_decimal(n as int), ")"@]
            },
            ArcSourceM::Env(EnvsM::UnitLit) => {
                &&& in_arc_code(a, NodeType::FunctionNode, args) == seq!["Unit"@, "{"@, "}"@]
                &&& in_arc_code(a, NodeType::OperatorNode, args)
                    == seq!["send_once"@, "("@, "Unit"@, "{"@, "}"@, ")"@]
            },
            ArcSourceM::Env(EnvsM::FunRefLit(ty, _)) => {
                &&& in_arc_code(a, NodeType::FunctionNode, args) == seq![ty.name]
                &&& in_arc_code(a, NodeType::OperatorNode, args) == seq!["send_once"@, "("@, ty.name, ")"@]
            },
            _ => true,
        },
{
    match a.source {
        ArcSourceM::Env(EnvsM::NumericLit(n)) => {
            assert(in_arc_code(a, NodeType::OperatorNode, args) =~= seq!["send_once"@, "("@, int_decimal(n as int), ")"@]);
        },
        ArcSourceM::Env(EnvsM::UnitLit) => {
            assert(in_arc_code(a, NodeType::OperatorNode, args) =~= seq!["send_once"@, "("@, "Unit"@, "{"@, "}"@, ")"@]);
        },
        ArcSourceM::Env(EnvsM::FunRefLit(ty, _)) => {
            assert(in_arc_code(a, NodeType::OperatorNode, args) =~= seq!["send_once"@, "("@, ty.name, ")"@]);
        },
        _ => {},
    }
}

/// The code that feeds one input arc into a call.
fn in_arc_tokens(a: &DirectArc, node: &NodeType, algo_call_args: &Vec<Tokens>) -> (t: Tokens)
    requires
        in_arc_ok(a.deep_view(), algo_call_args@.len() as int),
    ensures
        t@ == in_arc_code(a.deep_view(), *node, algo_call_args.deep_view()),
{
    match &a.source {
        ArcSource::Env(Envs::EnvRefLit { content }) => {
            let i = *content as usize;
            assert(algo_call_args.deep_view()[i as int] == algo_call_args@[i as int]@);
            algo_call_args[i].copy()
        },
        ArcSource::Env(Envs::NumericLit { content }) => {
            let mut t = Tokens::new();
            t.push_string(i32_to_string(*content));
            constant_input_tokens(node, t)
        },
        ArcSource::Env(Envs::UnitLit {}) => {
            let mut t = Tokens::new();
            t.push("Unit");
            t.push("{");
            t.push("}");
            constant_input_tokens(node, t)
        },
        ArcSource::Env(Envs::FunRefLit { contents }) => {
            let mut t = Tokens::new();
            t.push_string(contents.0.qbName.clone());
            constant_input_tokens(node, t)
        },
        ArcSource::Local(_) => {
            let mut t = Tokens::new();
            t.push_string(generate_var_for_in_arc(&a.target.operator, &a.target.index));
            t
        },
    }
}

/// Generates the arguments of the call of `op`: one per input arc outside the
/// control port, ordered by input port.
pub fn generate_in_arcs_vec(op: &i32, node_type: &NodeType, arcs: &Vec<DirectArc>, algo_call_args: &Vec<Tokens>) -> (r: Vec<Tokens>)
    requires
        in_arcs_ok(*op, arcs.deep_view(), algo_call_args@.len() as int),
    ensures
        r.deep_view() == spec_in_arcs_vec(*op, *node_type, arcs.deep_view(), algo_call_args.deep_view()),
{
    let ghost av = arcs.deep_view();
    let ghost argv = algo_call_args.deep_view();
    let ghost f = |a: DirectArcM| in_arc_code(a, *node_type, argv);
    let ghost nc = |k: i32| k != -1;
    let ghost grp = |k: i32| in_port_group(*op, av, k);
    let in_arcs = get_in_arcs(op, arcs);
    let ghost iv = in_arcs.deep_view();
    let mut keys: Vec<i32> = Vec::new();
    let n = in_arcs.len();
    let mut i: usize = 0;
    while i < n
        invariant
            i <= n,
            n == in_arcs@.len(),
            iv == in_arcs.deep_view(),
            keys@ == iv.subrange(0, i as int).map_values(|a: DirectArcM| a.target.index),
        decreases n - i,
    {
        assert(in_arcs@[i as int].deep_view() == iv[i as int]);
        keys.push(in_arcs[i].target.index);
        assert(iv.subrange(0, (i + 1) as int) =~= iv.subrange(0, i as int).push(iv[i as int]));
        assert(keys@ =~= iv.subrange(0, (i + 1) as int).map_values(|a: DirectArcM| a.target.index));
        i = i + 1;
    }
    assert(iv.subrange(0, n as int) =~= iv);
    let ks = sort_dedup_i32(&keys);
    let mut r: Vec<Tokens> = Vec::new();
    let ghost mut done: Seq<DirectArcM> = Seq::empty();
    let m = ks.len();
    let mut i: usize = 0;
    assert(done =~= concat(ks@.subrange(0, 0).filter(nc).map_values(grp)));
    assert(r.deep_view() =~= done.map_values(f));
    while i < m
        invariant
            i <= m,
            m == ks@.len(),
            n == in_arcs@.len(),
            av == arcs.deep_view(),
            argv == algo_call_args.deep_view(),
            iv == in_arcs.deep_view(),
            iv == spec_in_arcs(*op, av),
            ks@ == sorted_set_i32(in_ports(*op, av)),
            in_arcs_ok(*op, av, algo_call_args@.len() as int),
            f == (|a: DirectArcM| in_arc_code(a, *node_type, argv)),
            nc == (|k: i32| k != -1),
            grp == (|k: i32| in_port_group(*op, av, k)),
            done == concat(ks@.subrange(0, i as int).filter(nc).map_values(grp)),
            r.deep_view() == done.map_values(f),
        decreases m - i,
    {
        let k = ks[i];
        proof { lemma_filter_step(ks@, nc, i as int); }
        if k != -1 {
            let ghost base = done;
            let ghost gp = |a: DirectArcM| a.target.index == k;
            let mut j: usize = 0;
            assert(done =~= base + iv.subrange(0, 0).filter(gp));
            while j < n
                invariant
                    j <= n,
                    n == in_arcs@.len(),
                    k != -1,
                    iv == in_arcs.deep_view(),
                    iv == spec_in_arcs(*op, av),
                    argv == algo_call_args.deep_view(),
                    in_arcs_ok(*op, av, algo_call_args@.len() as int),
                    f == (|a: DirectArcM| in_arc_code(a, *node_type, argv)),
                    gp == (|a: DirectArcM| a.target.index == k),
                    done == base + iv.subrange(0, j as int).filter(gp),
                    r.deep_view() == done.map_values(f),
                decreases n - j,
            {
                proof { lemma_filter_step(iv, gp, j as int); }
                let a = in_arcs[j];
                assert(a.deep_view() == iv[j as int]);
                if a.target.index == k {
                    assert(in_arc_ok(iv[j as int], algo_call_args@.len() as int));
                    let code = in_arc_tokens(a, node_type, algo_call_args);
                    let ghost old_dv = r.deep_view();
                    r.push(code);
                    proof {
                        assert(r.deep_view() =~= old_dv.push(f(iv[j as int])));
                        assert(done.push(iv[j as int]).map_values(f) =~= done.map_values(f).push(f(iv[j as int])));
                        done = done.push(iv[j as int]);
                        assert(done =~= base + iv.subrange(0, (j + 1) as int).filter(gp));
                    }
                } else {
                    assert(done =~= base + iv.subrange(0, (j + 1) as int).filter(gp));
                }
                j = j + 1;
            }
            proof {
                assert(iv.subrange(0, n as int) =~= iv);
                assert(iv.filter(gp) == grp(k));
                lemma_concat_map_push(ks@.subrange(0, i as int).filter(nc), k, grp);
            }
        }
        i = i + 1;
    }
    assert(ks@.subrange(0, m as int) =~= ks@);
    r
}

// ---------------------------------------------------------------------------
// Stateful functions

/// `o . dispatch ( r ) ?` for one output, each output with its own clone of
/// `r` for several, `result_snd . dispatch ( r ) ? ;` for the node that returns
/// the result of the algorithm, nothing otherwise.
pub open spec fn send_code(r: Seq<char>, outputs: Seq<Seq<char>>, op: i32, final_op: i32) -> Seq<Seq<char>> {
    if outputs.len() == 0 {
        if op == final_op {
            seq!["result_snd"@, "."@, "dispatch"@, "("@, r, ")"@, "?"@, ";"@]
        } else {
            Seq::empty()
        }
    } else if outputs.len() == 1 {
        seq![outputs[0], "."@, "dispatch"@, "("@, r, ")"@, "?"@]
    } else {
        join_sep(
            outputs.map_values(|o: Seq<char>| seq![o, "."@, "dispatch"@, "("@, r, "."@, "clone"@, "("@, ")"@, ")"@, "?"@]),
            ";"@,
        ) + seq![";"@]
    }
}

/// One dispatch of a clone of `r` to output `o`.
fn clone_dispatch(o: &String, r: &String) -> (t: Tokens)
    ensures
        t@ == seq![o@, "."@, "dispatch"@, "("@, r@, "."@, "clone"@, "("@, ")"@, ")"@, "?"@],
{
    let mut t = Tokens::new();
    t.push_string(o.clone());
    t.push(".");
    t.push("dispatch");
    t.push("(");
    t.push_string(r.clone());
    t.push(".");
    t.push("clone");
    t.push("(");
    t.push(")");
    t.push(")");
    t.push("?");
    assert(t@ =~= seq![o@, "."@, "dispatch"@, "("@, r@, "."@, "clone"@, "("@, ")"@, ")"@, "?"@]);
    t
}

/// Generates the code that sends the result `r` of a node to its outputs.
pub fn generate_send(r: &String, outputs: &Vec<String>, op: &i32, final_op: &i32) -> (t: Tokens)
    ensures
        t@ == send_code(r@, outputs.deep_view(), *op, *final_op),
{
    let mut t = Tokens::new();
    if outputs.len() == 0 {
        if *op == *final_op {
            t.push("result_snd");
            t.push(".");
            t.push("dispatch");
            t.push("(");
            t.push_string(r.clone());
            t.push(")");
            t.push("?");
            t.push(";");
        }
    } else if outputs.len() == 1 {
        t.push_string(outputs[0].clone());
        t.push(".");
        t.push("dispatch");
        t.push("(");
        t.push_string(r.clone());
        t.push(")");
        t.push("?");
    } else {
        let ghost ov = outputs.deep_view();
        let ghost g = |o: Seq<char>| seq![o, "."@, "dispatch"@, "("@, r@, "."@, "clone"@, "("@, ")"@, ")"@, "?"@];
        let mut parts: Vec<Tokens> = Vec::new();
        let n = outputs.len();
        let mut i: usize = 0;
        while i < n
            invariant
                i <= n,
                n == outputs@.len(),
                ov == outputs.deep_view(),
                g == (|o: Seq<char>| seq![o, "."@, "dispatch"@, "("@, r@, "."@, "clone"@, "("@, ")"@, ")"@, "?"@]),
                parts.deep_view() == ov.subrange(0, i as int).map_values(g),
            decreases n - i,
        {
            let p = clone_dispatch(&outputs[i], r);
            let ghost old_dv = parts.deep_view();
            parts.push(p);
            assert(parts.deep_view() =~= old_dv.push(g(ov[i as int])));
            assert(ov.subrange(0, (i + 1) as int).map_values(g) =~= ov.subrange(0, i as int).map_values(g).push(g(ov[i as int])));
            i = i + 1;
        }
        assert(ov.subrange(0, n as int) =~= ov);
        t.extend_joined(&parts, ";");
        t.push(";");
    }
    proof {
        if outputs@.len() == 0 {
            assert(t@ =~= send_code(r@, outputs.deep_view(), *op, *final_op));
        } else if outputs@.len() == 1 {
            assert(outputs.deep_view()[0] == outputs@[0]@);
            assert(t@ =~= send_code(r@, outputs.deep_view(), *op, *final_op));
        } else {
            assert(t@ =~= send_code(r@, outputs.deep_view(), *op, *final_op));
        }
    }
    t
}

/// Some state arc ends at `op`: the function runs on a state object.
pub open spec fn has_state(op: i32, states: Seq<StateArcM>) -> bool {
    exists|i: int| 0 <= i < states.len() && states[i].target == op
}

/// `sf ( a1 , a2 , ... )`
pub open spec fn call_code(sf: Seq<char>, args: Seq<Seq<Seq<char>>>) -> Seq<Seq<char>> {
    seq![sf, "("@] + join_sep(args, ","@) + seq![")"@]
}

/// `; Ok ( ( ) )`: the end of a task that runs once.
pub open spec fn ok_end() -> Seq<Seq<char>> {
    seq![";"@, "Ok"@, "("@, "("@, ")"@, ")"@]
}

/// The body of the task of a stateful function: the call, on the state object when
/// a state arc ends at the function, followed by `send`; inside a loop when the
/// function has input arcs, once otherwise.
pub open spec fn sfn_call_code(
    op: i32,
    sf: Seq<char>,
    call_args: Seq<Seq<Seq<char>>>,
    r: Seq<char>,
    send: Seq<Seq<char>>,
    num_input_arcs: int,
    states: Seq<StateArcM>,
) -> Seq<Seq<char>> {
    let call = call_code(sf, call_args);
    if has_state(op, states) {
        let body = seq!["let"@, r, "="@, "state"@, "."@] + call + seq![";"@] + send;
        if num_input_arcs > 0 {
            seq!["let"@, "state"@, "="@, state_recv_name(op), "."@, "recv"@, "("@, ")"@, "?"@, ";"@,
                "loop"@, "{"@] + body + seq!["}"@]
        } else {
            body + ok_end()
        }
    } else {
        let body = seq!["let"@, r, "="@] + call + seq![";"@] + send;
        if num_input_arcs > 0 {
            seq!["loop"@, "{"@] + body + seq!["}"@]
        } else {
            body + ok_end()
        }
    }
}

/// Whether a state arc ends at `op`.
fn find_state_arc(op: &i32, state_arcs: &Vec<StateArc>) -> (r: bool)
    ensures
        r == has_state(*op, state_arcs.deep_view()),
{
    let n = state_arcs.len();
    let mut i: usize = 0;
    while i < n
        invariant
            i <= n,
            n == state_arcs@.len(),
            forall|j: int| 0 <= j < i ==> state_arcs.deep_view()[j].target != *op,
        decreases n - i,
    {
        assert(state_arcs.deep_view()[i as int] == state_arcs@[i as int].deep_view());
        if state_arcs[i].target == *op {
            return true;
        }
        i = i + 1;
    }
    false
}

fn push_ok_end(t: &mut Tokens)
    ensures
        final(t)@ == old(t)@ + ok_end(),
{
    t.push(";");
    t.push("Ok");
    t.push("(");
    t.push("(");
    t.push(")");
    t.push(")");
    assert(t@ =~= old(t)@ + ok_end());
}

/// Generates the body of the task of a stateful function.
pub fn generate_sfn_call_code(
    op: &i32,
    sf: String,
    call_args: Vec<Tokens>,
    r: String,
    send: Tokens,
    num_input_arcs: usize,
    state_arcs: &Vec<StateArc>,
) -> (t: Tokens)
    ensures
        t@ == sfn_call_code(*op, sf@, call_args.deep_view(), r@, send@, num_input_arcs as int, state_arcs.deep_view()),
{
    let is_sfn = find_state_arc(op, state_arcs);
    let mut call = Tokens::new();
    call.push_string(sf);
    call.push("(");
    call.extend_joined(&call_args, ",");
    call.push(")");
    assert(call@ =~= call_code(sf@, call_args.deep_view()));
    let mut body = Tokens::new();
    body.push("let");
    body.push_string(r);
    body.push("=");
    if is_sfn {
        body.push("state");
        body.push(".");
    }
    body.extend(&call);
    body.push(";");
    body.extend(&send);
    let mut t = Tokens::new();
    if num_input_arcs > 0 {
        if is_sfn {
            let state_chan = generate_recv_var_for_state_arc(op);
            t.push("let");
            t.push("state");
            t.push("=");
            t.push_string(state_chan);
            t.push(".");
            t.push("recv");
            t.push("(");
            t.push(")");
            t.push("?");
            t.push(";");
        }
        t.push("loop");
        t.push("{");
        t.extend(&body);
        t.push("}");
    } else {
        t.extend(&body);
        push_ok_end(&mut t);
    }
    assert(t@ =~= sfn_call_code(*op, sf@, call_args.deep_view(), r@, send@, num_input_arcs as int, state_arcs.deep_view()));
    t
}

/// The declaration of the task list.
pub open spec fn tasks_header() -> Seq<Seq<char>> {
    seq!["let"@, "mut"@, "tasks"@, ":"@, "Vec"@, "<"@, "Box"@, "<"@, "dyn"@, "FnOnce"@, "("@, ")"@,
        "->"@, "Result"@, "<"@, "("@, ")"@, ","@, "RunError"@, ">"@, "+"@, "Send"@, "+"@,
        "'static"@, ">>"@, "="@, "Vec"@, "::"@, "new"@, "("@, ")"@, ";"@]
}

/// `tasks . push ( Box :: new ( move || { body } ) ) ;`
pub open spec fn task(body: Seq<Seq<char>>) -> Seq<Seq<char>> {
    seq!["tasks"@, "."@, "push"@, "("@, "Box"@, "::"@, "new"@, "("@, "move"@, "||"@, "{"@] + body
        + seq!["}"@, ")"@, ")"@, ";"@]
}

/// `. recv ( ) ?`: reading a value from a receiving end.
pub open spec fn recv_suffix() -> Seq<Seq<char>> {
    seq!["."@, "recv"@, "("@, ")"@, "?"@]
}

/// The length of the shorter of two sequences.
pub open spec fn zip_len<A, B>(a: Seq<A>, b: Seq<B>) -> int {
    if a.len() < b.len() { a.len() as int } else { b.len() as int }
}

/// The call arguments: the codes `ins` paired position by position with the arcs
/// `orig` (as far as both reach), a local arc's code read with `. recv ( ) ?`.
pub open spec fn zip_call_args(orig: Seq<DirectArcM>, ins: Seq<Seq<Seq<char>>>) -> Seq<Seq<Seq<char>>> {
    Seq::new(zip_len(orig, ins) as nat, |i: int| if is_env(orig[i].source) { ins[i] } else { ins[i] + recv_suffix() })
}

/// The number of local arcs among the first `m` of `orig`.
pub open spec fn num_local(orig: Seq<DirectArcM>, m: int) -> int {
    orig.subrange(0, m).filter(|a: DirectArcM| !is_env(a.source)).len() as int
}

/// The task of the stateful function `o`.
///
/// The arguments pair the arcs that end at `o`, in the order of the graph, with
/// the codes of `spec_in_arcs_vec`, which are ordered by port.
pub open spec fn sfn_task(d: OhuaDataM, o: OperatorM, args: Seq<Seq<Seq<char>>>) -> Seq<Seq<char>> {
    let arcs = d.graph.arcs.direct;
    let ins = spec_in_arcs_vec(o.id, o.node, arcs, args);
    let orig = spec_in_arcs(o.id, arcs);
    let outs = spec_out_arcs_vec(o.id, arcs).map_values(|e: (DirectArcM, Seq<char>)| e.1);
    task(
        sfn_call_code(
            o.id,
            o.ty.name,
            zip_call_args(orig, ins),
            "r"@,
            send_code("r"@, outs, o.id, d.graph.return_arc.operator),
            num_local(orig, zip_len(orig, ins)),
            d.graph.arcs.state,
        ),
    )
}

/// The operator wraps a stateful function.
pub open spec fn is_function_node(o: OperatorM) -> bool {
    o.node == NodeType::FunctionNode
}

/// The tasks of all stateful functions, in the order of the operators.
pub open spec fn spec_generate_sfns(d: OhuaDataM, args: Seq<Seq<Seq<char>>>) -> Seq<Seq<char>> {
    tasks_header() + concat(d.graph.operators.filter(|o: OperatorM| is_function_node(o)).map_values(
        |o: OperatorM| sfn_task(d, o, args),
    ))
}

/// Every stateful function's arcs can be turned into code, given `nargs` call arguments.
pub open spec fn sfns_ok(d: OhuaDataM, nargs: int) -> bool {
    &&& local_arcs_named(d.graph.operators, d.graph.arcs.direct)
    &&& forall|k: int|
        0 <= k < d.graph.operators.len() && is_function_node(d.graph.operators[k])
            ==> in_arcs_ok(#[trigger] d.graph.operators[k].id, d.graph.arcs.direct, nargs)
}

/// The local arcs of the graph can be named, so those of each operator can.
proof fn lemma_out_arcs_named(ops: Seq<OperatorM>, op: i32, arcs: Seq<DirectArcM>)
    requires
        local_arcs_named(ops, arcs),
    ensures
        out_arcs_named(ops, op, arcs),
{
    assert forall|i: int| 0 <= i < arcs.len() && from_op(arcs[i], op) implies out_arc_var_ok(ops, #[trigger] arcs[i]) by {
        assert(!is_env(arcs[i].source));
    }
}

/// The names of the sending ends of the outputs of `op`.
fn out_names(op: &i32, arcs: &Vec<DirectArc>, ops: &Vec<Operator>) -> (r: Vec<String>)
    requires
        out_arcs_named(ops.deep_view(), *op, arcs.deep_view()),
    ensures
        r.deep_view() == spec_out_arcs_vec(*op, arcs.deep_view()).map_values(|e: (DirectArcM, Seq<char>)| e.1),
{
    let outs = generate_out_arcs_vec(op, arcs, ops);
    let ghost ov = outs.deep_view();
    let mut r: Vec<String> = Vec::new();
    let n = outs.len();
    let mut i: usize = 0;
    while i < n
        invariant
            i <= n,
            n == outs@.len(),
            ov == outs.deep_view(),
            r.deep_view() == ov.subrange(0, i as int).map_values(|e: (DirectArcM, Seq<char>)| e.1),
        decreases n - i,
    {
        assert(ov[i as int].1 == outs@[i as int].1@);
        let ghost old_dv = r.deep_view();
        r.push(outs[i].1.clone());
        assert(r.deep_view() =~= old_dv.push(ov[i as int].1));
        assert(r.deep_view() =~= ov.subrange(0, (i + 1) as int).map_values(|e: (DirectArcM, Seq<char>)| e.1));
        i = i + 1;
    }
    assert(ov.subrange(0, n as int) =~= ov);
    r
}

/// Pairs the arcs that end at an operator with the codes of its call arguments.
fn zip_in_arcs(orig: &Vec<&DirectArc>, ins: Vec<Tokens>) -> (r: (Vec<Tokens>, usize))
    ensures
        r.0.deep_view() == zip_call_args(orig.deep_view(), ins.deep_view()),
        r.1 == num_local(orig.deep_view(), zip_len(orig.deep_view(), ins.deep_view())),
{
    let ghost ov = orig.deep_view();
    let ghost iv = ins.deep_view();
    let ghost lp = |a: DirectArcM| !is_env(a.source);
    let m = if orig.len() < ins.len() { orig.len() } else { ins.len() };
    let mut args: Vec<Tokens> = Vec::new();
    let mut count: usize = 0;
    let mut i: usize = 0;
    while i < m
        invariant
            i <= m,
            m == zip_len(ov, iv),
            m <= orig@.len(),
            m <= ins@.len(),
            ov == orig.deep_view(),
            iv == ins.deep_view(),
            lp == (|a: DirectArcM| !is_env(a.source)),
            count <= i,
            count == ov.subrange(0, i as int).filter(lp).len(),
            args.deep_view() == zip_call_args(ov, iv).subrange(0, i as int),
        decreases m - i,
    {
        proof { lemma_filter_step(ov, lp, i as int); }
        assert(orig@[i as int].deep_view() == ov[i as int]);
        assert(ins@[i as int]@ == iv[i as int]);
        let mut code = ins[i].copy();
        let local = match &orig[i].source {
            ArcSource::Env(_) => false,
            ArcSource::Local(_) => true,
        };
        if local {
            code.push(".");
            code.push("recv");
            code.push("(");
            code.push(")");
            code.push("?");
            count = count + 1;
        }
        assert(local == !is_env(ov[i as int].source));
        assert(code@ =~= zip_call_args(ov, iv)[i as int]);
        let ghost old_dv = args.deep_view();
        args.push(code);
        assert(args.deep_view() =~= old_dv.push(zip_call_args(ov, iv)[i as int]));
        assert(args.deep_view() =~= zip_call_args(ov, iv).subrange(0, (i + 1) as int));
        i = i + 1;
    }
    assert(zip_call_args(ov, iv).subrange(0, m as int) =~= zip_call_args(ov, iv));
    (args, count)
}

/// The task of one stateful function.
fn generate_sfn_task(compiled: &OhuaData, op: &Operator, algo_call_args: &Vec<Tokens>) -> (t: Tokens)
    requires
        local_arcs_named(compiled.deep_view().graph.operators, compiled.deep_view().graph.arcs.direct),
        in_arcs_ok(op.operatorId, compiled.deep_view().graph.arcs.direct, algo_call_args@.len() as int),
    ensures
        t@ == sfn_task(compiled.deep_view(), op.deep_view(), algo_call_args.deep_view()),
{
    let ghost d = compiled.deep_view();
    let arcs = &compiled.graph.arcs.direct;
    let ops = &compiled.graph.operators;
    assert(d.graph.arcs.direct == arcs.deep_view());
    assert(d.graph.operators == ops.deep_view());
    let in_arcs = generate_in_arcs_vec(&op.operatorId, &op.nodeType, arcs, algo_call_args);
    let orig_in_arcs = get_in_arcs(&op.operatorId, arcs);
    proof { lemma_out_arcs_named(ops.deep_view(), op.operatorId, arcs.deep_view()); }
    let outs = out_names(&op.operatorId, arcs, ops);
    let sf = op.operatorType.qbName.clone();
    let r = String::from_str("r");
    proof { reveal_strlit("r"); }
    let send = generate_send(&r, &outs, &op.operatorId, &compiled.graph.return_arc.operator);
    let (call_args, num_input_arcs) = zip_in_arcs(&orig_in_arcs, in_arcs);
    let code = generate_sfn_call_code(&op.operatorId, sf, call_args, r, send, num_input_arcs, &compiled.graph.arcs.state);
    let mut t = Tokens::new();
    push_task(&mut t, &code);
    t
}

/// Appends `tasks . push ( Box :: new ( move || { body } ) ) ;`.
fn push_task(t: &mut Tokens, body: &Tokens)
    ensures
        final(t)@ == old(t)@ + task(body@),
{
    t.push("tasks");
    t.push(".");
    t.push("push");
    t.push("(");
    t.push("Box");
    t.push("::");
    t.push("new");
    t.push("(");
    t.push("move");
    t.push("||");
    t.push("{");
    t.extend(body);
    t.push("}");
    t.push(")");
    t.push(")");
    t.push(";");
    assert(t@ =~= old(t)@ + task(body@));
}

fn tasks_header_tokens() -> (t: Tokens)
    ensures
        t@ == tasks_header(),
{
    let mut t = Tokens::new();
    t.push("let"); t.push("mut"); t.push("tasks"); t.push(":"); t.push("Vec"); t.push("<");
    t.push("Box"); t.push("<"); t.push("dyn"); t.push("FnOnce"); t.push("("); t.push(")");
    t.push("->"); t.push("Result"); t.push("<"); t.push("("); t.push(")"); t.push(",");
    t.push("RunError"); t.push(">"); t.push("+"); t.push("Send"); t.push("+");
    t.push("'static"); t.push(">>"); t.push("="); t.push("Vec"); t.push("::"); t.push("new");
    t.push("("); t.push(")"); t.push(";");
    assert(t@ =~= tasks_header());
    t
}

/// Generates the task list and one task per stateful function.
pub fn generate_sfns(compiled: &OhuaData, algo_call_args: &Vec<Tokens>) -> (t: Tokens)
    requires
        sfns_ok(compiled.deep_view(), algo_call_args@.len() as int),
    ensures
        t@ == spec_generate_sfns(compiled.deep_view(), algo_call_args.deep_view()),
{
    let ghost d = compiled.deep_view();
    let ghost argv = algo_call_args.deep_view();
    let ghost ov = d.graph.operators;
    let ghost fp = |o: OperatorM| is_function_node(o);
    let ghost g = |o: OperatorM| sfn_task(d, o, argv);
    let ops = &compiled.graph.operators;
    assert(ov == ops.deep_view());
    let mut t = tasks_header_tokens();
    let n = ops.len();
    let mut i: usize = 0;
    assert(t@ =~= tasks_header() + concat(ov.subrange(0, 0).filter(fp).map_values(g)));
    while i < n
        invariant
            i <= n,
            n == ops@.len(),
            d == compiled.deep_view(),
            ov == d.graph.operators,
            ov == ops.deep_view(),
            argv == algo_call_args.deep_view(),
            sfns_ok(d, algo_call_args@.len() as int),
            fp == (|o: OperatorM| is_function_node(o)),
            g == (|o: OperatorM| sfn_task(d, o, argv)),
            t@ == tasks_header() + concat(ov.subrange(0, i as int).filter(fp).map_values(g)),
        decreases n - i,
    {
        proof { lemma_filter_step(ov, fp, i as int); }
        let op = &ops[i];
        assert(op.deep_view() == ov[i as int]);
        if op.nodeType == NodeType::FunctionNode {
            assert(in_arcs_ok(ov[i as int].id, d.graph.arcs.direct, algo_call_args@.len() as int));
            let c = generate_sfn_task(compiled, op, algo_call_args);
            t.extend(&c);
            proof { lemma_concat_map_push(ov.subrange(0, i as int).filter(fp), ov[i as int], g); }
        }
        i = i + 1;
    }
    assert(ov.subrange(0, n as int) =~= ov);
    t
}

// ---------------------------------------------------------------------------
// Operators

/// Each argument passed by reference: `& a`.
pub open spec fn ref_args(args: Seq<Seq<Seq<char>>>) -> Seq<Seq<Seq<char>>> {
    args.map_values(|a: Seq<Seq<char>>| seq!["&"@] + a)
}

/// The body of an operator's task: a `ctrl_` or `recur_` operator is called once
/// and ends with `Ok ( ( ) )`, every other operator is called in a loop.
pub open spec fn operator_code(name: Seq<char>, args: Seq<Seq<Seq<char>>>) -> Seq<Seq<char>> {
    let call = seq![name, "("@] + join_sep(ref_args(args), ","@) + seq![")"@, "?"@, ";"@];
    if starts_with(name, "ctrl_"@) || starts_with(name, "recur_"@) {
        call + seq!["Ok"@, "("@, "("@, ")"@, ")"@]
    } else {
        seq!["loop"@, "{"@] + call + seq!["}"@]
    }
}

/// Generates the body of an operator's task.
pub fn generate_operator_code(op_name: String, call_args: Vec<Tokens>) -> (t: Tokens)
    ensures
        t@ == operator_code(op_name@, call_args.deep_view()),
{
    let ghost cv = call_args.deep_view();
    let mut refs: Vec<Tokens> = Vec::new();
    let n = call_args.len();
    let mut i: usize = 0;
    while i < n
        invariant
            i <= n,
            n == call_args@.len(),
            cv == call_args.deep_view(),
            refs.deep_view() == ref_args(cv).subrange(0, i as int),
        decreases n - i,
    {
        let mut a = Tokens::new();
        a.push("&");
        a.extend(&call_args[i]);
        assert(call_args@[i as int]@ == cv[i as int]);
        let ghost old_dv = refs.deep_view();
        refs.push(a);
        assert(refs.deep_view() =~= old_dv.push(seq!["&"@] + cv[i as int]));
        assert(refs.deep_view() =~= ref_args(cv).subrange(0, (i + 1) as int));
        i = i + 1;
    }
    assert(ref_args(cv).subrange(0, n as int) =~= ref_args(cv));
    let special = string_starts_with(&op_name, "ctrl_") || string_starts_with(&op_name, "recur_");
    let mut call = Tokens::new();
    call.push_string(op_name);
    call.push("(");
    call.extend_joined(&refs, ",");
    call.push(")");
    call.push("?");
    call.push(";");
    let mut t = Tokens::new();
    if special {
        t.extend(&call);
        t.push("Ok");
        t.push("(");
        t.push("(");
        t.push(")");
        t.push(")");
    } else {
        t.push("loop");
        t.push("{");
        t.extend(&call);
        t.push("}");
    }
    assert(t@ =~= operator_code(op_name@, cv));
    t
}

/// The arguments of an operator: its inputs ordered by port, the sending ends of
/// its outputs ordered by port, and `result_snd` for the operator that returns the
/// result of the algorithm.
pub open spec fn operator_args(d: OhuaDataM, o: OperatorM) -> Seq<Seq<Seq<char>>> {
    let arcs = d.graph.arcs.direct;
    spec_in_arcs_vec(o.id, o.node, arcs, Seq::empty())
        + spec_out_arcs_vec(o.id, arcs).map_values(|e: (DirectArcM, Seq<char>)| seq![e.1])
        + if o.id == d.graph.return_arc.operator { seq![seq!["result_snd"@]] } else { Seq::empty() }
}

/// The body of the task of operator `o`; `name ( )` for an operator without arguments.
pub open spec fn op_body(d: OhuaDataM, o: OperatorM) -> Seq<Seq<char>> {
    let args = operator_args(d, o);
    if args.len() > 0 {
        operator_code(o.ty.name, args)
    } else {
        seq![o.ty.name, "("@, ")"@]
    }
}

/// The tasks of all operators, in the order of the graph.
pub open spec fn spec_generate_ops(d: OhuaDataM) -> Seq<Seq<char>> {
    concat(d.graph.operators.filter(|o: OperatorM| !is_function_node(o)).map_values(
        |o: OperatorM| task(op_body(d, o)),
    ))
}

/// Every operator's arcs can be turned into code; operators take no call arguments.
pub open spec fn ops_ok(d: OhuaDataM) -> bool {
    &&& local_arcs_named(d.graph.operators, d.graph.arcs.direct)
    &&& forall|k: int|
        0 <= k < d.graph.operators.len() && !is_function_node(d.graph.operators[k])
            ==> in_arcs_ok(#[trigger] d.graph.operators[k].id, d.graph.arcs.direct, 0)
}

/// The body of the task of one operator.
fn generate_op_body(compiled: &OhuaData, op: &Operator) -> (t: Tokens)
    requires
        local_arcs_named(compiled.deep_view().graph.operators, compiled.deep_view().graph.arcs.direct),
        in_arcs_ok(op.operatorId, compiled.deep_view().graph.arcs.direct, 0),
    ensures
        t@ == op_body(compiled.deep_view(), op.deep_view()),
{
    let ghost d = compiled.deep_view();
    let arcs = &compiled.graph.arcs.direct;
    let ops = &compiled.graph.operators;
    assert(d.graph.arcs.direct == arcs.deep_view());
    assert(d.graph.operators == ops.deep_view());
    let no_args: Vec<Tokens> = Vec::new();
    assert(no_args.deep_view() =~= Seq::<Seq<Seq<char>>>::empty());
    let mut call_args = generate_in_arcs_vec(&op.operatorId, &op.nodeType, arcs, &no_args);
    proof { lemma_out_arcs_named(ops.deep_view(), op.operatorId, arcs.deep_view()); }
    let outs = out_names(&op.operatorId, arcs, ops);
    let ghost base = call_args.deep_view();
    let ghost onames = outs.deep_view();
    let n = outs.len();
    let mut i: usize = 0;
    while i < n
        invariant
            i <= n,
            n == outs@.len(),
            onames == outs.deep_view(),
            call_args.deep_view() == base + onames.subrange(0, i as int).map_values(|x: Seq<char>| seq![x]),
        decreases n - i,
    {
        let mut a = Tokens::new();
        a.push_string(outs[i].clone());
        let ghost old_dv = call_args.deep_view();
        call_args.push(a);
        assert(call_args.deep_view() =~= old_dv.push(seq![onames[i as int]]));
        assert(call_args.deep_view() =~= base + onames.subrange(0, (i + 1) as int).map_values(|x: Seq<char>| seq![x]));
        i = i + 1;
    }
    assert(onames.subrange(0, n as int) =~= onames);
    assert(onames.map_values(|x: Seq<char>| seq![x]) =~= spec_out_arcs_vec(op.operatorId, d.graph.arcs.direct).map_values(|e: (DirectArcM, Seq<char>)| seq![e.1]));
    let ghost with_outs = call_args.deep_view();
    if op.operatorId == compiled.graph.return_arc.operator {
        let mut a = Tokens::new();
        a.push("result_snd");
        call_args.push(a);
        assert(call_args.deep_view() =~= with_outs + seq![seq!["result_snd"@]]);
    } else {
        assert(call_args.deep_view() =~= with_outs + Seq::<Seq<Seq<char>>>::empty());
    }
    assert(call_args.deep_view() == operator_args(d, op.deep_view()));
    let op_name = op.operatorType.qbName.clone();
    if call_args.len() > 0 {
        generate_operator_code(op_name, call_args)
    } else {
        let mut t = Tokens::new();
        t.push_string(op_name);
        t.push("(");
        t.push(")");
        assert(t@ =~= op_body(d, op.deep_view()));
        t
    }
}

/// Generates one task per operator.
pub fn generate_ops(compiled: &OhuaData) -> (t: Tokens)
    requires
        ops_ok(compiled.deep_view()),
    ensures
        t@ == spec_generate_ops(compiled.deep_view()),
{
    let ghost d = compiled.deep_view();
    let ghost ov = d.graph.operators;
    let ghost fp = |o: OperatorM| !is_function_node(o);
    let ghost g = |o: OperatorM| task(op_body(d, o));
    let ops = &compiled.graph.operators;
    assert(ov == ops.deep_view());
    let mut t = Tokens::new();
    let n = ops.len();
    let mut i: usize = 0;
    assert(t@ =~= concat(ov.subrange(0, 0).filter(fp).map_values(g)));
    while i < n
        invariant
            i <= n,
            n == ops@.len(),
            d == compiled.deep_view(),
            ov == d.graph.operators,
            ov == ops.deep_view(),
            ops_ok(d),
            fp == (|o: OperatorM| !is_function_node(o)),
            g == (|o: OperatorM| task(op_body(d, o))),
            t@ == concat(ov.subrange(0, i as int).filter(fp).map_values(g)),
        decreases n - i,
    {
        proof { lemma_filter_step(ov, fp, i as int); }
        let op = &ops[i];
        assert(op.deep_view() == ov[i as int]);
        if op.nodeType == NodeType::OperatorNode {
            assert(in_arcs_ok(ov[i as int].id, d.graph.arcs.direct, 0));
            let body = generate_op_body(compiled, op);
            push_task(&mut t, &body);
            proof { lemma_concat_map_push(ov.subrange(0, i as int).filter(fp), ov[i as int], g); }
        }
        i = i + 1;
    }
    assert(ov.subrange(0, n as int) =~= ov);
    t
}

} // verus!
