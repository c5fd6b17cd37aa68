use ohua_rs::codegen::backend_optimizations::{process_dead_ends, run_backend_optimizations};
use ohua_rs::codegen::lang::generate_recur::{generate as generate_recur_operator, generate_fun_name};
use ohua_rs::codegen::lang::{generate_ctrl_operator, generate_nth};
use ohua_rs::codegen::ohua_types::{
    ArcIdentifier, ArcSource, Arcs, DFGraph, DeadArc, DirectArc, Envs, NodeType, OhuaData,
    Operator, OperatorType,
};
use ohua_rs::codegen::rewrite::{
    alter_ohua_ns_imports, find_nth_info, generate_ctrls, generate_nths, handle_environment_arcs,
    is_nth,
};
use ohua_rs::codegen::typedgen::{generate_code, generate_code_checked};
use ohua_rs::codegen::typedgen::generate_recur::{generate as generate_recur, SimpleTracker};
use ohua_rs::text::Tokens;

fn ty(ns: &[&str], name: &str) -> OperatorType {
    OperatorType { qbNamespace: ns.iter().map(|s| s.to_string()).collect(), qbName: name.to_string() }
}

fn op(id: i32, t: OperatorType, node: NodeType) -> Operator {
    Operator { operatorId: id, operatorType: t, nodeType: node }
}

fn local(op: i32, idx: i32, to_op: i32, to_idx: i32) -> DirectArc {
    DirectArc {
        target: ArcIdentifier { operator: to_op, index: to_idx },
        source: ArcSource::Local(ArcIdentifier { operator: op, index: idx }),
    }
}

fn env(e: Envs, to_op: i32, to_idx: i32) -> DirectArc {
    DirectArc { target: ArcIdentifier { operator: to_op, index: to_idx }, source: ArcSource::Env(e) }
}

fn graph(ops: Vec<Operator>, direct: Vec<DirectArc>, ret: i32) -> OhuaData {
    OhuaData {
        graph: DFGraph {
            operators: ops,
            arcs: Arcs { direct, compound: vec![], state: vec![], dead: vec![] },
            return_arc: ArcIdentifier { operator: ret, index: -1 },
            input_targets: Vec::new(),
        },
        mainArity: 0,
        sfDependencies: Vec::new(),
    }
}

fn source_of(a: &DirectArc) -> String {
    a.source.to_string()
}

#[test]
fn environment_arguments_are_captured_in_id_operators() {
    let mut d = graph(
        vec![op(3, ty(&["ns1"], "f"), NodeType::FunctionNode)],
        vec![
            env(Envs::EnvRefLit { content: 1 }, 3, 0),
            env(Envs::EnvRefLit { content: 0 }, 3, 1),
        ],
        3,
    );
    handle_environment_arcs(&mut d);
    let ids: Vec<i32> = d.graph.operators.iter().map(|o| o.operatorId).collect();
    assert_eq!(ids, vec![3, 4, 5]);
    assert_eq!(d.graph.operators[1].operatorType.function_name(), "ohua_runtime::lang::id");
    assert_eq!(d.graph.operators[2].operatorType.function_name(), "ohua_runtime::lang::id");
    assert!(d.graph.operators[1].nodeType == NodeType::FunctionNode);
    let arcs: Vec<String> = d.graph.arcs.direct.iter().map(|a| a.to_string()).collect();
    assert_eq!(
        arcs,
        vec![
            "DirectArc {target: ArcIdentifier {operator: 3, index: 0}, source: ValueType::LocalVal(ArcIdentifier {operator: 5, index: 0})}",
            "DirectArc {target: ArcIdentifier {operator: 3, index: 1}, source: ValueType::LocalVal(ArcIdentifier {operator: 4, index: 0})}",
            "DirectArc {target: ArcIdentifier {operator: 4, index: 0}, source: ValueType::EnvironmentVal(EnvRefLit(0))}",
            "DirectArc {target: ArcIdentifier {operator: 5, index: 0}, source: ValueType::EnvironmentVal(EnvRefLit(1))}",
        ]
    );
    // Every remaining environment reference feeds exactly one `id` operator.
    let env_arcs: Vec<&DirectArc> =
        d.graph.arcs.direct.iter().filter(|a| source_of(a).contains("EnvRefLit")).collect();
    assert_eq!(env_arcs.len(), 2);
    assert!(env_arcs.iter().all(|a| a.target.index == 0 && a.target.operator >= 4));
}

#[test]
fn environment_arcs_without_operators_start_at_one() {
    let mut d = graph(vec![], vec![env(Envs::EnvRefLit { content: 2 }, 9, 0)], 9);
    handle_environment_arcs(&mut d);
    assert_eq!(d.graph.operators.len(), 1);
    assert_eq!(d.graph.operators[0].operatorId, 3);
}

#[test]
fn ctrl_operators_are_specialised() {
    let mut d = graph(
        vec![
            op(0, ty(&["ns"], "src"), NodeType::FunctionNode),
            op(1, ty(&["ohua_runtime", "lang"], "ctrl"), NodeType::OperatorNode),
        ],
        vec![local(0, 0, 1, -1), local(0, 1, 1, 0), local(0, 2, 1, 1)],
        1,
    );
    let code = generate_ctrls(&mut d).to_string();
    assert_eq!(d.graph.operators[1].operatorType.function_name(), "ctrl_2");
    assert_eq!(d.graph.operators[0].operatorType.function_name(), "ns::src");
    assert_eq!(code, generate_ctrl_operator(2).to_string());
    assert!(code.starts_with("fn ctrl_2 < T0 : Clone + Send , T1 : Clone + Send > ( ctrl_inp : & Receiver < ( bool , isize ) > , var_in_0 : & Receiver < T0 > , var_in_1 : & Receiver < T1 > , var_out_0 : & dyn ArcInput < T0 > , var_out_1 : & dyn ArcInput < T1 > ) -> Result < ( ) , RunError > {"));
}

#[test]
fn ctrl_operator_for_one_variable() {
    assert_eq!(
        generate_ctrl_operator(1).to_string(),
        "fn ctrl_1 < T0 : Clone + Send > ( ctrl_inp : & Receiver < ( bool , isize ) > , var_in_0 : & Receiver < T0 > , var_out_0 : & dyn ArcInput < T0 > ) -> Result < ( ) , RunError > { let mut renew = false ; let mut state = ( var_in_0 . recv ( ) ? , ) ; loop { let ( renew_next_time , count ) = ctrl_inp . recv ( ) ? ; if renew { state = ( var_in_0 . recv ( ) ? , ) ; } for _ in 0 .. count { let ( var_0 , ) = state . clone ( ) ; var_out_0 . dispatch ( var_0 . clone ( ) ) ? ; } renew = renew_next_time ; } } ;"
    );
}

#[test]
fn nth_operators_are_specialised() {
    let nth = ty(&["ohua_runtime", "lang"], "nth");
    let mut d = graph(
        vec![
            op(2, ty(&["ns"], "tuple"), NodeType::FunctionNode),
            op(7, nth, NodeType::FunctionNode),
            op(8, ty(&["ns"], "use_it"), NodeType::FunctionNode),
        ],
        vec![
            local(2, 0, 7, 2),
            env(Envs::NumericLit { content: 3 }, 7, 1),
            env(Envs::NumericLit { content: 1 }, 7, 0),
            local(7, 0, 8, 0),
        ],
        8,
    );
    assert!(is_nth(&7, &d.graph.operators));
    assert!(!is_nth(&8, &d.graph.operators));
    assert!(!is_nth(&99, &d.graph.operators));
    assert_eq!(find_nth_info(&7, &d.graph.arcs.direct), (1, 3));
    let code = generate_nths(&mut d).to_string();
    assert_eq!(
        code,
        "fn nth_op7_1_3 < T0 , T1 , T2 > ( t : ( T0 , T1 , T2 ) ) -> T1 { let ( var_0 , var_1 , var_2 ) = t ; var_1 } ;"
    );
    assert_eq!(d.graph.operators[1].operatorType.function_name(), "nth_op7_1_3");
    let arcs: Vec<String> = d.graph.arcs.direct.iter().map(|a| a.to_string()).collect();
    assert_eq!(
        arcs,
        vec![
            "DirectArc {target: ArcIdentifier {operator: 7, index: 0}, source: ValueType::LocalVal(ArcIdentifier {operator: 2, index: 0})}",
            "DirectArc {target: ArcIdentifier {operator: 8, index: 0}, source: ValueType::LocalVal(ArcIdentifier {operator: 7, index: 0})}",
        ]
    );
}

#[test]
fn nth_for_a_negative_length_has_no_elements() {
    assert_eq!(generate_nth(&1, &0, &-1).to_string(), "fn nth_op1_0_-1 < > ( t : ( ) ) -> T0 { let ( ) = t ; var_0 } ;");
}

#[test]
fn recur_operators_are_specialised() {
    let mut d = graph(
        vec![
            op(0, ty(&["ns"], "src"), NodeType::FunctionNode),
            op(4, ty(&["ohua_runtime", "lang"], "recurFun"), NodeType::OperatorNode),
        ],
        vec![
            local(0, 0, 4, 0),
            local(0, 1, 4, 1),
            local(0, 2, 4, 2),
            local(0, 3, 4, 2),
            local(0, 4, 4, 3),
            local(0, 5, 4, 4),
            local(0, 6, 4, 5),
        ],
        4,
    );
    let code = generate_recur(&mut d).to_string();
    assert_eq!(d.graph.operators[1].operatorType.function_name(), "recur_2");
    assert_eq!(code, generate_recur_operator(2).to_string());
    assert_eq!(generate_fun_name(3), "recur_3");
}

#[test]
fn recur_operator_for_one_argument() {
    assert_eq!(
        generate_recur_operator(1).to_string(),
        "fn recur_1 < T0 : Send , R : Send > ( condition : & Receiver < bool > , result_arc : & Receiver < R > , init_0 : & Receiver < T0 > , loop_in_0 : & Receiver < T0 > , ctrl_arc : & dyn ArcInput < ( bool , isize ) > , loop_out_0 : & dyn ArcInput < T0 > , finish_arc : & dyn ArcInput < R > , ) -> Result < ( ) , RunError > { ctrl_arc . dispatch ( ( true , 1 ) ) ; loop_out_0 . dispatch ( init_0 . recv ( ) ? ) ; while ( condition . recv ( ) ? ) { let _ = result_arc . recv ( ) ? ; ctrl_arc . dispatch ( ( true , 1 ) ) ; loop_out_0 . dispatch ( loop_in_0 . recv ( ) ? ) ; } ctrl_arc . dispatch ( ( false , 0 ) ) ; finish_arc . dispatch ( result_arc . recv ( ) ? ) ; Ok ( ( ) ) }"
    );
}

#[test]
fn tracker_records_each_arity_once_in_order() {
    let mut t = SimpleTracker::new();
    t.tick(5);
    t.tick(1);
    t.tick(5);
    t.tick(0);
    assert_eq!(t.ticked(), vec![0, 1, 5]);
}

#[test]
fn dead_arcs_become_direct_arcs() {
    let mut d = graph(vec![op(1, ty(&["ns"], "f"), NodeType::FunctionNode)], vec![local(1, 0, 1, 0)], 1);
    d.graph.arcs.dead = vec![DeadArc { source: ArcIdentifier { operator: 1, index: 1 } }];
    run_backend_optimizations(&mut d);
    assert!(d.graph.arcs.dead.is_empty());
    assert_eq!(d.graph.arcs.direct.len(), 2);
    assert_eq!(
        d.graph.arcs.direct[1].to_string(),
        "DirectArc {target: ArcIdentifier {operator: 0, index: 0}, source: ValueType::LocalVal(ArcIdentifier {operator: 1, index: 1})}"
    );
}

#[test]
fn language_operators_move_to_the_runtime() {
    let mut d = graph(
        vec![
            op(1, ty(&["ohua", "lang"], "smapFun"), NodeType::OperatorNode),
            op(2, ty(&["ohua"], "x"), NodeType::FunctionNode),
        ],
        vec![],
        2,
    );
    alter_ohua_ns_imports(&mut d);
    assert_eq!(d.graph.operators[0].operatorType.function_name(), "ohua_runtime::lang::smapFun");
    assert_eq!(d.graph.operators[1].operatorType.function_name(), "ohua::x");
}

#[test]
fn whole_algorithm_code() {
    let mut d = graph(
        vec![
            op(0, ty(&["ns1"], "some_sfn"), NodeType::FunctionNode),
            op(1, ty(&["ns2"], "some_other_sfn"), NodeType::FunctionNode),
        ],
        vec![local(0, 0, 1, 0), env(Envs::EnvRefLit { content: 0 }, 0, 0)],
        1,
    );
    let args = vec![Tokens { toks: vec!["arg1".to_string()] }];
    let code = generate_code(&mut d, &args).to_string();
    assert_eq!(
        code,
        "{ use std :: sync :: mpsc :: Receiver ; use ohua_runtime :: * ; use ohua_runtime :: arcs :: * ; use ohua_runtime :: lang :: { send_once , Unit } ; use ns1 :: some_sfn ; use ns2 :: some_other_sfn ; use ohua_runtime :: lang :: id ; \
let ( sf_0_out_0__sf_1_in_0 , sf_1_in_0 ) = std :: sync :: mpsc :: channel ( ) ; \
let ( sf_2_out_0__sf_0_in_0 , sf_0_in_0 ) = std :: sync :: mpsc :: channel ( ) ; \
let ( result_snd , result_rcv ) = std :: sync :: mpsc :: channel ( ) ; \
let mut tasks : Vec < Box < dyn FnOnce ( ) -> Result < ( ) , RunError > + Send + 'static >> = Vec :: new ( ) ; \
tasks . push ( Box :: new ( move || { loop { let r = some_sfn ( sf_0_in_0 . recv ( ) ? ) ; sf_0_out_0__sf_1_in_0 . dispatch ( r ) ? } } ) ) ; \
tasks . push ( Box :: new ( move || { loop { let r = some_other_sfn ( sf_1_in_0 . recv ( ) ? ) ; result_snd . dispatch ( r ) ? ; } } ) ) ; \
tasks . push ( Box :: new ( move || { let r = id ( arg1 ) ; sf_2_out_0__sf_0_in_0 . dispatch ( r ) ? ; Ok ( ( ) ) } ) ) ; \
run_tasks ( tasks ) ; result_rcv . recv ( ) . unwrap ( ) }"
    );
    assert_eq!(d.graph.operators.len(), 3);
}

#[test]
fn checked_generation_refuses_broken_graphs() {
    // A `ctrl` operator without variables cannot be specialised.
    let mut d = graph(
        vec![
            op(0, ty(&["ns"], "src"), NodeType::FunctionNode),
            op(1, ty(&["ohua_runtime", "lang"], "ctrl"), NodeType::OperatorNode),
        ],
        vec![local(0, 0, 1, -1)],
        1,
    );
    assert!(generate_code_checked(&mut d, &Vec::new()).is_none());

    // An environment reference beyond the call arguments cannot be passed on.
    let mut e = graph(
        vec![op(0, ty(&["ns"], "f"), NodeType::FunctionNode)],
        vec![env(Envs::EnvRefLit { content: 1 }, 0, 0)],
        0,
    );
    let one_arg = vec![Tokens { toks: vec!["a".to_string()] }];
    assert!(generate_code_checked(&mut e, &one_arg).is_none());

    // A local arc from an operator that is not in the graph cannot be named.
    let mut f = graph(vec![op(0, ty(&["ns"], "f"), NodeType::FunctionNode)], vec![local(5, 0, 0, 0)], 0);
    assert!(generate_code_checked(&mut f, &Vec::new()).is_none());
}

#[test]
fn checked_generation_accepts_a_valid_graph() {
    let mut d = graph(
        vec![
            op(0, ty(&["ns1"], "some_sfn"), NodeType::FunctionNode),
            op(1, ty(&["ns2"], "some_other_sfn"), NodeType::FunctionNode),
        ],
        vec![local(0, 0, 1, 0)],
        1,
    );
    let mut e = graph(
        vec![
            op(0, ty(&["ns1"], "some_sfn"), NodeType::FunctionNode),
            op(1, ty(&["ns2"], "some_other_sfn"), NodeType::FunctionNode),
        ],
        vec![local(0, 0, 1, 0)],
        1,
    );
    let checked = generate_code_checked(&mut d, &Vec::new()).expect("valid graph").to_string();
    let plain = generate_code(&mut e, &Vec::new()).to_string();
    assert_eq!(checked, plain);
    assert!(checked.starts_with("{ use std :: sync :: mpsc :: Receiver ;"));
}

#[test]
fn dead_arc_processing_settles_after_one_run() {
    let mut d = graph(vec![op(1, ty(&["ns"], "f"), NodeType::FunctionNode)], vec![local(1, 0, 1, 0)], 1);
    d.graph.arcs.dead = vec![
        DeadArc { source: ArcIdentifier { operator: 1, index: 1 } },
        DeadArc { source: ArcIdentifier { operator: 1, index: 2 } },
    ];
    run_backend_optimizations(&mut d);
    assert_eq!(d.graph.arcs.direct.len(), 3);
    let once: Vec<String> = d.graph.arcs.direct.iter().map(|a| a.to_string()).collect();
    run_backend_optimizations(&mut d);
    let twice: Vec<String> = d.graph.arcs.direct.iter().map(|a| a.to_string()).collect();
    assert_eq!(once, twice);
    assert!(d.graph.arcs.dead.is_empty());
}

#[test]
fn backend_rewrites_are_the_dead_end_processing() {
    let make = || {
        let mut d = graph(vec![op(1, ty(&["ns"], "f"), NodeType::FunctionNode)], vec![local(1, 0, 1, 0)], 1);
        d.graph.arcs.dead = vec![DeadArc { source: ArcIdentifier { operator: 1, index: 3 } }];
        d
    };
    let mut x1 = make();
    let mut x2 = make();
    run_backend_optimizations(&mut x1);
    process_dead_ends(&mut x2);
    let a1: Vec<String> = x1.graph.arcs.direct.iter().map(|a| a.to_string()).collect();
    let a2: Vec<String> = x2.graph.arcs.direct.iter().map(|a| a.to_string()).collect();
    assert_eq!(a1, a2);
    assert!(x1.graph.arcs.dead.is_empty() && x2.graph.arcs.dead.is_empty());
}
