use ohua_rs::codegen::imports::generate_imports;
use ohua_rs::codegen::ohuac::{hashed_name, ohuac_file_parts};
use ohua_rs::codegen::ohua_types::{
    ArcIdentifier, ArcSource, Arcs, DFGraph, DirectArc, Envs, NodeType, OhuaData, Operator,
    OperatorType,
};
use ohua_rs::codegen::tasks::{generate_ops, generate_sfns};
use ohua_rs::codegen::typedgen::{generate_arcs, get_num_outputs, get_outputs};
use ohua_rs::text::Tokens;

fn producer_consumer(
    prod: OperatorType,
    prod_t: NodeType,
    con: OperatorType,
    con_t: NodeType,
    out_idx: i32,
) -> OhuaData {
    OhuaData {
        graph: DFGraph {
            operators: vec![
                Operator { operatorId: 0, operatorType: prod, nodeType: prod_t },
                Operator { operatorId: 1, operatorType: con, nodeType: con_t },
            ],
            arcs: Arcs {
                direct: vec![DirectArc {
                    target: ArcIdentifier { operator: 1, index: 0 },
                    source: ArcSource::Local(ArcIdentifier { operator: 0, index: out_idx }),
                }],
                compound: vec![],
                state: vec![],
                dead: vec![],
            },
            return_arc: ArcIdentifier { operator: 1, index: -1 },
            input_targets: Vec::new(),
        },
        mainArity: 1,
        sfDependencies: Vec::new(),
    }
}

/// The call arguments of `some_algo(arg1)`, as the macro hands them over.
fn call_args(expression: &str) -> Vec<Tokens> {
    let expr: syn::Expr = syn::parse_str(expression).unwrap();
    let call = match expr {
        syn::Expr::Call(c) => c,
        _ => panic!("not a call"),
    };
    call.args
        .iter()
        .map(|a| {
            let text = quote::ToTokens::to_token_stream(a).to_string();
            Tokens { toks: text.split_whitespace().map(|t| t.to_string()).collect() }
        })
        .collect()
}

#[test]
fn typedgen_sf_code_gen() {
    let compiled = producer_consumer(
        OperatorType { qbNamespace: vec!["ns1".to_string()], qbName: "some_sfn".to_string() },
        NodeType::FunctionNode,
        OperatorType { qbNamespace: vec!["ns2".to_string()], qbName: "some_other_sfn".to_string() },
        NodeType::FunctionNode,
        0,
    );

    let generated_imports =
        generate_imports(&compiled.graph.operators, &compiled.graph.arcs.direct).to_string();
    assert!("use std :: sync :: mpsc :: Receiver ; use ohua_runtime :: * ; use ohua_runtime :: arcs :: * ; use ohua_runtime :: lang :: { send_once , Unit } ; use ns1 :: some_sfn ; use ns2 :: some_other_sfn ;" == generated_imports);

    let generated_arcs = generate_arcs(&compiled).to_string();
    assert!(
        "let ( sf_0_out_0__sf_1_in_0 , sf_1_in_0 ) = std :: sync :: mpsc :: channel ( ) ;"
            == generated_arcs
    );

    let generated_sfns = generate_sfns(&compiled, &Vec::new()).to_string();
    assert!("let mut tasks : Vec < Box < dyn FnOnce ( ) -> Result < ( ) , RunError > + Send + 'static >> = Vec :: new ( ) ; tasks . push ( Box :: new ( move || { let r = some_sfn ( ) ; sf_0_out_0__sf_1_in_0 . dispatch ( r ) ? ; Ok ( ( ) ) } ) ) ; tasks . push ( Box :: new ( move || { loop { let r = some_other_sfn ( sf_1_in_0 . recv ( ) ? ) ; result_snd . dispatch ( r ) ? ; } } ) ) ;" == generated_sfns);
}

#[test]
fn typedgen_op_code_gen() {
    let compiled = producer_consumer(
        OperatorType { qbNamespace: vec!["ns1".to_string()], qbName: "some_op".to_string() },
        NodeType::OperatorNode,
        OperatorType { qbNamespace: vec!["ns2".to_string()], qbName: "some_other_op".to_string() },
        NodeType::OperatorNode,
        0,
    );

    let generated_arcs = generate_arcs(&compiled).to_string();
    assert!(
        "let ( sf_0_out_0__sf_1_in_0 , sf_1_in_0 ) = std :: sync :: mpsc :: channel ( ) ;"
            == generated_arcs
    );

    let generated_ops = generate_ops(&compiled).to_string();
    assert!("tasks . push ( Box :: new ( move || { loop { some_op ( & sf_0_out_0__sf_1_in_0 ) ? ; } } ) ) ; tasks . push ( Box :: new ( move || { loop { some_other_op ( & sf_1_in_0 , & result_snd ) ? ; } } ) ) ;" == generated_ops);
}

#[test]
fn typedgen_env_args_code_gen() {
    let compiled = OhuaData {
        graph: DFGraph {
            operators: vec![Operator {
                operatorId: 0,
                operatorType: OperatorType {
                    qbNamespace: vec!["ns1".to_string()],
                    qbName: "some_sfn".to_string(),
                },
                nodeType: NodeType::FunctionNode,
            }],
            arcs: Arcs {
                direct: vec![DirectArc {
                    target: ArcIdentifier { operator: 0, index: 0 },
                    source: ArcSource::Env(Envs::EnvRefLit { content: 0 }),
                }],
                compound: vec![],
                state: vec![],
                dead: vec![],
            },
            return_arc: ArcIdentifier { operator: 1, index: -1 },
            input_targets: Vec::new(),
        },
        mainArity: 1,
        sfDependencies: Vec::new(),
    };

    let call_args = call_args("some_algo(arg1)");

    let generated_arcs = generate_arcs(&compiled).to_string();
    assert!("" == generated_arcs);

    let generated_sfns = generate_sfns(&compiled, &call_args).to_string();
    assert!("let mut tasks : Vec < Box < dyn FnOnce ( ) -> Result < ( ) , RunError > + Send + 'static >> = Vec :: new ( ) ; tasks . push ( Box :: new ( move || { let r = some_sfn ( arg1 ) ; ; Ok ( ( ) ) } ) ) ;" == generated_sfns);
}

fn out_arc(from: (i32, i32), to: (i32, i32)) -> DirectArc {
    DirectArc {
        target: ArcIdentifier { operator: to.0, index: to.1 },
        source: ArcSource::Local(ArcIdentifier { operator: from.0, index: from.1 }),
    }
}

#[test]
fn output_ports_of_an_operator() {
    let arcs = vec![out_arc((1, 2), (2, 0)), out_arc((3, 0), (2, 1)), out_arc((1, 0), (4, 0)), out_arc((1, 2), (5, 0))];
    assert_eq!(get_num_outputs(&1, &arcs), 3);
    assert_eq!(get_outputs(&1, &arcs), vec![0, 2, 2]);
    assert_eq!(get_num_outputs(&7, &arcs), 0);
    assert!(get_outputs(&7, &arcs).is_empty());
}

#[test]
fn algorithm_path_names_its_file() {
    let parts = ohuac_file_parts(&vec!["algos".to_string(), "pipeline".to_string()]);
    assert_eq!(parts, vec!["src".to_string(), "algos".to_string(), "pipeline.ohuac".to_string()]);
    assert_eq!(ohuac_file_parts(&vec!["main".to_string()]), vec!["src".to_string(), "main.ohuac".to_string()]);
}

#[test]
fn hashed_names_end_in_the_hash() {
    assert_eq!(hashed_name("algo", 1234), "algo1234");
    assert_eq!(hashed_name("x", 0), "x0");
    assert_eq!(hashed_name("", u64::MAX), "18446744073709551615");
}
