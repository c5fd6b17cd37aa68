use ohua_rs::codegen::imports::generate_app_namespaces;
use ohua_rs::codegen::ohua_types::{
    ArcIdentifier, ArcSource, Arcs, DFGraph, DirectArc, Envs, NodeType, OhuaData, Operator,
    OperatorType, SfDependency, StateArc,
};
use ohua_rs::order::{path_lt_exec, sort_dedup_paths, sort_dedup_triples, string_lt};
use ohua_rs::seqs::{sort_dedup_i32, sort_dedup_usize};
use ohua_rs::text::{i32_to_string, u64_to_string, usize_to_string, Tokens};

fn ty(ns: &[&str], name: &str) -> OperatorType {
    OperatorType { qbNamespace: ns.iter().map(|s| s.to_string()).collect(), qbName: name.to_string() }
}

#[test]
fn decimal_rendering() {
    assert_eq!(i32_to_string(-42), "-42");
    assert_eq!(i32_to_string(i32::MIN), "-2147483648");
    assert_eq!(i32_to_string(0), "0");
    assert_eq!(u64_to_string(1234567890123), "1234567890123");
    assert_eq!(usize_to_string(7), "7");
}

#[test]
fn tokens_render_with_single_spaces() {
    let mut t = Tokens::new();
    assert_eq!(t.to_string(), "");
    t.push("a");
    t.push("::");
    t.push_string("b".to_string());
    assert_eq!(t.to_string(), "a :: b");
    assert_eq!(t.len(), 3);
    let mut u = Tokens::new();
    u.extend_joined(&vec![t.copy(), Tokens::new(), t], ",");
    assert_eq!(u.to_string(), "a :: b , , a :: b");
}

#[test]
fn function_names() {
    assert_eq!(ty(&["a", "b"], "f").function_name(), "a::b::f");
    assert_eq!(ty(&[], "f").function_name(), "f");
    assert_eq!(ty(&["x"], "g").qualified_name(), "x::g");
}

#[test]
fn imports_are_sorted_and_unique() {
    let tys = vec![ty(&["b"], "x"), ty(&["a", "c"], "y"), ty(&["a"], "z"), ty(&["a", "c"], "y"), ty(&[], "root")];
    let uses: Vec<String> = generate_app_namespaces(&tys).iter().map(|t| t.to_string()).collect();
    assert_eq!(uses, vec!["use a :: c :: y ;", "use a :: z ;", "use b :: x ;"]);
}

#[test]
fn orders_and_sorting() {
    assert!(string_lt(&"ab".to_string(), &"b".to_string()));
    assert!(string_lt(&"a".to_string(), &"ab".to_string()));
    assert!(!string_lt(&"ab".to_string(), &"ab".to_string()));
    let p = |v: &[&str]| v.iter().map(|s| s.to_string()).collect::<Vec<String>>();
    assert!(path_lt_exec(&p(&["a"]), &p(&["a", "b"])));
    assert!(!path_lt_exec(&p(&["b"]), &p(&["a", "z"])));
    assert_eq!(sort_dedup_paths(vec![p(&["b"]), p(&["a"]), p(&["b"])]), vec![p(&["a"]), p(&["b"])]);
    assert_eq!(sort_dedup_i32(&vec![3, -1, 3, 0]), vec![-1, 0, 3]);
    assert_eq!(sort_dedup_usize(&vec![5, 5, 1]), vec![1, 5]);
    assert_eq!(sort_dedup_triples(&vec![(1, 2, 3), (0, 9, 9), (1, 2, 3), (1, 0, 5)]), vec![(0, 9, 9), (1, 0, 5), (1, 2, 3)]);
}

#[test]
fn source_text_of_the_graph() {
    let t = ty(&["ns1"], "f");
    assert_eq!(t.to_string(), "OperatorType {qbNamespace: vec![String::from(\"ns1\"), ], qbName: String::from(\"f\")}");
    assert_eq!(NodeType::OperatorNode.to_string(), "OperatorNode");
    assert_eq!(ArcIdentifier { operator: 1, index: -1 }.to_string(), "ArcIdentifier {operator: 1, index: -1}");
    assert_eq!(Envs::NumericLit { content: 4 }.to_string(), "NumericLit(4)");
    assert_eq!(Envs::UnitLit {}.to_string(), "UnitLit()");
    assert_eq!(Envs::FunRefLit { contents: (ty(&[], "g"), 0) }.to_string(), "FunRefLit(OperatorType {qbNamespace: vec![], qbName: String::from(\"g\")})");
    assert_eq!(ArcSource::Env(Envs::EnvRefLit { content: 0 }).to_string(), "ValueType::EnvironmentVal(EnvRefLit(0))");
    let d = OhuaData {
        graph: DFGraph {
            operators: vec![Operator { operatorId: 0, operatorType: t, nodeType: NodeType::FunctionNode }],
            arcs: Arcs {
                direct: vec![DirectArc {
                    target: ArcIdentifier { operator: 0, index: 0 },
                    source: ArcSource::Env(Envs::EnvRefLit { content: 0 }),
                }],
                compound: vec![],
                state: vec![StateArc { target: 0, source: ArcSource::Local(ArcIdentifier { operator: 1, index: 0 }) }],
                dead: vec![],
            },
            return_arc: ArcIdentifier { operator: 0, index: -1 },
            input_targets: vec![ArcIdentifier { operator: 0, index: 0 }],
        },
        mainArity: 1,
        sfDependencies: vec![SfDependency { qbNamespace: vec!["ns1".to_string()], qbName: "f".to_string() }],
    };
    assert_eq!(
        d.to_string(),
        "OhuaData {graph: DFGraph {operators: vec![Operator {operatorId: 0, operatorType: OperatorType {qbNamespace: vec![String::from(\"ns1\"), ], qbName: String::from(\"f\")}, nodeType: FunctionNode}, ], arcs: vec![DirectArc {target: ArcIdentifier {operator: 0, index: 0}, source: ValueType::EnvironmentVal(EnvRefLit(0))}, ], states: vec![StateArc {target: 0, source: ValueType::LocalVal(ArcIdentifier {operator: 1, index: 0})}, ], return_arc: ArcIdentifier {operator: 0, index: -1}, input_targets: vec![ArcIdentifier {operator: 0, index: 0}, ]}, mainArity: 1, sfDependencies: vec![SfDependency {qbNamespace: vec![String::from(\"ns1\"), ], qbName: String::from(\"f\")}, ]}"
    );
}
