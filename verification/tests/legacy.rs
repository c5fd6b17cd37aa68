use ohua_rs::legacy::errors::{check_main_arity, CodeGenerationError, TypeExtractionError};
use ohua_rs::legacy::templates::{sorted_recv_insertion, sorted_sender_insertion};
use ohua_rs::legacy::type_extract::algo_io_imports::find_paths_for_used_types;
use ohua_rs::legacy::type_extract::parser::{
    bare_type_names, check_function, check_traverse_ok, find_paths_for_type, is_primitive_type, lookup_info_from, resolve_use_stmt,
    traverse_item_tree, FnArg, FnSig, FunctionInfo, ImplBlock, Item, LookupInfo, LookupTable, SourceFile, Type,
    TypeExpr, TypedArg, UseTree,
};
use ohua_rs::legacy::type_extract::{imports_for_tokens, TypeKnowledgeBase};
use ohua_rs::legacy::type_extract::knowledge::{is_builtin, knowledge_from_modules};
use ohua_rs::legacy::type_extract::syntax::parse_module;
use ohua_rs::legacy::types::{
    AlgorithmArguments, Arc, ArcIdentifier, ArcSource, DFGraph, OhuaData, Operator, OperatorType, SfDependency,
    ValueType,
};
use ohua_rs::legacy::wrapper_code::{analyze_namespaces, generate_mainarg_wrappers, generate_sfn_wrapper, join_path};
use ohua_rs::legacy::wrapper_file::generate_wrappers;
use ohua_rs::legacy::wrappers::{get_operator_io_by_id, Output};
use ohua_rs::template::{repeat_str, replace_str};
use ohua_rs::legacy::modgen::generate_modfile;
use ohua_rs::legacy::source_text::generate_runtime_data;
use ohua_rs::legacy::typecasts::{generate_casts, get_argument_types};
use ohua_rs::legacy::types::empty_fn;
use ohua_rs::legacy::channels::generate_channels;
use ohua_rs::legacy::function_map::{analyze_dfg, wrap_function};
use ohua_rs::legacy::fixed_casts;

fn strings(parts: &[&str]) -> Vec<String> {
    parts.iter().map(|s| s.to_string()).collect()
}

fn op(id: i32, ns: &[&str], name: &str) -> Operator {
    Operator {
        operatorId: id,
        operatorType: OperatorType { qbNamespace: strings(ns), qbName: name.to_string(), func: String::new() },
    }
}

fn local_arc(from: (i32, i32), to: (i32, i32)) -> Arc {
    Arc {
        target: ArcIdentifier { operator: to.0, index: to.1 },
        source: ArcSource {
            s_type: "local".to_string(),
            val: ValueType::LocalVal(ArcIdentifier { operator: from.0, index: from.1 }),
        },
    }
}

fn env_arc(arg: i32, to: (i32, i32)) -> Arc {
    Arc {
        target: ArcIdentifier { operator: to.0, index: to.1 },
        source: ArcSource { s_type: "env".to_string(), val: ValueType::EnvironmentVal(arg) },
    }
}

fn data(ops: Vec<Operator>, arcs: Vec<Arc>, ret: (i32, i32), arity: i32) -> OhuaData {
    OhuaData {
        graph: DFGraph {
            operators: ops,
            arcs,
            return_arc: ArcIdentifier { operator: ret.0, index: ret.1 },
            input_targets: vec![],
        },
        mainArity: arity,
        sfDependencies: vec![],
    }
}

fn path_ty(segs: &[&str]) -> TypeExpr {
    TypeExpr::Path(strings(segs))
}

fn dep(ns: &[&str], name: &str) -> SfDependency {
    SfDependency { qbNamespace: strings(ns), qbName: name.to_string() }
}

fn typed(ty: TypeExpr, tokens: &str) -> TypedArg {
    TypedArg { ty, tokens: tokens.to_string() }
}

#[test]
fn replace_fills_every_placeholder_from_the_left() {
    assert_eq!(replace_str("a{x}b{x}", "{x}", "1"), "a1b1");
    assert_eq!(replace_str("aaa", "aa", "b"), "ba");
    assert_eq!(replace_str("hello::world::x", "::", "_"), "hello_world_x");
    assert_eq!(replace_str("none here", "{x}", "1"), "none here");
    assert_eq!(repeat_str("ab, ", 3), "ab, ab, ab, ");
    assert_eq!(repeat_str("ab", 0), "");
}

#[test]
fn sfn_wrapper_single_output() {
    let skeleton = "fn {escaped_name}(args) {\n{incoming_args}let res = {name}({fn_args});\nvec![{outgoing_args}]\n}\n";
    let w = generate_sfn_wrapper(skeleton, "hello::calc", 2, Output::Single(1), 3);
    assert_eq!(
        w,
        "fn hello_calc3(args) {\nlet arg0 = Box::from(args.pop().unwrap());\nlet arg1 = Box::from(args.pop().unwrap());\nlet res = hello::calc(*arg0, *arg1);\nvec![vec![Box::from(Box::new(res))]]\n}\n"
    );
}

#[test]
fn sfn_wrapper_outputs_cloned_and_unused() {
    let w = generate_sfn_wrapper("{outgoing_args}", "m::f", 0, Output::Single(2), 1);
    assert_eq!(w, "vec![Box::from(Box::new(res.clone())), Box::from(Box::new(res.clone())), ]");
    let w = generate_sfn_wrapper("[{outgoing_args}]", "m::f", 0, Output::Single(0), 1);
    assert_eq!(w, "[]");
    let w = generate_sfn_wrapper("{outgoing_args}", "m::f", 0, Output::Tuple(vec![1, 2]), 1);
    assert_eq!(
        w,
        "vec![Box::from(Box::new(res.0))], vec![Box::from(Box::new(res.1.clone())), Box::from(Box::new(res.1.clone())), ], "
    );
    let w = generate_sfn_wrapper("{fn_args}|{incoming_args}", "m::f", 0, Output::Single(1), 1);
    assert_eq!(w, "|");
}

#[test]
fn namespaces_leave_out_the_builtin_operators() {
    let d = data(
        vec![op(1, &["hello"], "calc"), op(2, &["ohua", "lang"], "id"), op(3, &["a", "b"], "f"), op(4, &["hello"], "world")],
        vec![],
        (1, -1),
        0,
    );
    assert_eq!(analyze_namespaces(&d), vec!["a::b".to_string(), "hello".to_string()]);
    assert_eq!(join_path(&strings(&["a", "b", "c"])), "a::b::c");
    assert_eq!(join_path(&strings(&[])), "");
}

#[test]
fn mainarg_wrappers_for_used_arguments_only() {
    let d = data(
        vec![op(1, &["m"], "f")],
        vec![env_arc(0, (1, 0)), env_arc(2, (1, 1)), env_arc(2, (1, 2))],
        (1, -1),
        3,
    );
    let (ops, code) = generate_mainarg_wrappers(5, &d, &strings(&["i32", "String", "u8"]), "<{n}:{arg_type}:{argument}>");
    assert_eq!(
        code,
        "<0:i32:Box::from(Box::new(arg))><2:u8:Box::from(Box::new(arg.clone())), Box::from(Box::new(arg.clone())), >"
    );
    assert_eq!(ops.len(), 2);
    assert_eq!(ops[0].operatorId, 5);
    assert_eq!(ops[0].operatorType.qbName, "mainarg0");
    assert_eq!(ops[0].operatorType.func, "mainarg0");
    assert!(ops[0].operatorType.qbNamespace.is_empty());
    assert_eq!(ops[1].operatorId, 7);
    assert_eq!(ops[1].operatorType.qbName, "mainarg2");
}

#[test]
fn wrappers_rewrite_the_graph() {
    let d = data(
        vec![op(1, &["hello"], "calc"), op(2, &["ohua", "lang"], "id")],
        vec![env_arc(0, (1, 0)), local_arc((1, -1), (2, 0))],
        (2, -1),
        1,
    );
    let (e, text) = generate_wrappers(
        d,
        &strings(&["i32"]),
        &strings(&["x::Y"]),
        "//skel\n",
        "W({escaped_name})",
        "M({n})",
    );
    assert_eq!(text, "//skel\nuse hello;\n\nuse x::Y;\nW(hello_calc1)M(0)");
    assert_eq!(e.graph.operators.len(), 3);
    assert_eq!(e.graph.operators[0].operatorType.func, "hello_calc1");
    assert_eq!(e.graph.operators[1].operatorType.func, "|_| panic!(\"Undefined operator function!\")");
    assert_eq!(e.graph.operators[2].operatorId, 3);
    assert_eq!(e.graph.operators[2].operatorType.qbName, "mainarg0");
    assert_eq!(e.graph.input_targets, vec![ArcIdentifier { operator: 3, index: 0 }]);
    assert_eq!(e.graph.arcs[0].source.s_type, "local");
    assert_eq!(e.graph.arcs[0].source.val, ValueType::LocalVal(ArcIdentifier { operator: 3, index: -1 }));
    assert_eq!(e.graph.arcs[1].source.val, ValueType::LocalVal(ArcIdentifier { operator: 1, index: -1 }));
}

#[test]
fn operator_io_counts() {
    let arcs = vec![local_arc((1, 0), (2, 0)), local_arc((1, 1), (3, 0)), local_arc((1, 1), (4, 0)), env_arc(0, (1, 0))];
    let ret = ArcIdentifier { operator: 4, index: -1 };
    let (inputs, out) = get_operator_io_by_id(1, &arcs, &ret);
    assert_eq!(inputs, 1);
    match out {
        Output::Tuple(v) => assert_eq!(v, vec![1, 2]),
        Output::Single(_) => panic!("expected a tuple"),
    }
    let (inputs, out) = get_operator_io_by_id(4, &arcs, &ret);
    assert_eq!(inputs, 1);
    match out {
        Output::Single(n) => assert_eq!(n, 1),
        Output::Tuple(_) => panic!("expected a single value"),
    }
}

#[test]
fn channel_ends_are_placed_by_port() {
    let mut recvs: Vec<(u32, &str)> = vec![];
    sorted_recv_insertion(&mut recvs, "a", 0);
    sorted_recv_insertion(&mut recvs, "b", 1);
    // no port is at least 1, so the receiver goes to the end
    assert_eq!(recvs, vec![(0, "a"), (1, "b")]);
    sorted_recv_insertion(&mut recvs, "d", 3);
    sorted_recv_insertion(&mut recvs, "e", 2);
    assert_eq!(recvs, vec![(0, "a"), (1, "b"), (2, "e"), (3, "d")]);
    let mut recvs: Vec<(u32, &str)> = vec![(0, "a"), (1, "b")];
    sorted_recv_insertion(&mut recvs, "c", 1);
    assert_eq!(recvs, vec![(0, "a"), (1, "c"), (1, "b")]);
    let mut senders: Vec<(u32, Vec<&str>)> = vec![];
    sorted_sender_insertion(&mut senders, "x", 1);
    sorted_sender_insertion(&mut senders, "y", 0);
    sorted_sender_insertion(&mut senders, "z", 1);
    assert_eq!(senders, vec![(0, vec!["y"]), (1, vec!["x", "z"])]);
}

#[test]
fn bare_names_of_composite_types() {
    let t = TypeExpr::Tuple(vec![
        path_ty(&["Foo"]),
        TypeExpr::Reference(Box::new(path_ty(&["Bar"]))),
        path_ty(&["std", "Baz"]),
        TypeExpr::BareFn(vec![path_ty(&["Qux"])], Some(Box::new(path_ty(&["Foo"])))),
    ]);
    let mut names = bare_type_names(&t);
    names.sort();
    names.dedup();
    assert_eq!(names, strings(&["Bar", "Foo", "Qux"]));
    assert!(bare_type_names(&TypeExpr::Never).is_empty());
}

#[test]
fn primitive_types() {
    assert!(is_primitive_type(&"usize".to_string()));
    assert!(is_primitive_type(&"()".to_string()));
    assert!(!is_primitive_type(&"String".to_string()));
}

#[test]
fn use_trees_resolve_to_entries() {
    let tree = UseTree::Path(
        "a".to_string(),
        Box::new(UseTree::Group(vec![
            UseTree::Name("B".to_string()),
            UseTree::Rename("C".to_string(), "D".to_string()),
            UseTree::Name("self".to_string()),
            UseTree::Glob,
        ])),
    );
    let table = resolve_use_stmt(&tree, None);
    let b = table.get(&"B".to_string()).unwrap();
    assert_eq!(b.import_path, "a::B");
    assert_eq!(b.original_name, "B");
    assert!(!b.is_renamed());
    let d = table.get(&"D".to_string()).unwrap();
    assert_eq!(d.import_path, "a::C");
    assert_eq!(d.original_name, "C");
    assert_eq!(d.outside_name, Some("D".to_string()));
    assert!(d.is_renamed());
    let s = table.get(&"".to_string()).unwrap();
    assert_eq!(s.import_path, "a::");
    assert!(table.get(&"C".to_string()).is_none());
}

#[test]
fn import_paths_of_a_type() {
    let mut table = LookupTable::new();
    table.insert(
        "Map".to_string(),
        LookupInfo { outside_name: Some("Map".to_string()), original_name: "HashMap".to_string(), import_path: "std::collections::HashMap".to_string() },
    );
    let (k, info) = lookup_info_from(&"Local".to_string(), &dep(&["m", "n"], "f"));
    assert_eq!(k, "Local");
    assert_eq!(info.import_path, "m::n::Local");
    table.insert(k, info);
    let t = TypeExpr::Tuple(vec![path_ty(&["Map"]), path_ty(&["i32"]), path_ty(&["Local", "Inner"])]);
    assert_eq!(find_paths_for_type(&t, &table), strings(&["std::collections::HashMap as Map", "m::n::Local"]));
}

#[test]
fn function_types_from_the_item_tree() {
    let target = dep(&["m"], "f");
    let items = vec![
        Item::Use(UseTree::Path("x".to_string(), Box::new(UseTree::Name("Y".to_string())))),
        Item::Struct("S".to_string()),
        Item::Fn(FnSig { ident: "g".to_string(), inputs: vec![], output: None }),
        Item::Fn(FnSig {
            ident: "f".to_string(),
            inputs: vec![
                FnArg::Receiver,
                FnArg::Typed(typed(path_ty(&["Y"]), "Y")),
                FnArg::Typed(typed(TypeExpr::Path(strings(&["Vec"])), "Vec < i32 >")),
            ],
            output: Some(typed(path_ty(&["S"]), "S")),
        }),
    ];
    let (args, ret) = traverse_item_tree(&items, &target).unwrap();
    assert_eq!(args.len(), 2);
    assert_eq!(args[0].name, "Y");
    assert_eq!(args[0].path, Some(strings(&["x::Y"])));
    assert_eq!(args[1].name, "Vec<i32>");
    assert_eq!(args[1].path, None);
    assert_eq!(ret.name, "S");
    assert_eq!(ret.path, Some(strings(&["m::S"])));
    assert!(traverse_item_tree(&items, &dep(&["m"], "h")).is_none());
}

#[test]
fn methods_of_impl_blocks_are_searched() {
    let target = dep(&["m"], "make");
    let items = vec![Item::Impl(ImplBlock {
        self_ty: path_ty(&["Thing"]),
        methods: vec![FnSig { ident: "make".to_string(), inputs: vec![], output: Some(typed(path_ty(&["Thing"]), "Thing")) }],
    })];
    let (args, ret) = traverse_item_tree(&items, &target).unwrap();
    assert!(args.is_empty());
    assert_eq!(ret.name, "Thing");
    assert_eq!(ret.path, Some(strings(&["m::Thing"])));
    let sig = FnSig { ident: "make".to_string(), inputs: vec![], output: None };
    let (_, unit) = check_function(&sig, &target, &LookupTable::new()).unwrap();
    assert_eq!(unit.name, "()");
    assert_eq!(unit.path, None);
}

#[test]
fn extraction_reports_a_missing_function() {
    let tree = SourceFile { items: vec![Item::Mod, Item::Trait] };
    match FunctionInfo::extract(dep(&["a", "b"], "f"), tree) {
        Err(TypeExtractionError::FunctionNotFoundInModule(f, m)) => {
            assert_eq!(f, "f");
            assert_eq!(m, "a::b");
        },
        _ => panic!("expected FunctionNotFoundInModule"),
    }
    let tree = SourceFile { items: vec![Item::Fn(FnSig { ident: "f".to_string(), inputs: vec![], output: None })] };
    let info = FunctionInfo::extract(dep(&["a"], "f"), tree).ok().unwrap();
    assert_eq!(info.name, "f");
    assert_eq!(info.namespace, strings(&["a"]));
    assert_eq!(info.return_val.name, "()");
}

fn knowledge() -> TypeKnowledgeBase {
    TypeKnowledgeBase {
        functions: vec![
            FunctionInfo {
                name: "f".to_string(),
                namespace: strings(&["a"]),
                arguments: vec![Type { name: "Vec<Foo>".to_string(), path: Some(strings(&["a::Foo"])) }],
                return_val: Type { name: "()".to_string(), path: None },
            },
            FunctionInfo {
                name: "g".to_string(),
                namespace: strings(&["b"]),
                arguments: vec![],
                return_val: Type { name: "Bar".to_string(), path: Some(strings(&["b::Bar"])) },
            },
        ],
        algo_io: AlgorithmArguments { return_type: "Bar".to_string(), argument_types: strings(&["Vec<Foo>", "Bar"]) },
    }
}

#[test]
fn knowledge_base_lookups() {
    let kb = knowledge();
    assert_eq!(kb.info_for_function("g", &strings(&["b"])).unwrap().return_val.name, "Bar");
    assert!(kb.info_for_function("g", &strings(&["a"])).is_none());
    assert_eq!(find_paths_for_used_types(&"Vec < Foo >".to_string(), &kb.functions), strings(&["a::Foo"]));
    assert_eq!(kb.find_imports_for_algo_io(), Some(strings(&["a::Foo", "b::Bar"])));
    let mut unknown = knowledge();
    unknown.algo_io.argument_types = strings(&["Baz"]);
    assert_eq!(unknown.find_imports_for_algo_io(), None);
    let mut broken = knowledge();
    broken.algo_io.argument_types = strings(&["Vec<"]);
    assert_eq!(broken.find_imports_for_algo_io(), None);
}

#[test]
fn generation_error_descriptions() {
    assert_eq!(CodeGenerationError::InconsistentMainArity.description(), "Inconsistent MainArity");
    let e = CodeGenerationError::OperatorCreationFailed(std::io::Error::new(std::io::ErrorKind::Other, "x"));
    assert_eq!(e.description(), "Operator Module generation failed");
}

#[test]
fn modfile_takes_the_algorithm_signature() {
    let args = AlgorithmArguments { return_type: "String".to_string(), argument_types: strings(&["i32", "Vec<u8>"]) };
    let m = generate_modfile(&args, "fn main({input_args}) -> {return_type} {\n{send_input}}", "send({n});\n");
    assert_eq!(m, "fn main(arg0: i32, arg1: Vec<u8>, ) -> String {\nsend(0);\nsend(1);\n}");
}

#[test]
fn graph_rendered_as_rust() {
    let mut d = data(vec![op(1, &["hello"], "calc")], vec![env_arc(0, (1, 0)), local_arc((1, -1), (2, 0))], (1, -1), 1);
    d.graph.operators[0].operatorType.func = "hello_calc1".to_string();
    d.graph.input_targets.push(ArcIdentifier { operator: 2, index: 0 });
    d.sfDependencies.push(dep(&["hello"], "calc"));
    let text = d.to_string();
    assert_eq!(
        text,
        "OhuaData {graph: DFGraph {operators: vec![Operator {operatorId: 1, operatorType: OperatorType {qbNamespace: vec![String::from(\"hello\"), ], qbName: String::from(\"calc\"), func: Box::new(hello_calc1)}}, ], arcs: vec![Arc {target: ArcIdentifier {operator: 1, index: 0}, source: ArcSource {s_type: String::from(\"env\"), val: ValueType::EnvironmentVal(0)}}, Arc {target: ArcIdentifier {operator: 2, index: 0}, source: ArcSource {s_type: String::from(\"local\"), val: ValueType::LocalVal(ArcIdentifier {operator: 1, index: -1})}}, ], return_arc: ArcIdentifier {operator: 1, index: -1}, input_targets: vec![ArcIdentifier {operator: 2, index: 0}, ]}, mainArity: 1, sfDependencies: vec![SfDependency {qbNamespace: vec![String::from(\"hello\"), ], qbName: String::from(\"calc\")}, ]}"
    );
    let small = data(vec![], vec![], (1, -1), 0);
    assert_eq!(
        generate_runtime_data(small, "pub fn generate() -> OhuaData { {dump} }"),
        "pub fn generate() -> OhuaData { OhuaData {graph: DFGraph {operators: vec![], arcs: vec![], return_arc: ArcIdentifier {operator: 1, index: -1}, input_targets: vec![]}, mainArity: 0, sfDependencies: vec![]} }"
    );
    assert_eq!(empty_fn(), "");
}

#[test]
fn casts_for_every_type_in_the_graph() {
    let kb = knowledge();
    let ops = vec![op(1, &["a"], "f"), op(2, &["b"], "g")];
    assert_eq!(get_argument_types(&ops[0].operatorType, &kb), strings(&["Vec<Foo>", "()"]));
    assert_eq!(get_argument_types(&ops[1].operatorType, &kb), strings(&["Bar"]));
    let text = generate_casts(&ops, &kb, "//generic\n", "cast({target_type});");
    assert_eq!(text, "//generic\ncast(());cast(Bar);cast(Vec<Foo>);");
}

#[test]
fn channels_connect_the_ports() {
    let arcs = vec![local_arc((1, -1), (2, 0)), env_arc(0, (1, 0))];
    let ret = ArcIdentifier { operator: 2, index: -1 };
    let inputs = vec![ArcIdentifier { operator: 1, index: 0 }];
    let (input_chans, channels, output) = generate_channels::<i32>(2, &arcs, &ret, &inputs);
    assert_eq!(input_chans.len(), 1);
    assert_eq!(channels.len(), 2);
    assert_eq!(channels[0].0.iter().map(|e| e.0).collect::<Vec<u32>>(), vec![0]);
    assert_eq!(channels[0].1.iter().map(|e| (e.0, e.1.len())).collect::<Vec<(u32, usize)>>(), vec![(0, 1)]);
    assert_eq!(channels[1].0.iter().map(|e| e.0).collect::<Vec<u32>>(), vec![0]);
    assert_eq!(channels[1].1.iter().map(|e| (e.0, e.1.len())).collect::<Vec<(u32, usize)>>(), vec![(0, 1)]);
    input_chans[0].send(5).unwrap();
    assert_eq!(channels[0].0[0].1.recv().unwrap(), 5);
    channels[0].1[0].1[0].send(6).unwrap();
    assert_eq!(channels[1].0[0].1.recv().unwrap(), 6);
    channels[1].1[0].1[0].send(7).unwrap();
    assert_eq!(output.recv().unwrap(), 7);
}

#[test]
fn unsupported_signature_types_are_detected() {
    let target = dep(&["m"], "f");
    let never = vec![Item::Fn(FnSig { ident: "f".to_string(), inputs: vec![], output: Some(typed(TypeExpr::Never, "!")) })];
    assert!(!check_traverse_ok(&never, &target));
    let other = vec![
        Item::Fn(FnSig { ident: "g".to_string(), inputs: vec![], output: Some(typed(TypeExpr::Never, "!")) }),
        Item::Fn(FnSig { ident: "f".to_string(), inputs: vec![FnArg::Typed(typed(path_ty(&["u8"]), "u8"))], output: None }),
    ];
    assert!(check_traverse_ok(&other, &target));
    let in_impl = vec![Item::Impl(ImplBlock {
        self_ty: path_ty(&["T"]),
        methods: vec![FnSig { ident: "f".to_string(), inputs: vec![FnArg::Typed(typed(TypeExpr::ImplTrait, "impl X"))], output: None }],
    })];
    assert!(!check_traverse_ok(&in_impl, &target));
}

#[test]
fn replacing_a_placeholder_by_itself_changes_nothing() {
    let s = "a{x}b{x}{x}c";
    assert_eq!(replace_str(s, "{x}", "{x}"), s);
    assert_eq!(replace_str(s, "{y}", "zz"), s);
}

#[test]
fn lookup_reads_what_insert_wrote() {
    let mut table = LookupTable::new();
    table.insert("A".to_string(), LookupInfo { outside_name: None, original_name: "A".to_string(), import_path: "x::A".to_string() });
    table.insert("B".to_string(), LookupInfo { outside_name: None, original_name: "B".to_string(), import_path: "y::B".to_string() });
    table.insert("A".to_string(), LookupInfo { outside_name: None, original_name: "A".to_string(), import_path: "z::A".to_string() });
    assert_eq!(table.get(&"A".to_string()).unwrap().import_path, "z::A");
    assert_eq!(table.get(&"B".to_string()).unwrap().import_path, "y::B");
    assert!(!table.contains_key(&"C".to_string()));
    let copy = table.copy();
    assert_eq!(copy.get(&"A".to_string()).unwrap().import_path, "z::A");
}

#[test]
fn function_map_of_a_graph() {
    let d = data(
        vec![op(1, &["hello"], "calc"), op(2, &["hello"], "world")],
        vec![env_arc(0, (1, 0)), local_arc((1, -1), (2, 0)), local_arc((1, 1), (2, 1)), local_arc((1, 1), (3, 0))],
        (2, -1),
        1,
    );
    let (entries, namespaces) = analyze_dfg(&d);
    assert_eq!(namespaces, strings(&["hello"]));
    assert_eq!(entries.len(), 2);
    assert_eq!(entries[0].0, "hello::calc");
    assert_eq!((entries[0].1).0, 1);
    assert_eq!((entries[0].1).1, vec![1, 2]);
    assert_eq!((entries[0].1).2, 1);
    assert_eq!(entries[1].0, "hello::world");
    assert_eq!((entries[1].1).0, 2);
    assert_eq!((entries[1].1).1, vec![1]);
}

#[test]
fn first_form_of_the_wrapper() {
    let skeleton = "{escaped_name}|{incoming_args}|{name}({fn_args})|{outgoing_args}";
    assert_eq!(
        wrap_function(skeleton, "hello::calc", 1, vec![1, 2]),
        "hello_calc|let arg0 = Box::from(args.pop().unwrap());\n|hello::calc(*arg0)|vec![Box::from(Box::new(res.0))], vec![Box::from(Box::new(res.1.clone())), Box::from(Box::new(res.1.clone())), ], "
    );
    assert_eq!(
        wrap_function("{outgoing_args}", "f", 0, vec![2]),
        "vec![Box::from(Box::new(res.clone())), Box::from(Box::new(res.clone())), ]"
    );
    assert_eq!(wrap_function("{outgoing_args}", "f", 0, vec![1]), "vec![Box::from(Box::new(res))]");
    assert_eq!(wrap_function("<{outgoing_args}>", "f", 0, vec![]), "<>");
}

#[test]
fn casts_from_the_table_of_known_functions() {
    let ops = vec![op(1, &["hello"], "calc"), op(2, &["strings"], "count"), op(3, &["other"], "f")];
    let args = AlgorithmArguments { return_type: "String".to_string(), argument_types: strings(&["i32"]) };
    assert_eq!(fixed_casts::get_argument_types("strings::count".to_string()), strings(&["String", "usize"]));
    assert!(fixed_casts::get_argument_types("other::f".to_string()).is_empty());
    let text = fixed_casts::generate_casts(&ops, &args, "G;", "c({target_type});");
    assert_eq!(text, "G;c(String);c(i32);c(usize);");
}

#[test]
fn imports_of_printed_types() {
    let kb = knowledge();
    assert_eq!(
        imports_for_tokens(&strings(&["Vec < Foo >", "Bar"]), &kb.functions),
        Some(strings(&["a::Foo", "b::Bar"]))
    );
    assert_eq!(imports_for_tokens(&strings(&[]), &kb.functions), Some(strings(&[])));
    assert_eq!(imports_for_tokens(&strings(&["Bar", "Baz"]), &kb.functions), None);
}

#[test]
fn main_arity_must_match_the_type_dump() {
    assert!(check_main_arity(2, 2).is_ok());
    assert!(matches!(check_main_arity(1, 2), Err(CodeGenerationError::InconsistentMainArity)));
    assert!(matches!(check_main_arity(-1, 0), Err(CodeGenerationError::InconsistentMainArity)));
}

#[test]
fn function_map_keeps_the_last_operator_of_a_function() {
    let d = data(
        vec![op(1, &["m"], "f"), op(2, &["m"], "g"), op(3, &["m"], "f")],
        vec![env_arc(0, (1, 0)), local_arc((1, -1), (2, 0)), local_arc((2, -1), (3, 0))],
        (3, -1),
        1,
    );
    let (entries, namespaces) = analyze_dfg(&d);
    assert_eq!(namespaces, strings(&["m"]));
    assert_eq!(entries.len(), 2);
    assert_eq!(entries[0].0, "m::g");
    assert_eq!((entries[0].1).2, 2);
    assert_eq!(entries[1].0, "m::f");
    assert_eq!((entries[1].1).2, 3);
    assert_eq!((entries[1].1).0, 1);
    assert_eq!((entries[1].1).1, vec![1]);
}

#[test]
fn channel_ends_are_sorted_by_port_at_each_operator() {
    // operator 1 sends from ports 2, 0 and 2; operator 2 receives at ports 1, 0 and 1
    let arcs = vec![local_arc((1, 2), (2, 1)), local_arc((1, 0), (2, 0)), local_arc((1, 2), (2, 1))];
    let ret = ArcIdentifier { operator: 2, index: -1 };
    let inputs = vec![ArcIdentifier { operator: 1, index: 0 }];
    let (_input_chans, channels, _output) = generate_channels::<i32>(2, &arcs, &ret, &inputs);
    assert_eq!(channels[0].0.iter().map(|e| e.0).collect::<Vec<u32>>(), vec![0]);
    assert_eq!(channels[0].1.iter().map(|e| (e.0, e.1.len())).collect::<Vec<(u32, usize)>>(), vec![(0, 1), (2, 2)]);
    assert_eq!(channels[1].0.iter().map(|e| e.0).collect::<Vec<u32>>(), vec![0, 1, 1]);
    assert_eq!(channels[1].1.iter().map(|e| (e.0, e.1.len())).collect::<Vec<(u32, usize)>>(), vec![(0, 1)]);
}

fn io_args() -> AlgorithmArguments {
    AlgorithmArguments { return_type: "i32".to_string(), argument_types: strings(&["Foo"]) }
}

#[test]
fn modules_parse_into_items() {
    let f = parse_module("use a::Foo;\nstruct S;\nimpl S { const C: u8 = 0; fn m(&self, x: &[u8]) -> Foo { todo!() } }\nfn f() {}").unwrap();
    assert_eq!(f.items.len(), 4);
    assert!(matches!(&f.items[0], Item::Use(UseTree::Path(a, _)) if a == "a"));
    assert!(matches!(&f.items[1], Item::Struct(s) if s == "S"));
    match &f.items[2] {
        Item::Impl(b) => {
            assert_eq!(b.methods.len(), 1);
            assert_eq!(b.methods[0].ident, "m");
            assert!(matches!(b.methods[0].inputs[0], FnArg::Receiver));
            assert!(matches!(&b.methods[0].inputs[1], FnArg::Typed(t) if t.tokens == "& [u8]"));
            assert!(matches!(&b.methods[0].output, Some(t) if t.tokens == "Foo"));
        },
        _ => panic!("an impl block was expected"),
    }
    assert!(matches!(&f.items[3], Item::Fn(sig) if sig.ident == "f" && sig.output.is_none()));
    assert!(parse_module("fn (").is_err());
}

#[test]
fn builtin_dependencies() {
    assert!(is_builtin(&dep(&["ohua", "lang"], "id")));
    assert!(!is_builtin(&dep(&["ohua"], "lang")));
    assert!(!is_builtin(&dep(&["m"], "f")));
}

#[test]
fn knowledge_from_module_texts() {
    let deps = vec![dep(&["ohua", "lang"], "id"), dep(&["m"], "f")];
    let modules = vec![Ok(String::new()), Ok("use a::Foo;\npub fn f(x: Foo) -> i32 { 0 }".to_string())];
    let kb = match knowledge_from_modules(io_args(), deps, modules) {
        Some(Ok(kb)) => kb,
        _ => panic!("the knowledge base was expected"),
    };
    assert_eq!(kb.functions.len(), 1);
    assert_eq!(kb.functions[0].name, "f");
    assert_eq!(kb.functions[0].namespace, strings(&["m"]));
    assert_eq!(kb.functions[0].arguments.len(), 1);
    assert_eq!(kb.functions[0].arguments[0].name, "Foo");
    assert_eq!(kb.functions[0].arguments[0].path, Some(strings(&["a::Foo"])));
    assert_eq!(kb.functions[0].return_val.name, "i32");
    assert_eq!(kb.algo_io.argument_types, strings(&["Foo"]));
}

#[test]
fn knowledge_stops_at_the_first_failure() {
    // the module of `f` lacks it, before the module of `g` fails to parse
    let deps = vec![dep(&["m"], "f"), dep(&["n"], "g")];
    let modules = vec![Ok("fn h() {}".to_string()), Ok("fn (".to_string())];
    match knowledge_from_modules(io_args(), deps, modules) {
        Some(Err(TypeExtractionError::FunctionNotFoundInModule(f, m))) => {
            assert_eq!(f, "f");
            assert_eq!(m, "m");
        },
        _ => panic!("the missing function was expected"),
    }
    let deps = vec![dep(&["n"], "g"), dep(&["m"], "f")];
    let modules = vec![Ok("fn (".to_string()), Err(TypeExtractionError::ModuleNotFound("m.rs".to_string()))];
    assert!(matches!(knowledge_from_modules(io_args(), deps, modules), Some(Err(TypeExtractionError::ParsingError(_)))));
    let deps = vec![dep(&["m"], "f")];
    let modules = vec![Err(TypeExtractionError::ModuleNotFound("m.rs".to_string()))];
    assert!(matches!(knowledge_from_modules(io_args(), deps, modules), Some(Err(TypeExtractionError::ModuleNotFound(p))) if p == "m.rs"));
}

#[test]
fn unsupported_signatures_give_no_knowledge() {
    let deps = vec![dep(&["m"], "f")];
    let modules = vec![Ok("fn f(x: impl Fn()) {}".to_string())];
    assert!(knowledge_from_modules(io_args(), deps, modules).is_none());
}

#[test]
fn no_argument_types_need_no_imports() {
    let mut kb = knowledge();
    kb.algo_io.argument_types = vec![];
    assert_eq!(kb.find_imports_for_algo_io(), Some(vec![]));
}

#[test]
fn read_errors_are_handed_on_unchanged() {
    let deps = vec![dep(&["ohua", "lang"], "id"), dep(&["m"], "f")];
    let modules = vec![Err(TypeExtractionError::ModuleNotFound("lang.rs".to_string())), Err(TypeExtractionError::ModuleNotFound("m.rs".to_string()))];
    assert!(matches!(knowledge_from_modules(io_args(), deps, modules), Some(Err(TypeExtractionError::ModuleNotFound(p))) if p == "m.rs"));
}
