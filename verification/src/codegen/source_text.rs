//! The data types of the graph rendered as text: the Rust expressions that
//! construct them.
use vstd::prelude::*;
use crate::codegen::ohua_types::{
    ArcIdentifier, ArcSource, ArcSourceM, DFGraph, DFGraphM, DirectArc, DirectArcM, Envs, EnvsM,
    NodeType, OhuaData, OhuaDataM, Operator, OperatorM, OperatorType, OperatorTypeM, SfDependency,
    SfDependencyM, StateArc, StateArcM,
};
use crate::seqs::concat;
use crate::text::{i32_to_string, int_decimal};

verus! {

/// `FunctionNode` or `OperatorNode`.
pub open spec fn node_text(n: NodeType) -> Seq<char> {
    match n {
        NodeType::FunctionNode => "FunctionNode"@,
        NodeType::OperatorNode => "OperatorNode"@,
    }
}

/// `ArcIdentifier {operator: o, index: i}`
pub open spec fn arc_id_text(a: ArcIdentifier) -> Seq<char> {
    "ArcIdentifier {operator: "@ + int_decimal(a.operator as int) + ", index: "@ + int_decimal(a.index as int) + "}"@
}

/// `String::from("a"), String::from("b"), ` for a namespace.
pub open spec fn namespace_text(ns: Seq<Seq<char>>) -> Seq<char> {
    concat(ns.map_values(|s: Seq<char>| "String::from(\""@ + s + "\"), "@))
}

/// `OperatorType {qbNamespace: vec![..], qbName: String::from("..")}`
pub open spec fn operator_type_text(t: OperatorTypeM) -> Seq<char> {
    "OperatorType {qbNamespace: vec!["@ + namespace_text(t.namespace) + "], qbName: String::from(\""@
        + t.name + "\")}"@
}

/// `NumericLit(n)`, `EnvRefLit(i)`, `FunRefLit(..)` or `UnitLit()`.
pub open spec fn envs_text(e: EnvsM) -> Seq<char> {
    match e {
        EnvsM::NumericLit(i) => "NumericLit("@ + int_decimal(i as int) + ")"@,
        EnvsM::EnvRefLit(i) => "EnvRefLit("@ + int_decimal(i as int) + ")"@,
        EnvsM::FunRefLit(t, _) => "FunRefLit("@ + operator_type_text(t) + ")"@,
        EnvsM::UnitLit => "UnitLit()"@,
    }
}

/// `ValueType::EnvironmentVal(..)` or `ValueType::LocalVal(..)`.
pub open spec fn arc_source_text(s: ArcSourceM) -> Seq<char> {
    match s {
        ArcSourceM::Env(e) => "ValueType::EnvironmentVal("@ + envs_text(e) + ")"@,
        ArcSourceM::Local(a) => "ValueType::LocalVal("@ + arc_id_text(a) + ")"@,
    }
}

/// `Operator {operatorId: .., operatorType: .., nodeType: ..}`
pub open spec fn operator_text(o: OperatorM) -> Seq<char> {
    "Operator {operatorId: "@ + int_decimal(o.id as int) + ", operatorType: "@ + operator_type_text(o.ty)
        + ", nodeType: "@ + node_text(o.node) + "}"@
}

/// `DirectArc {target: .., source: ..}`
pub open spec fn direct_arc_text(a: DirectArcM) -> Seq<char> {
    "DirectArc {target: "@ + arc_id_text(a.target) + ", source: "@ + arc_source_text(a.source) + "}"@
}

/// `StateArc {target: .., source: ..}`
pub open spec fn state_arc_text(a: StateArcM) -> Seq<char> {
    "StateArc {target: "@ + int_decimal(a.target as int) + ", source: "@ + arc_source_text(a.source) + "}"@
}

/// `SfDependency {qbNamespace: vec![..], qbName: String::from("..")}`
pub open spec fn sf_dependency_text(d: SfDependencyM) -> Seq<char> {
    "SfDependency {qbNamespace: vec!["@ + namespace_text(d.namespace) + "], qbName: String::from(\""@
        + d.name + "\")}"@
}

/// Each rendered element followed by `, `.
pub open spec fn list_text(parts: Seq<Seq<char>>) -> Seq<char> {
    concat(parts.map_values(|p: Seq<char>| p + ", "@))
}

/// `DFGraph {operators: vec![..], arcs: vec![..], states: vec![..], return_arc: .., input_targets: vec![..]}`
pub open spec fn graph_text(g: DFGraphM) -> Seq<char> {
    "DFGraph {operators: vec!["@ + list_text(g.operators.map_values(|o: OperatorM| operator_text(o)))
        + "], arcs: vec!["@ + list_text(g.arcs.direct.map_values(|a: DirectArcM| direct_arc_text(a)))
        + "], states: vec!["@ + list_text(g.arcs.state.map_values(|a: StateArcM| state_arc_text(a)))
        + "], return_arc: "@ + arc_id_text(g.return_arc)
        + ", input_targets: vec!["@ + list_text(g.input_targets.map_values(|a: ArcIdentifier| arc_id_text(a)))
        + "]}"@
}

/// `OhuaData {graph: .., mainArity: .., sfDependencies: vec![..]}`
pub open spec fn ohua_data_text(d: OhuaDataM) -> Seq<char> {
    "OhuaData {graph: "@ + graph_text(d.graph) + ", mainArity: "@ + int_decimal(d.main_arity as int)
        + ", sfDependencies: vec!["@ + list_text(d.sf_dependencies.map_values(|s: SfDependencyM| sf_dependency_text(s)))
        + "]}"@
}

/// Appends `t` followed by `, `.
pub(crate) fn append_item(s: &mut String, t: &String)
    ensures
        final(s)@ == old(s)@ + (t@ + ", "@),
{
    s.append(t.as_str());
    s.append(", ");
    assert(s@ =~= old(s)@ + (t@ + ", "@));
}

/// `String::from("a"), String::from("b"), ` for a namespace.
pub(crate) fn namespace_string(ns: &Vec<String>) -> (s: String)
    ensures
        s@ == namespace_text(ns.deep_view()),
{
    let ghost nv = ns.deep_view();
    let ghost f = |s: Seq<char>| "String::from(\""@ + s + "\"), "@;
    let mut s = String::new();
    let n = ns.len();
    let mut i: usize = 0;
    assert(s@ =~= concat(nv.subrange(0, 0).map_values(f)));
    while i < n
        invariant
            i <= n,
            n == nv.len(),
            nv == ns.deep_view(),
            f == (|s: Seq<char>| "String::from(\""@ + s + "\"), "@),
            s@ == concat(nv.subrange(0, i as int).map_values(f)),
        decreases n - i,
    {
        let ghost before = s@;
        s.append("String::from(\"");
        s.append(ns[i].as_str());
        s.append("\"), ");
        assert(nv[i as int] == ns@[i as int]@);
        let ghost m = nv.subrange(0, (i + 1) as int).map_values(f);
        assert(m.drop_last() =~= nv.subrange(0, i as int).map_values(f));
        assert(s@ =~= before + f(nv[i as int]));
        i = i + 1;
    }
    assert(nv.subrange(0, n as int) =~= nv);
    s
}

impl NodeType {
    /// `FunctionNode` or `OperatorNode`.
    pub fn to_string(&self) -> (s: String)
        ensures
            s@ == node_text(*self),
    {
        match self {
            NodeType::FunctionNode => String::from_str("FunctionNode"),
            NodeType::OperatorNode => String::from_str("OperatorNode"),
        }
    }
}

impl ArcIdentifier {
    /// `ArcIdentifier {operator: o, index: i}`
    pub fn to_string(&self) -> (s: String)
        ensures
            s@ == arc_id_text(*self),
    {
        let mut s = String::from_str("ArcIdentifier {operator: ");
        s.append(i32_to_string(self.operator).as_str());
        s.append(", index: ");
        s.append(i32_to_string(self.index).as_str());
        s.append("}");
        s
    }
}

impl OperatorType {
    /// `OperatorType {qbNamespace: vec![..], qbName: String::from("..")}`
    pub fn to_string(&self) -> (s: String)
        ensures
            s@ == operator_type_text(self.deep_view()),
    {
        let mut s = String::from_str("OperatorType {qbNamespace: vec![");
        s.append(namespace_string(&self.qbNamespace).as_str());
        s.append("], qbName: String::from(\"");
        s.append(self.qbName.as_str());
        s.append("\")}");
        s
    }
}

impl Envs {
    /// `NumericLit(n)`, `EnvRefLit(i)`, `FunRefLit(..)` or `UnitLit()`.
    pub fn to_string(&self) -> (s: String)
        ensures
            s@ == envs_text(self.deep_view()),
    {
        match self {
            Envs::NumericLit { content } => {
                let mut s = String::from_str("NumericLit(");
                s.append(i32_to_string(*content).as_str());
                s.append(")");
                s
            },
            Envs::EnvRefLit { content } => {
                let mut s = String::from_str("EnvRefLit(");
                s.append(i32_to_string(*content).as_str());
                s.append(")");
                s
            },
            Envs::FunRefLit { contents } => {
                let mut s = String::from_str("FunRefLit(");
                s.append(contents.0.to_string().as_str());
                s.append(")");
                s
            },
            Envs::UnitLit {} => String::from_str("UnitLit()"),
        }
    }
}

impl ArcSource {
    /// `ValueType::EnvironmentVal(..)` or `ValueType::LocalVal(..)`.
    pub fn to_string(&self) -> (s: String)
        ensures
            s@ == arc_source_text(self.deep_view()),
    {
        match self {
            ArcSource::Env(e) => {
                let mut s = String::from_str("ValueType::EnvironmentVal(");
                s.append(e.to_string().as_str());
                s.append(")");
                s
            },
            ArcSource::Local(a) => {
                let mut s = String::from_str("ValueType::LocalVal(");
                s.append(a.to_string().as_str());
                s.append(")");
                s
            },
        }
    }
}

impl Operator {
    /// `Operator {operatorId: .., operatorType: .., nodeType: ..}`
    pub fn to_string(&self) -> (s: String)
        ensures
            s@ == operator_text(self.deep_view()),
    {
        let mut s = String::from_str("Operator {operatorId: ");
        s.append(i32_to_string(self.operatorId).as_str());
        s.append(", operatorType: ");
        s.append(self.operatorType.to_string().as_str());
        s.append(", nodeType: ");
        s.append(self.nodeType.to_string().as_str());
        s.append("}");
        s
    }
}

impl DirectArc {
    /// `DirectArc {target: .., source: ..}`
    pub fn to_string(&self) -> (s: String)
        ensures
            s@ == direct_arc_text(self.deep_view()),
    {
        let mut s = String::from_str("DirectArc {target: ");
        s.append(self.target.to_string().as_str());
        s.append(", source: ");
        s.append(self.source.to_string().as_str());
        s.append("}");
        s
    }
}

impl StateArc {
    /// `StateArc {target: .., source: ..}`
    pub fn to_string(&self) -> (s: String)
        ensures
            s@ == state_arc_text(self.deep_view()),
    {
        let mut s = String::from_str("StateArc {target: ");
        s.append(i32_to_string(self.target).as_str());
        s.append(", source: ");
        s.append(self.source.to_string().as_str());
        s.append("}");
        s
    }
}

impl SfDependency {
    /// `SfDependency {qbNamespace: vec![..], qbName: String::from("..")}`
    pub fn to_string(&self) -> (s: String)
        ensures
            s@ == sf_dependency_text(self.deep_view()),
    {
        let mut s = String::from_str("SfDependency {qbNamespace: vec![");
        s.append(namespace_string(&self.qbNamespace).as_str());
        s.append("], qbName: String::from(\"");
        s.append(self.qbName.as_str());
        s.append("\")}");
        s
    }
}

/// The rendered operators, each followed by `, `.
fn operators_list(ops: &Vec<Operator>) -> (s: String)
    ensures
        s@ == list_text(ops.deep_view().map_values(|o: OperatorM| operator_text(o))),
{
    let ghost parts = ops.deep_view().map_values(|o: OperatorM| operator_text(o));
    let ghost f = |p: Seq<char>| p + ", "@;
    let mut s = String::new();
    let n = ops.len();
    let mut i: usize = 0;
    assert(s@ =~= concat(parts.subrange(0, 0).map_values(f)));
    while i < n
        invariant
            i <= n,
            n == parts.len(),
            parts == ops.deep_view().map_values(|o: OperatorM| operator_text(o)),
            f == (|p: Seq<char>| p + ", "@),
            s@ == concat(parts.subrange(0, i as int).map_values(f)),
        decreases n - i,
    {
        let t = ops[i].to_string();
        assert(t@ == parts[i as int]);
        append_item(&mut s, &t);
        assert(parts.subrange(0, (i + 1) as int).map_values(f).drop_last() =~= parts.subrange(0, i as int).map_values(f));
        i = i + 1;
    }
    assert(parts.subrange(0, n as int) =~= parts);
    s
}

/// The rendered arcs, each followed by `, `.
fn direct_arcs_list(arcs: &Vec<DirectArc>) -> (s: String)
    ensures
        s@ == list_text(arcs.deep_view().map_values(|a: DirectArcM| direct_arc_text(a))),
{
    let ghost parts = arcs.deep_view().map_values(|a: DirectArcM| direct_arc_text(a));
    let ghost f = |p: Seq<char>| p + ", "@;
    let mut s = String::new();
    let n = arcs.len();
    let mut i: usize = 0;
    assert(s@ =~= concat(parts.subrange(0, 0).map_values(f)));
    while i < n
        invariant
            i <= n,
            n == parts.len(),
            parts == arcs.deep_view().map_values(|a: DirectArcM| direct_arc_text(a)),
            f == (|p: Seq<char>| p + ", "@),
            s@ == concat(parts.subrange(0, i as int).map_values(f)),
        decreases n - i,
    {
        let t = arcs[i].to_string();
        assert(t@ == parts[i as int]);
        append_item(&mut s, &t);
        assert(parts.subrange(0, (i + 1) as int).map_values(f).drop_last() =~= parts.subrange(0, i as int).map_values(f));
        i = i + 1;
    }
    assert(parts.subrange(0, n as int) =~= parts);
    s
}

/// The rendered state arcs, each followed by `, `.
fn state_arcs_list(arcs: &Vec<StateArc>) -> (s: String)
    ensures
        s@ == list_text(arcs.deep_view().map_values(|a: StateArcM| state_arc_text(a))),
{
    let ghost parts = arcs.deep_view().map_values(|a: StateArcM| state_arc_text(a));
    let ghost f = |p: Seq<char>| p + ", "@;
    let mut s = String::new();
    let n = arcs.len();
    let mut i: usize = 0;
    assert(s@ =~= concat(parts.subrange(0, 0).map_values(f)));
    while i < n
        invariant
            i <= n,
            n == parts.len(),
            parts == arcs.deep_view().map_values(|a: StateArcM| state_arc_text(a)),
            f == (|p: Seq<char>| p + ", "@),
            s@ == concat(parts.subrange(0, i as int).map_values(f)),
        decreases n - i,
    {
        let t = arcs[i].to_string();
        assert(t@ == parts[i as int]);
        append_item(&mut s, &t);
        assert(parts.subrange(0, (i + 1) as int).map_values(f).drop_last() =~= parts.subrange(0, i as int).map_values(f));
        i = i + 1;
    }
    assert(parts.subrange(0, n as int) =~= parts);
    s
}

/// The rendered arc identifiers, each followed by `, `.
fn arc_ids_list(ids: &Vec<ArcIdentifier>) -> (s: String)
    ensures
        s@ == list_text(ids.deep_view().map_values(|a: ArcIdentifier| arc_id_text(a))),
{
    let ghost parts = ids.deep_view().map_values(|a: ArcIdentifier| arc_id_text(a));
    let ghost f = |p: Seq<char>| p + ", "@;
    let mut s = String::new();
    let n = ids.len();
    let mut i: usize = 0;
    assert(s@ =~= concat(parts.subrange(0, 0).map_values(f)));
    while i < n
        invariant
            i <= n,
            n == parts.len(),
            parts == ids.deep_view().map_values(|a: ArcIdentifier| arc_id_text(a)),
            f == (|p: Seq<char>| p + ", "@),
            s@ == concat(parts.subrange(0, i as int).map_values(f)),
        decreases n - i,
    {
        let t = ids[i].to_string();
        assert(t@ == parts[i as int]);
        append_item(&mut s, &t);
        assert(parts.subrange(0, (i + 1) as int).map_values(f).drop_last() =~= parts.subrange(0, i as int).map_values(f));
        i = i + 1;
    }
    assert(parts.subrange(0, n as int) =~= parts);
    s
}

/// The rendered dependencies, each followed by `, `.
fn dependencies_list(deps: &Vec<SfDependency>) -> (s: String)
    ensures
        s@ == list_text(deps.deep_view().map_values(|d: SfDependencyM| sf_dependency_text(d))),
{
    let ghost parts = deps.deep_view().map_values(|d: SfDependencyM| sf_dependency_text(d));
    let ghost f = |p: Seq<char>| p + ", "@;
    let mut s = String::new();
    let n = deps.len();
    let mut i: usize = 0;
    assert(s@ =~= concat(parts.subrange(0, 0).map_values(f)));
    while i < n
        invariant
            i <= n,
            n == parts.len(),
            parts == deps.deep_view().map_values(|d: SfDependencyM| sf_dependency_text(d)),
            f == (|p: Seq<char>| p + ", "@),
            s@ == concat(parts.subrange(0, i as int).map_values(f)),
        decreases n - i,
    {
        let t = deps[i].to_string();
        assert(t@ == parts[i as int]);
        append_item(&mut s, &t);
        assert(parts.subrange(0, (i + 1) as int).map_values(f).drop_last() =~= parts.subrange(0, i as int).map_values(f));
        i = i + 1;
    }
    assert(parts.subrange(0, n as int) =~= parts);
    s
}

impl DFGraph {
    /// `DFGraph {operators: vec![..], arcs: vec![..], states: vec![..], return_arc: .., input_targets: vec![..]}`
    pub fn to_string(&self) -> (s: String)
        ensures
            s@ == graph_text(self.deep_view()),
    {
        let mut s = String::from_str("DFGraph {operators: vec![");
        s.append(operators_list(&self.operators).as_str());
        s.append("], arcs: vec![");
        s.append(direct_arcs_list(&self.arcs.direct).as_str());
        s.append("], states: vec![");
        s.append(state_arcs_list(&self.arcs.state).as_str());
        s.append("], return_arc: ");
        s.append(self.return_arc.to_string().as_str());
        s.append(", input_targets: vec![");
        s.append(arc_ids_list(&self.input_targets).as_str());
        s.append("]}");
        assert(s@ =~= graph_text(self.deep_view()));
        s
    }
}

impl OhuaData {
    /// `OhuaData {graph: .., mainArity: .., sfDependencies: vec![..]}`
    pub fn to_string(&self) -> (s: String)
        ensures
            s@ == ohua_data_text(self.deep_view()),
    {
        let mut s = String::from_str("OhuaData {graph: ");
        s.append(self.graph.to_string().as_str());
        s.append(", mainArity: ");
        s.append(i32_to_string(self.mainArity).as_str());
        s.append(", sfDependencies: vec![");
        s.append(dependencies_list(&self.sfDependencies).as_str());
        s.append("]}");
        assert(s@ =~= ohua_data_text(self.deep_view()));
        s
    }
}

} // verus!
