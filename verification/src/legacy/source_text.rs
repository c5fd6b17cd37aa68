//! The graph of the earlier generator rendered as the Rust expressions that
//! construct it, and the runtime data file that holds it.
use vstd::prelude::*;
use crate::legacy::types::{Arc, ArcIdentifier, ArcSource, DFGraph, OhuaData, Operator, OperatorType, SfDependency, ValueType};
use crate::codegen::source_text::{append_item, list_text, namespace_string, namespace_text};
use crate::seqs::concat;
use crate::template::{replaced, replace_str};
use crate::text::{i32_to_string, int_decimal};

verus! {

/// `ArcIdentifier {operator: o, index: i}`
pub open spec fn id_text(a: ArcIdentifier) -> Seq<char> {
    "ArcIdentifier {operator: "@ + int_decimal(a.operator as int) + ", index: "@ + int_decimal(a.index as int) + "}"@
}

/// `ValueType::EnvironmentVal(x)` or `ValueType::LocalVal(..)`.
pub open spec fn value_type_text(v: ValueType) -> Seq<char> {
    match v {
        ValueType::EnvironmentVal(x) => "ValueType::EnvironmentVal("@ + int_decimal(x as int) + ")"@,
        ValueType::LocalVal(a) => "ValueType::LocalVal("@ + id_text(a) + ")"@,
    }
}

/// `ArcSource {s_type: String::from(".."), val: ..}`
pub open spec fn source_text(s: ArcSource) -> Seq<char> {
    "ArcSource {s_type: String::from(\""@ + s.s_type@ + "\"), val: "@ + value_type_text(s.val) + "}"@
}

/// `Arc {target: .., source: ..}`
pub open spec fn arc_text(a: Arc) -> Seq<char> {
    "Arc {target: "@ + id_text(a.target) + ", source: "@ + source_text(a.source) + "}"@
}

/// `OperatorType {qbNamespace: vec![..], qbName: String::from(".."), func: Box::new(..)}`
pub open spec fn op_type_text(t: OperatorType) -> Seq<char> {
    "OperatorType {qbNamespace: vec!["@ + namespace_text(t.qbNamespace.deep_view()) + "], qbName: String::from(\""@
        + t.qbName@ + "\"), func: Box::new("@ + t.func@ + ")}"@
}

/// `Operator {operatorId: .., operatorType: ..}`
pub open spec fn op_text(o: Operator) -> Seq<char> {
    "Operator {operatorId: "@ + int_decimal(o.operatorId as int) + ", operatorType: "@ + op_type_text(o.operatorType) + "}"@
}

/// `SfDependency {qbNamespace: vec![..], qbName: String::from("..")}`
pub open spec fn dependency_text(d: SfDependency) -> Seq<char> {
    "SfDependency {qbNamespace: vec!["@ + namespace_text(d.qbNamespace.deep_view()) + "], qbName: String::from(\""@
        + d.qbName@ + "\")}"@
}

/// `DFGraph {operators: vec![..], arcs: vec![..], return_arc: .., input_targets: vec![..]}`
pub open spec fn dfgraph_text(g: DFGraph) -> Seq<char> {
    "DFGraph {operators: vec!["@ + list_text(g.operators@.map_values(|o: Operator| op_text(o)))
        + "], arcs: vec!["@ + list_text(g.arcs@.map_values(|a: Arc| arc_text(a)))
        + "], return_arc: "@ + id_text(g.return_arc)
        + ", input_targets: vec!["@ + list_text(g.input_targets@.map_values(|a: ArcIdentifier| id_text(a)))
        + "]}"@
}

/// `OhuaData {graph: .., mainArity: .., sfDependencies: vec![..]}`
pub open spec fn data_text(d: OhuaData) -> Seq<char> {
    "OhuaData {graph: "@ + dfgraph_text(d.graph) + ", mainArity: "@ + int_decimal(d.mainArity as int)
        + ", sfDependencies: vec!["@ + list_text(d.sfDependencies@.map_values(|s: SfDependency| dependency_text(s)))
        + "]}"@
}

impl ArcIdentifier {
    /// `ArcIdentifier {operator: o, index: i}`
    pub fn to_string(&self) -> (s: String)
        ensures
            s@ == id_text(*self),
    {
        let mut s = String::from_str("ArcIdentifier {operator: ");
        s.append(i32_to_string(self.operator).as_str());
        s.append(", index: ");
        s.append(i32_to_string(self.index).as_str());
        s.append("}");
        s
    }
}

impl ValueType {
    /// `ValueType::EnvironmentVal(x)` or `ValueType::LocalVal(..)`.
    pub fn to_string(&self) -> (s: String)
        ensures
            s@ == value_type_text(*self),
    {
        match self {
            ValueType::EnvironmentVal(x) => {
                let mut s = String::from_str("ValueType::EnvironmentVal(");
                s.append(i32_to_string(*x).as_str());
                s.append(")");
                s
            },
            ValueType::LocalVal(a) => {
                let mut s = String::from_str("ValueType::LocalVal(");
                s.append(a.to_string().as_str());
                s.append(")");
                s
            },
        }
    }
}

impl ArcSource {
    /// `ArcSource {s_type: String::from(".."), val: ..}`
    pub fn to_string(&self) -> (s: String)
        ensures
            s@ == source_text(*self),
    {
        let mut s = String::from_str("ArcSource {s_type: String::from(\"");
        s.append(self.s_type.as_str());
        s.append("\"), val: ");
        s.append(self.val.to_string().as_str());
        s.append("}");
        s
    }
}

impl Arc {
    /// `Arc {target: .., source: ..}`
    pub fn to_string(&self) -> (s: String)
        ensures
            s@ == arc_text(*self),
    {
        let mut s = String::from_str("Arc {target: ");
        s.append(self.target.to_string().as_str());
        s.append(", source: ");
        s.append(self.source.to_string().as_str());
        s.append("}");
        s
    }
}

impl OperatorType {
    /// `OperatorType {qbNamespace: vec![..], qbName: String::from(".."), func: Box::new(..)}`
    pub fn to_string(&self) -> (s: String)
        ensures
            s@ == op_type_text(*self),
    {
        let mut s = String::from_str("OperatorType {qbNamespace: vec![");
        s.append(namespace_string(&self.qbNamespace).as_str());
        s.append("], qbName: String::from(\"");
        s.append(self.qbName.as_str());
        s.append("\"), func: Box::new(");
        s.append(self.func.as_str());
        s.append(")}");
        s
    }
}

impl Operator {
    /// `Operator {operatorId: .., operatorType: ..}`
    pub fn to_string(&self) -> (s: String)
        ensures
            s@ == op_text(*self),
    {
        let mut s = String::from_str("Operator {operatorId: ");
        s.append(i32_to_string(self.operatorId).as_str());
        s.append(", operatorType: ");
        s.append(self.operatorType.to_string().as_str());
        s.append("}");
        s
    }
}

impl SfDependency {
    /// `SfDependency {qbNamespace: vec![..], qbName: String::from("..")}`
    pub fn to_string(&self) -> (s: String)
        ensures
            s@ == dependency_text(*self),
    {
        let mut s = String::from_str("SfDependency {qbNamespace: vec![");
        s.append(namespace_string(&self.qbNamespace).as_str());
        s.append("], qbName: String::from(\"");
        s.append(self.qbName.as_str());
        s.append("\")}");
        s
    }
}

/// The rendered operators, each followed by `, `.
fn ops_list(ops: &Vec<Operator>) -> (s: String)
    ensures
        s@ == list_text(ops@.map_values(|o: Operator| op_text(o))),
{
    let ghost parts = ops@.map_values(|o: Operator| op_text(o));
    let ghost f = |p: Seq<char>| p + ", "@;
    let mut s = String::new();
    let n = ops.len();
    let mut i: usize = 0;
    assert(s@ =~= concat(parts.subrange(0, 0).map_values(f)));
    while i < n
        invariant
            i <= n,
            n == parts.len(),
            parts == ops@.map_values(|o: Operator| op_text(o)),
            f == (|p: Seq<char>| p + ", "@),
            s@ == concat(parts.subrange(0, i as int).map_values(f)),
        decreases n - i,
    {
        let t = ops[i].to_string();
        append_item(&mut s, &t);
        assert(parts.subrange(0, (i + 1) as int).map_values(f).drop_last() =~= parts.subrange(0, i as int).map_values(f));
        i = i + 1;
    }
    assert(parts.subrange(0, n as int) =~= parts);
    s
}

/// The rendered arcs, each followed by `, `.
fn arcs_list(arcs: &Vec<Arc>) -> (s: String)
    ensures
        s@ == list_text(arcs@.map_values(|a: Arc| arc_text(a))),
{
    let ghost parts = arcs@.map_values(|a: Arc| arc_text(a));
    let ghost f = |p: Seq<char>| p + ", "@;
    let mut s = String::new();
    let n = arcs.len();
    let mut i: usize = 0;
    assert(s@ =~= concat(parts.subrange(0, 0).map_values(f)));
    while i < n
        invariant
            i <= n,
            n == parts.len(),
            parts == arcs@.map_values(|a: Arc| arc_text(a)),
            f == (|p: Seq<char>| p + ", "@),
            s@ == concat(parts.subrange(0, i as int).map_values(f)),
        decreases n - i,
    {
        let t = arcs[i].to_string();
        append_item(&mut s, &t);
        assert(parts.subrange(0, (i + 1) as int).map_values(f).drop_last() =~= parts.subrange(0, i as int).map_values(f));
        i = i + 1;
    }
    assert(parts.subrange(0, n as int) =~= parts);
    s
}

/// The rendered arc identifiers, each followed by `, `.
fn ids_list(ids: &Vec<ArcIdentifier>) -> (s: String)
    ensures
        s@ == list_text(ids@.map_values(|a: ArcIdentifier| id_text(a))),
{
    let ghost parts = ids@.map_values(|a: ArcIdentifier| id_text(a));
    let ghost f = |p: Seq<char>| p + ", "@;
    let mut s = String::new();
    let n = ids.len();
    let mut i: usize = 0;
    assert(s@ =~= concat(parts.subrange(0, 0).map_values(f)));
    while i < n
        invariant
            i <= n,
            n == parts.len(),
            parts == ids@.map_values(|a: ArcIdentifier| id_text(a)),
            f == (|p: Seq<char>| p + ", "@),
            s@ == concat(parts.subrange(0, i as int).map_values(f)),
        decreases n - i,
    {
        let t = ids[i].to_string();
        append_item(&mut s, &t);
        assert(parts.subrange(0, (i + 1) as int).map_values(f).drop_last() =~= parts.subrange(0, i as int).map_values(f));
        i = i + 1;
    }
    assert(parts.subrange(0, n as int) =~= parts);
    s
}

/// The rendered dependencies, each followed by `, `.
fn deps_list(deps: &Vec<SfDependency>) -> (s: String)
    ensures
        s@ == list_text(deps@.map_values(|d: SfDependency| dependency_text(d))),
{
    let ghost parts = deps@.map_values(|d: SfDependency| dependency_text(d));
    let ghost f = |p: Seq<char>| p + ", "@;
    let mut s = String::new();
    let n = deps.len();
    let mut i: usize = 0;
    assert(s@ =~= concat(parts.subrange(0, 0).map_values(f)));
    while i < n
        invariant
            i <= n,
            n == parts.len(),
            parts == deps@.map_values(|d: SfDependency| dependency_text(d)),
            f == (|p: Seq<char>| p + ", "@),
            s@ == concat(parts.subrange(0, i as int).map_values(f)),
        decreases n - i,
    {
        let t = deps[i].to_string();
        append_item(&mut s, &t);
        assert(parts.subrange(0, (i + 1) as int).map_values(f).drop_last() =~= parts.subrange(0, i as int).map_values(f));
        i = i + 1;
    }
    assert(parts.subrange(0, n as int) =~= parts);
    s
}

impl DFGraph {
    /// `DFGraph {operators: vec![..], arcs: vec![..], return_arc: .., input_targets: vec![..]}`
    pub fn to_string(&self) -> (s: String)
        ensures
            s@ == dfgraph_text(*self),
    {
        let mut s = String::from_str("DFGraph {operators: vec![");
        s.append(ops_list(&self.operators).as_str());
        s.append("], arcs: vec![");
        s.append(arcs_list(&self.arcs).as_str());
        s.append("], return_arc: ");
        s.append(self.return_arc.to_string().as_str());
        s.append(", input_targets: vec![");
        s.append(ids_list(&self.input_targets).as_str());
        s.append("]}");
        assert(s@ =~= dfgraph_text(*self));
        s
    }
}

impl OhuaData {
    /// `OhuaData {graph: .., mainArity: .., sfDependencies: vec![..]}`
    pub fn to_string(&self) -> (s: String)
        ensures
            s@ == data_text(*self),
    {
        let mut s = String::from_str("OhuaData {graph: ");
        s.append(self.graph.to_string().as_str());
        s.append(", mainArity: ");
        s.append(i32_to_string(self.mainArity).as_str());
        s.append(", sfDependencies: vec![");
        s.append(deps_list(&self.sfDependencies).as_str());
        s.append("]}");
        assert(s@ =~= data_text(*self));
        s
    }
}

/// The runtime data file: the `template` with `{dump}` replaced by the graph
/// rendered as the expression that constructs it.
pub fn generate_runtime_data(ohuadata: OhuaData, template: &str) -> (r: String)
    ensures
        r@ == replaced(template@, "{dump}"@, data_text(ohuadata)),
{
    proof { reveal_strlit("{dump}"); }
    let dump = ohuadata.to_string();
    replace_str(template, "{dump}", dump.as_str())
}

} // verus!
