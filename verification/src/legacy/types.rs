//! The graph as the earlier generator reads it.
#![allow(non_snake_case)]

use vstd::prelude::*;

verus! {

/// The all-encapsulating OhuaData structure.
pub struct OhuaData {
    pub graph: DFGraph,
    pub mainArity: i32,
    pub sfDependencies: Vec<SfDependency>,
}

/// Representation of an Ohua dataflow graph.
pub struct DFGraph {
    pub operators: Vec<Operator>,
    pub arcs: Vec<Arc>,
    pub return_arc: ArcIdentifier,
    pub input_targets: Vec<ArcIdentifier>,
}

/// A single operator of the DFG. Represents a stateful function that is to be called.
pub struct Operator {
    pub operatorId: i32,
    pub operatorType: OperatorType,
}

/// The inner operator information such as namespace, function name and link to the respective function.
pub struct OperatorType {
    pub qbNamespace: Vec<String>,
    pub qbName: String,
    pub func: String,
}

/// A simple Arc between two points in the graph.
pub struct Arc {
    pub target: ArcIdentifier,
    pub source: ArcSource,
}

/// A local Arc endpoint, an operator.
#[derive(PartialEq, Eq, Structural, Clone, Copy, Debug)]
pub struct ArcIdentifier {
    pub operator: i32,
    pub index: i32,
}

/// Describes the type of an Arc source. This can either be an environment value _or_ a local value (another operator).
#[derive(PartialEq, Eq, Structural, Clone, Copy, Debug)]
pub enum ValueType {
    EnvironmentVal(i32),
    LocalVal(ArcIdentifier),
}

/// Source for an Arc.
pub struct ArcSource {
    pub s_type: String,
    pub val: ValueType,
}

/// Represents a dependency to a stateful function.
pub struct SfDependency {
    pub qbNamespace: Vec<String>,
    pub qbName: String,
}

/// Data structure used to deserialize the argument types from the `type-dump` file.
pub struct AlgorithmArguments {
    pub return_type: String,
    pub argument_types: Vec<String>,
}

/// The function of an operator before wrappers are linked: none yet.
pub fn empty_fn() -> (r: String)
    ensures
        r@ == Seq::<char>::empty(),
{
    String::new()
}

} // verus!
