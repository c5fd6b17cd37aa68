//! Data types that represent the dataflow graph and the `type-dump` file, and
//! their mathematical models.
#![allow(non_snake_case)]

use vstd::prelude::*;

verus! {

/// The argument types of an algorithm, as read from the `type-dump` file.
pub struct AlgorithmArguments {
    pub return_type: String,
    pub argument_types: Vec<String>,
}

/// The all-encapsulating OhuaData structure.
pub struct OhuaData {
    pub graph: DFGraph,
    pub mainArity: i32,
    pub sfDependencies: Vec<SfDependency>,
}

/// Representation of an Ohua dataflow graph.
pub struct DFGraph {
    pub operators: Vec<Operator>,
    pub arcs: Arcs,
    pub return_arc: ArcIdentifier,
    pub input_targets: Vec<ArcIdentifier>,
}

/// All arcs of a graph, by kind.
pub struct Arcs {
    pub direct: Vec<DirectArc>,
    pub compound: Vec<CompoundArc>,
    pub state: Vec<StateArc>,
    pub dead: Vec<DeadArc>,
}

/// A single operator of the DFG.
pub struct Operator {
    pub operatorId: i32,
    pub operatorType: OperatorType,
    pub nodeType: NodeType,
}

/// Namespace and name of the function an operator stands for.
pub struct OperatorType {
    pub qbNamespace: Vec<String>,
    pub qbName: String,
}

/// Type of the operator: a wrapper around a stateful function or a full Ohua operator.
#[derive(PartialEq, Eq, Structural, Clone, Copy, Debug)]
pub enum NodeType {
    /// Simple wrapper around a stateful function.
    FunctionNode,
    /// Dedicated Ohua operator.
    OperatorNode,
}

/// A simple arc between two points in the graph.
pub struct DirectArc {
    pub target: ArcIdentifier,
    pub source: ArcSource,
}

/// A local arc endpoint: an operator and one of its ports.
#[derive(PartialEq, Eq, Structural, Clone, Copy, Debug)]
pub struct ArcIdentifier {
    pub operator: i32,
    pub index: i32,
}

/// An arc with several sources.
pub struct CompoundArc {
    pub target: ArcIdentifier,
    pub source: Vec<ArcSource>,
}

/// An arc that hands the state to a stateful function.
pub struct StateArc {
    pub target: i32,
    pub source: ArcSource,
}

/// An arc whose target is not part of the graph.
#[derive(PartialEq, Eq, Structural, Clone, Copy, Debug)]
pub struct DeadArc {
    pub source: ArcIdentifier,
}

/// The source of an arc: an environment value or another operator.
pub enum ArcSource {
    Env(Envs),
    Local(ArcIdentifier),
}

/// Environment values.
pub enum Envs {
    NumericLit { content: i32 },
    EnvRefLit { content: i32 },
    FunRefLit { contents: (OperatorType, i32) },
    UnitLit {},
}

/// A dependency on a stateful function.
pub struct SfDependency {
    pub qbNamespace: Vec<String>,
    pub qbName: String,
}

// ---------------------------------------------------------------------------
// Models

/// Model of an `OperatorType`.
pub struct OperatorTypeM {
    pub namespace: Seq<Seq<char>>,
    pub name: Seq<char>,
}

/// Model of an `Operator`.
pub struct OperatorM {
    pub id: i32,
    pub ty: OperatorTypeM,
    pub node: NodeType,
}

/// Model of `Envs`.
pub enum EnvsM {
    NumericLit(i32),
    EnvRefLit(i32),
    FunRefLit(OperatorTypeM, i32),
    UnitLit,
}

/// Model of an `ArcSource`.
pub enum ArcSourceM {
    Env(EnvsM),
    Local(ArcIdentifier),
}

/// Model of a `DirectArc`.
pub struct DirectArcM {
    pub target: ArcIdentifier,
    pub source: ArcSourceM,
}

/// Model of a `CompoundArc`.
pub struct CompoundArcM {
    pub target: ArcIdentifier,
    pub source: Seq<ArcSourceM>,
}

/// Model of a `StateArc`.
pub struct StateArcM {
    pub target: i32,
    pub source: ArcSourceM,
}

/// Model of `Arcs`.
pub struct ArcsM {
    pub direct: Seq<DirectArcM>,
    pub compound: Seq<CompoundArcM>,
    pub state: Seq<StateArcM>,
    pub dead: Seq<DeadArc>,
}

/// Model of a `DFGraph`.
pub struct DFGraphM {
    pub operators: Seq<OperatorM>,
    pub arcs: ArcsM,
    pub return_arc: ArcIdentifier,
    pub input_targets: Seq<ArcIdentifier>,
}

/// Model of an `SfDependency`.
pub struct SfDependencyM {
    pub namespace: Seq<Seq<char>>,
    pub name: Seq<char>,
}

/// Model of `OhuaData`.
pub struct OhuaDataM {
    pub graph: DFGraphM,
    pub main_arity: i32,
    pub sf_dependencies: Seq<SfDependencyM>,
}

impl DeepView for OperatorType {
    type V = OperatorTypeM;

    open spec fn deep_view(&self) -> OperatorTypeM {
        OperatorTypeM { namespace: self.qbNamespace.deep_view(), name: self.qbName@ }
    }
}

impl DeepView for NodeType {
    type V = NodeType;

    open spec fn deep_view(&self) -> NodeType {
        *self
    }
}

impl DeepView for ArcIdentifier {
    type V = ArcIdentifier;

    open spec fn deep_view(&self) -> ArcIdentifier {
        *self
    }
}

impl DeepView for DeadArc {
    type V = DeadArc;

    open spec fn deep_view(&self) -> DeadArc {
        *self
    }
}

impl DeepView for Operator {
    type V = OperatorM;

    open spec fn deep_view(&self) -> OperatorM {
        OperatorM { id: self.operatorId, ty: self.operatorType.deep_view(), node: self.nodeType }
    }
}

impl DeepView for Envs {
    type V = EnvsM;

    open spec fn deep_view(&self) -> EnvsM {
        match self {
            Envs::NumericLit { content } => EnvsM::NumericLit(*content),
            Envs::EnvRefLit { content } => EnvsM::EnvRefLit(*content),
            Envs::FunRefLit { contents } => EnvsM::FunRefLit(contents.0.deep_view(), contents.1),
            Envs::UnitLit {} => EnvsM::UnitLit,
        }
    }
}

impl DeepView for ArcSource {
    type V = ArcSourceM;

    open spec fn deep_view(&self) -> ArcSourceM {
        match self {
            ArcSource::Env(e) => ArcSourceM::Env(e.deep_view()),
            ArcSource::Local(a) => ArcSourceM::Local(*a),
        }
    }
}

impl DeepView for DirectArc {
    type V = DirectArcM;

    open spec fn deep_view(&self) -> DirectArcM {
        DirectArcM { target: self.target, source: self.source.deep_view() }
    }
}

impl DeepView for CompoundArc {
    type V = CompoundArcM;

    open spec fn deep_view(&self) -> CompoundArcM {
        CompoundArcM { target: self.target, source: self.source.deep_view() }
    }
}

impl DeepView for StateArc {
    type V = StateArcM;

    open spec fn deep_view(&self) -> StateArcM {
        StateArcM { target: self.target, source: self.source.deep_view() }
    }
}

impl DeepView for Arcs {
    type V = ArcsM;

    open spec fn deep_view(&self) -> ArcsM {
        ArcsM {
            direct: self.direct.deep_view(),
            compound: self.compound.deep_view(),
            state: self.state.deep_view(),
            dead: self.dead.deep_view(),
        }
    }
}

impl DeepView for DFGraph {
    type V = DFGraphM;

    open spec fn deep_view(&self) -> DFGraphM {
        DFGraphM {
            operators: self.operators.deep_view(),
            arcs: self.arcs.deep_view(),
            return_arc: self.return_arc,
            input_targets: self.input_targets.deep_view(),
        }
    }
}

impl DeepView for SfDependency {
    type V = SfDependencyM;

    open spec fn deep_view(&self) -> SfDependencyM {
        SfDependencyM { namespace: self.qbNamespace.deep_view(), name: self.qbName@ }
    }
}

impl DeepView for OhuaData {
    type V = OhuaDataM;

    open spec fn deep_view(&self) -> OhuaDataM {
        OhuaDataM {
            graph: self.graph.deep_view(),
            main_arity: self.mainArity,
            sf_dependencies: self.sfDependencies.deep_view(),
        }
    }
}

/// `namespace::...::name`, the path under which a function is called.
pub open spec fn spec_function_name(ty: OperatorTypeM) -> Seq<char>
    decreases ty.namespace.len(),
{
    if ty.namespace.len() == 0 {
        ty.name
    } else {
        ty.namespace[0] + "::"@ + spec_function_name(
            OperatorTypeM { namespace: ty.namespace.drop_first(), name: ty.name },
        )
    }
}

impl OperatorType {
    /// The fully qualified name of the function, `ns1::ns2::name`.
    pub fn function_name(&self) -> (name: String)
        ensures
            name@ == spec_function_name(self.deep_view()),
    {
        let n = self.qbNamespace.len();
        let mut name = String::new();
        let mut i: usize = 0;
        assert(self.qbNamespace.deep_view().subrange(0, n as int) =~= self.qbNamespace.deep_view());
        assert(name@ + spec_function_name(self.deep_view()) =~= spec_function_name(self.deep_view()));
        while i < n
            invariant
                i <= n,
                n == self.qbNamespace@.len(),
                spec_function_name(self.deep_view()) == name@ + spec_function_name(
                    OperatorTypeM {
                        namespace: self.qbNamespace.deep_view().subrange(i as int, n as int),
                        name: self.qbName@,
                    },
                ),
            decreases n - i,
        {
            let ghost rest = self.qbNamespace.deep_view().subrange(i as int, n as int);
            assert(rest.drop_first() =~= self.qbNamespace.deep_view().subrange(i + 1, n as int));
            name.append(self.qbNamespace[i].as_str());
            name.append("::");
            i = i + 1;
        }
        let ghost tail = self.qbNamespace.deep_view().subrange(n as int, n as int);
        assert(tail.len() == 0);
        name.append(self.qbName.as_str());
        assert(name@ =~= spec_function_name(self.deep_view()));
        name
    }
    /// The fully qualified name of the function, `ns1::ns2::name`, as the
    /// generated runtime calls it.
    pub fn qualified_name(&self) -> (name: String)
        ensures
            name@ == spec_function_name(self.deep_view()),
    {
        self.function_name()
    }
}

} // verus!
