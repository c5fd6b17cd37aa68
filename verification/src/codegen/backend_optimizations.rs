//! Backend-specific rewrites of the graph that run before code generation.
use vstd::prelude::*;
use crate::codegen::ohua_types::{ArcIdentifier, ArcSource, ArcSourceM, ArcsM, DFGraphM, DeadArc, DirectArc, DirectArcM, OhuaData, OhuaDataM};

verus! {

/// The direct arc that stands for a dead arc: from its source to port 0 of operator 0.
pub open spec fn dead_end_arc(a: DeadArc) -> DirectArcM {
    DirectArcM { target: ArcIdentifier { operator: 0, index: 0 }, source: ArcSourceM::Local(a.source) }
}

/// The graph with every dead arc turned into a direct arc with target `(0, 0)`,
/// appended after the direct arcs in order, and no dead arcs left.
#[verifier::opaque]
pub open spec fn spec_process_dead_ends(d: OhuaDataM) -> OhuaDataM {
    OhuaDataM {
        graph: DFGraphM {
            arcs: ArcsM {
                direct: d.graph.arcs.direct + d.graph.arcs.dead.map_values(|a: DeadArc| dead_end_arc(a)),
                compound: d.graph.arcs.compound,
                state: d.graph.arcs.state,
                dead: Seq::empty(),
            },
            operators: d.graph.operators,
            return_arc: d.graph.return_arc,
            input_targets: d.graph.input_targets,
        },
        main_arity: d.main_arity,
        sf_dependencies: d.sf_dependencies,
    }
}

/// Removes the dead arcs and appends them to the direct arcs with target `(0, 0)`:
/// when dead arcs were introduced, direct arcs were already so deeply embedded
/// into the generation of arcs that this was the simpler way.
pub fn process_dead_ends(compiled_algo: &mut OhuaData)
    ensures
        final(compiled_algo).deep_view() == spec_process_dead_ends(old(compiled_algo).deep_view()),
{
    proof { reveal(spec_process_dead_ends); }
    let ghost d = compiled_algo.deep_view();
    let ghost dead = d.graph.arcs.dead;
    let ghost f = |a: DeadArc| dead_end_arc(a);
    let n = compiled_algo.graph.arcs.dead.len();
    let mut i: usize = 0;
    while i < n
        invariant
            i <= n,
            n == dead.len(),
            f == (|a: DeadArc| dead_end_arc(a)),
            compiled_algo.graph.arcs.dead.deep_view() == dead,
            compiled_algo.deep_view() == (OhuaDataM {
                graph: DFGraphM {
                    arcs: ArcsM {
                        direct: d.graph.arcs.direct + dead.subrange(0, i as int).map_values(f),
                        compound: d.graph.arcs.compound,
                        state: d.graph.arcs.state,
                        dead: dead,
                    },
                    operators: d.graph.operators,
                    return_arc: d.graph.return_arc,
                    input_targets: d.graph.input_targets,
                },
                main_arity: d.main_arity,
                sf_dependencies: d.sf_dependencies,
            }),
        decreases n - i,
    {
        let src = compiled_algo.graph.arcs.dead[i].source;
        assert(src == dead[i as int].source);
        let ghost before = compiled_algo.graph.arcs.direct.deep_view();
        compiled_algo.graph.arcs.direct.push(DirectArc {
            target: ArcIdentifier { operator: 0, index: 0 },
            source: ArcSource::Local(src),
        });
        assert(compiled_algo.graph.arcs.direct.deep_view() =~= before.push(f(dead[i as int])));
        assert(dead.subrange(0, (i + 1) as int).map_values(f) =~= dead.subrange(0, i as int).map_values(f).push(f(dead[i as int])));
        assert(compiled_algo.graph.arcs.direct.deep_view() =~= d.graph.arcs.direct + dead.subrange(0, (i + 1) as int).map_values(f));
        i = i + 1;
    }
    compiled_algo.graph.arcs.dead = Vec::new();
    assert(dead.subrange(0, n as int) =~= dead);
    assert(compiled_algo.graph.arcs.dead.deep_view() =~= Seq::<DeadArc>::empty());
}

/// Processing the dead ends leaves no dead arcs, keeps the direct arcs as they
/// were at the front, adds one direct arc for each dead arc, and changes nothing
/// when done a second time.
pub proof fn lemma_dead_ends_processed_once(d: OhuaDataM)
    ensures
        spec_process_dead_ends(d).graph.arcs.dead.len() == 0,
        spec_process_dead_ends(d).graph.arcs.direct.len() == d.graph.arcs.direct.len() + d.graph.arcs.dead.len(),
        spec_process_dead_ends(d).graph.arcs.direct.subrange(0, d.graph.arcs.direct.len() as int) == d.graph.arcs.direct,
        spec_process_dead_ends(spec_process_dead_ends(d)) == spec_process_dead_ends(d),
{
    reveal(spec_process_dead_ends);
    let e = spec_process_dead_ends(d);
    assert(e.graph.arcs.direct.subrange(0, d.graph.arcs.direct.len() as int) =~= d.graph.arcs.direct);
    assert(e.graph.arcs.dead.map_values(|a: DeadArc| dead_end_arc(a)) =~= Seq::<DirectArcM>::empty());
    assert(e.graph.arcs.direct + Seq::<DirectArcM>::empty() =~= e.graph.arcs.direct);
    assert(spec_process_dead_ends(e).graph.arcs =~= e.graph.arcs);
}

/// Runs the backend-specific rewrites on the graph: the dead-end processing and
/// nothing else.
pub fn run_backend_optimizations(compiled_algo: &mut OhuaData)
    ensures
        final(compiled_algo).deep_view() == spec_process_dead_ends(old(compiled_algo).deep_view()),
{
    process_dead_ends(compiled_algo);
}

} // verus!
