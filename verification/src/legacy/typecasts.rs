//! The type casts of the generic value type: one for each type that flows
//! through the graph.
use vstd::prelude::*;
use crate::legacy::types::{Operator, OperatorType};
use crate::legacy::type_extract::{is_info_for, TypeKnowledgeBase};
use crate::legacy::type_extract::algo_io_imports::normalized;
use crate::legacy::type_extract::parser::{FunctionInfo, Type};
use crate::order::{sorted_unique, str_lt, sort_dedup_strings};
use crate::seqs::concat;
use crate::template::{replaced, replace_str};

verus! {

/// The position of the first entry about the function, if any.
pub open spec fn first_info_index(fs: Seq<FunctionInfo>, name: Seq<char>, ns: Seq<Seq<char>>) -> int {
    choose|i: int| 0 <= i < fs.len() && is_info_for(fs[i], name, ns)
        && forall|j: int| 0 <= j < i ==> !is_info_for(#[trigger] fs[j], name, ns)
}

/// Some entry is about the function.
pub open spec fn has_info(fs: Seq<FunctionInfo>, name: Seq<char>, ns: Seq<Seq<char>>) -> bool {
    exists|i: int| 0 <= i < fs.len() && is_info_for(#[trigger] fs[i], name, ns)
}

/// The names of a function's argument types, then that of its result type.
pub open spec fn fn_type_names(f: FunctionInfo) -> Seq<Seq<char>> {
    f.arguments@.map_values(|t: Type| t.name@).push(f.return_val.name@)
}

/// The type names of the function an operator calls, from its first entry.
pub open spec fn op_type_names(t: OperatorType, fs: Seq<FunctionInfo>) -> Seq<Seq<char>> {
    fn_type_names(fs[first_info_index(fs, t.qbName@, t.qbNamespace.deep_view())])
}

/// All types that flow through the graph, without spaces: the algorithm's argument
/// and result types, then those of each operator's function.
pub open spec fn used_types(kb: TypeKnowledgeBase, ops: Seq<Operator>) -> Seq<Seq<char>> {
    kb.algo_io.argument_types.deep_view().map_values(|t: Seq<char>| normalized(t))
        + seq![normalized(kb.algo_io.return_type@)]
        + concat(ops.map_values(|o: Operator| op_type_names(o.operatorType, kb.functions@).map_values(|t: Seq<char>| normalized(t))))
}

/// The cast file: the generic type file, then the cast template filled in for each
/// type once, in increasing order.
pub open spec fn spec_casts(generic_type_file: Seq<char>, typecast: Seq<char>, types: Seq<Seq<char>>) -> Seq<char> {
    generic_type_file + concat(sorted_unique(types, str_lt()).map_values(|t: Seq<char>| replaced(typecast, "{target_type}"@, t)))
}

proof fn lemma_first_index(fs: Seq<FunctionInfo>, name: Seq<char>, ns: Seq<Seq<char>>, i: int)
    requires
        0 <= i < fs.len(),
        is_info_for(fs[i], name, ns),
        forall|j: int| 0 <= j < i ==> !is_info_for(#[trigger] fs[j], name, ns),
    ensures
        first_info_index(fs, name, ns) == i,
{
    let k = first_info_index(fs, name, ns);
    assert(0 <= k < fs.len() && is_info_for(fs[k], name, ns) && forall|j: int| 0 <= j < k ==> !is_info_for(#[trigger] fs[j], name, ns));
    if k < i {
        assert(!is_info_for(fs[k], name, ns));
    }
    if i < k {
        assert(!is_info_for(fs[i], name, ns));
    }
}

/// The type names of the function the operator type names, as the type knowledge
/// base has them: its arguments', then its result's.
pub fn get_argument_types(func: &OperatorType, lookup: &TypeKnowledgeBase) -> (r: Vec<String>)
    requires
        has_info(lookup.functions@, func.qbName@, func.qbNamespace.deep_view()),
    ensures
        r.deep_view() == op_type_names(*func, lookup.functions@),
{
    let ghost name = func.qbName@;
    let ghost ns = func.qbNamespace.deep_view();
    let found = lookup.info_for_function(func.qbName.as_str(), func.qbNamespace.as_slice());
    match found {
        Some(funcinfo) => {
            proof {
                let i = choose|i: int| 0 <= i < lookup.functions@.len()
                    && is_info_for(#[trigger] lookup.functions@[i], name, ns)
                    && *funcinfo == lookup.functions@[i]
                    && forall|j: int| 0 <= j < i ==> !is_info_for(#[trigger] lookup.functions@[j], name, ns);
                lemma_first_index(lookup.functions@, name, ns, i);
            }
            let n = funcinfo.arguments.len();
            let mut types: Vec<String> = Vec::new();
            let mut k: usize = 0;
            while k < n
                invariant
                    k <= n,
                    n == funcinfo.arguments@.len(),
                    types.deep_view() == funcinfo.arguments@.subrange(0, k as int).map_values(|t: Type| t.name@),
                decreases n - k,
            {
                let ghost prev = types.deep_view();
                types.push(funcinfo.arguments[k].name.clone());
                assert(types.deep_view() =~= prev.push(funcinfo.arguments@[k as int].name@));
                assert(funcinfo.arguments@.subrange(0, (k + 1) as int).map_values(|t: Type| t.name@)
                    =~= funcinfo.arguments@.subrange(0, k as int).map_values(|t: Type| t.name@).push(funcinfo.arguments@[k as int].name@));
                k = k + 1;
            }
            let ghost prev = types.deep_view();
            types.push(funcinfo.return_val.name.clone());
            assert(funcinfo.arguments@.subrange(0, n as int) =~= funcinfo.arguments@);
            assert(types.deep_view() =~= prev.push(funcinfo.return_val.name@));
            types
        },
        None => {
            proof {
                let i = choose|i: int| 0 <= i < lookup.functions@.len() && is_info_for(#[trigger] lookup.functions@[i], name, ns);
            }
            Vec::new()
        },
    }
}

/// Each name without spaces, appended to `out`.
fn push_normalized(out: &mut Vec<String>, names: &Vec<String>)
    ensures
        final(out).deep_view() == old(out).deep_view() + names.deep_view().map_values(|t: Seq<char>| normalized(t)),
{
    proof {
        reveal_strlit(" ");
        reveal_strlit("");
        assert(""@ =~= Seq::<char>::empty());
    }
    let ghost start = out.deep_view();
    let ghost nv = names.deep_view();
    let n = names.len();
    let mut i: usize = 0;
    assert(start + nv.subrange(0, 0).map_values(|t: Seq<char>| normalized(t)) =~= start);
    while i < n
        invariant
            i <= n,
            n == nv.len(),
            nv == names.deep_view(),
            out.deep_view() == start + nv.subrange(0, i as int).map_values(|t: Seq<char>| normalized(t)),
        decreases n - i,
    {
        proof {
            reveal_strlit(" ");
            reveal_strlit("");
            assert(""@ =~= Seq::<char>::empty());
        }
        let ghost prev = out.deep_view();
        let t = replace_str(names[i].as_str(), " ", "");
        out.push(t);
        assert(nv[i as int] == names@[i as int]@);
        assert(out.deep_view() =~= prev.push(normalized(nv[i as int])));
        assert(nv.subrange(0, (i + 1) as int).map_values(|t: Seq<char>| normalized(t))
            =~= nv.subrange(0, i as int).map_values(|t: Seq<char>| normalized(t)).push(normalized(nv[i as int])));
        i = i + 1;
    }
    assert(nv.subrange(0, n as int) =~= nv);
}

/// The text of the cast file for the given types.
pub(crate) fn generate_for(types: Vec<String>, generic_type_file: &str, typecast: &str) -> (r: String)
    ensures
        r@ == spec_casts(generic_type_file@, typecast@, types.deep_view()),
{
    proof { reveal_strlit("{target_type}"); }
    let ghost f = |t: Seq<char>| replaced(typecast@, "{target_type}"@, t);
    let sorted = sort_dedup_strings(types);
    let ghost sv = sorted.deep_view();
    let mut text = String::from_str(generic_type_file);
    let n = sorted.len();
    let mut i: usize = 0;
    assert(text@ =~= generic_type_file@ + concat(sv.subrange(0, 0).map_values(f)));
    while i < n
        invariant
            i <= n,
            n == sv.len(),
            sv == sorted.deep_view(),
            f == (|t: Seq<char>| replaced(typecast@, "{target_type}"@, t)),
            text@ == generic_type_file@ + concat(sv.subrange(0, i as int).map_values(f)),
        decreases n - i,
    {
        proof { reveal_strlit("{target_type}"); }
        let ghost prev = text@;
        let cast = replace_str(typecast, "{target_type}", sorted[i].as_str());
        text.append(cast.as_str());
        assert(sv[i as int] == sorted@[i as int]@);
        let ghost m = sv.subrange(0, (i + 1) as int).map_values(f);
        assert(m.drop_last() =~= sv.subrange(0, i as int).map_values(f));
        assert(text@ =~= generic_type_file@ + concat(m));
        i = i + 1;
    }
    assert(sv.subrange(0, n as int) =~= sv);
    text
}

/// Collects all types that casts are generated for, from the algorithm's
/// arguments and result and from the functions of the operators, and generates
/// the cast file: `generic_type_file` followed by the template `typecast` with
/// `{target_type}` filled in for each type.
pub fn generate_casts(operators: &Vec<Operator>, typeinfo: &TypeKnowledgeBase, generic_type_file: &str, typecast: &str) -> (r: String)
    requires
        forall|k: int| 0 <= k < operators@.len() ==> has_info(typeinfo.functions@,
            (#[trigger] operators@[k]).operatorType.qbName@, operators@[k].operatorType.qbNamespace.deep_view()),
    ensures
        r@ == spec_casts(generic_type_file@, typecast@, used_types(*typeinfo, operators@)),
{
    let ghost g = |o: Operator| op_type_names(o.operatorType, typeinfo.functions@).map_values(|t: Seq<char>| normalized(t));
    let mut used: Vec<String> = Vec::new();
    push_normalized(&mut used, &typeinfo.algo_io.argument_types);
    let mut ret: Vec<String> = Vec::new();
    ret.push(typeinfo.algo_io.return_type.clone());
    assert(ret.deep_view() =~= seq![typeinfo.algo_io.return_type@]);
    push_normalized(&mut used, &ret);
    let ghost base = used.deep_view();
    let n = operators.len();
    let mut i: usize = 0;
    assert(base + concat(operators@.subrange(0, 0).map_values(g)) =~= base);
    while i < n
        invariant
            i <= n,
            n == operators@.len(),
            g == (|o: Operator| op_type_names(o.operatorType, typeinfo.functions@).map_values(|t: Seq<char>| normalized(t))),
            forall|k: int| 0 <= k < operators@.len() ==> has_info(typeinfo.functions@,
                (#[trigger] operators@[k]).operatorType.qbName@, operators@[k].operatorType.qbNamespace.deep_view()),
            used.deep_view() == base + concat(operators@.subrange(0, i as int).map_values(g)),
        decreases n - i,
    {
        let ghost prev = used.deep_view();
        let names = get_argument_types(&operators[i].operatorType, typeinfo);
        push_normalized(&mut used, &names);
        let ghost m = operators@.subrange(0, (i + 1) as int).map_values(g);
        assert(m.drop_last() =~= operators@.subrange(0, i as int).map_values(g));
        assert(m.last() == g(operators@[i as int]));
        assert(used.deep_view() =~= base + concat(m));
        i = i + 1;
    }
    assert(operators@.subrange(0, n as int) =~= operators@);
    assert(used.deep_view() =~= used_types(*typeinfo, operators@));
    generate_for(used, generic_type_file, typecast)
}

} // verus!
