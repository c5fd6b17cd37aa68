//! The first form of cast generation, with the argument types of the known
//! example functions written into a table.
use vstd::prelude::*;
use crate::legacy::types::{AlgorithmArguments, Operator};
use crate::legacy::typecasts::{generate_for, spec_casts};
use crate::legacy::type_extract::parser::{ns_prefix, ns_prefix_text};
use crate::seqs::concat;
use crate::text::string_is;

verus! {

/// The argument types of the functions the table knows; none for others.
pub open spec fn table_types(f: Seq<char>) -> Seq<Seq<char>> {
    if f == "hello::calc"@ || f == "hello::world"@ || f == "strings::gen_string"@
        || f == "mainclone::calc"@ || f == "mainclone::double"@ {
        seq!["i32"@]
    } else if f == "strings::count_strings"@ || f == "strings::extend_string1"@ || f == "strings::extend_string2"@
        || f == "strings::append"@ || f == "strings::duplicate"@ {
        seq!["String"@]
    } else if f == "strings::count"@ {
        seq!["String"@, "usize"@]
    } else {
        Seq::empty()
    }
}

fn strings_of(parts: &[&str]) -> (r: Vec<String>)
    ensures
        r.deep_view() == parts@.map_values(|p: &str| p@),
{
    let mut r: Vec<String> = Vec::new();
    let n = parts.len();
    let mut i: usize = 0;
    while i < n
        invariant
            i <= n,
            n == parts@.len(),
            r.deep_view() == parts@.subrange(0, i as int).map_values(|p: &str| p@),
        decreases n - i,
    {
        let ghost prev = r.deep_view();
        r.push(String::from_str(parts[i]));
        assert(r.deep_view() =~= prev.push(parts@[i as int]@));
        assert(parts@.subrange(0, (i + 1) as int).map_values(|p: &str| p@)
            =~= parts@.subrange(0, i as int).map_values(|p: &str| p@).push(parts@[i as int]@));
        i = i + 1;
    }
    assert(parts@.subrange(0, n as int) =~= parts@);
    r
}

/// The argument types of the function `fn_name` from the table.
pub fn get_argument_types(fn_name: String) -> (r: Vec<String>)
    ensures
        r.deep_view() == table_types(fn_name@),
{
    if string_is(&fn_name, "hello::calc") || string_is(&fn_name, "hello::world") || string_is(&fn_name, "strings::gen_string")
        || string_is(&fn_name, "mainclone::calc") || string_is(&fn_name, "mainclone::double") {
        let r = strings_of(&["i32"]);
        assert(r.deep_view() =~= seq!["i32"@]);
        r
    } else if string_is(&fn_name, "strings::count_strings") || string_is(&fn_name, "strings::extend_string1")
        || string_is(&fn_name, "strings::extend_string2") || string_is(&fn_name, "strings::append")
        || string_is(&fn_name, "strings::duplicate") {
        let r = strings_of(&["String"]);
        assert(r.deep_view() =~= seq!["String"@]);
        r
    } else if string_is(&fn_name, "strings::count") {
        let r = strings_of(&["String", "usize"]);
        assert(r.deep_view() =~= seq!["String"@, "usize"@]);
        r
    } else {
        let r: Vec<String> = Vec::new();
        assert(r.deep_view() =~= Seq::<Seq<char>>::empty());
        r
    }
}

/// All types that casts are made for: the algorithm's argument and result types,
/// then the table's types of each operator's function.
pub open spec fn fixed_used_types(algo: AlgorithmArguments, ops: Seq<Operator>) -> Seq<Seq<char>> {
    algo.argument_types.deep_view() + seq![algo.return_type@]
        + concat(ops.map_values(|o: Operator| table_types(ns_prefix(o.operatorType.qbNamespace.deep_view()) + o.operatorType.qbName@)))
}

/// Generates the cast file for the types of the algorithm and of the table's
/// functions: `generic_type_file` followed by the template `typecast` filled in for
/// each type once, in increasing order.
pub fn generate_casts(operators: &Vec<Operator>, algo_args: &AlgorithmArguments, generic_type_file: &str, typecast: &str) -> (r: String)
    ensures
        r@ == spec_casts(generic_type_file@, typecast@, fixed_used_types(*algo_args, operators@)),
{
    let ghost g = |o: Operator| table_types(ns_prefix(o.operatorType.qbNamespace.deep_view()) + o.operatorType.qbName@);
    let ghost av = algo_args.argument_types.deep_view();
    let mut used: Vec<String> = Vec::new();
    let m = algo_args.argument_types.len();
    let mut j: usize = 0;
    while j < m
        invariant
            j <= m,
            m == av.len(),
            av == algo_args.argument_types.deep_view(),
            used.deep_view() == av.subrange(0, j as int),
        decreases m - j,
    {
        let ghost prev = used.deep_view();
        used.push(algo_args.argument_types[j].clone());
        assert(used.deep_view() =~= prev.push(av[j as int]));
        assert(av.subrange(0, (j + 1) as int) =~= av.subrange(0, j as int).push(av[j as int]));
        j = j + 1;
    }
    assert(av.subrange(0, m as int) =~= av);
    let ghost prev = used.deep_view();
    used.push(algo_args.return_type.clone());
    assert(used.deep_view() =~= prev + seq![algo_args.return_type@]);
    let ghost base = used.deep_view();
    let n = operators.len();
    let mut i: usize = 0;
    assert(base + concat(operators@.subrange(0, 0).map_values(g)) =~= base);
    while i < n
        invariant
            i <= n,
            n == operators@.len(),
            g == (|o: Operator| table_types(ns_prefix(o.operatorType.qbNamespace.deep_view()) + o.operatorType.qbName@)),
            used.deep_view() == base + concat(operators@.subrange(0, i as int).map_values(g)),
        decreases n - i,
    {
        let mut fn_name = ns_prefix_text(&operators[i].operatorType.qbNamespace);
        fn_name.append(operators[i].operatorType.qbName.as_str());
        let types = get_argument_types(fn_name);
        let ghost before = used.deep_view();
        let k = types.len();
        let mut q: usize = 0;
        while q < k
            invariant
                q <= k,
                k == types@.len(),
                used.deep_view() == before + types.deep_view().subrange(0, q as int),
            decreases k - q,
        {
            let ghost pv = used.deep_view();
            used.push(types[q].clone());
            assert(used.deep_view() =~= pv.push(types.deep_view()[q as int]));
            assert(types.deep_view().subrange(0, (q + 1) as int) =~= types.deep_view().subrange(0, q as int).push(types.deep_view()[q as int]));
            q = q + 1;
        }
        assert(types.deep_view().subrange(0, k as int) =~= types.deep_view());
        let ghost mm = operators@.subrange(0, (i + 1) as int).map_values(g);
        assert(mm.drop_last() =~= operators@.subrange(0, i as int).map_values(g));
        assert(mm.last() == g(operators@[i as int]));
        assert(used.deep_view() =~= base + concat(mm));
        i = i + 1;
    }
    assert(operators@.subrange(0, n as int) =~= operators@);
    assert(used.deep_view() =~= fixed_used_types(*algo_args, operators@));
    generate_for(used, generic_type_file, typecast)
}

} // verus!
