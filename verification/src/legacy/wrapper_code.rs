//! The pieces of the wrapper file: the wrapper around one stateful function and
//! the wrappers of the main arguments, each a template with its placeholders
//! filled in, and the namespaces the wrappers import.
use vstd::prelude::*;
use crate::legacy::wrappers::Output;
use crate::template::{replaced, repeated, replace_str, repeat_str};
use crate::text::{nat_decimal, int_decimal, usize_to_string, i32_to_string, starts_with, string_starts_with};
use crate::legacy::types::{Arc, OhuaData, Operator, OperatorType, ValueType};
use crate::order::{lemma_orders_strict_total, lemma_sorted_unique_props, sorted_unique, str_lt, sort_dedup_strings};

verus! {

/// The statements that take the `n` arguments of a wrapper off its argument vector:
/// `let arg{i} = Box::from(args.pop().unwrap());` for each `i` below `n`.
pub open spec fn unpack_args(n: nat) -> Seq<char>
    decreases n,
{
    if n == 0 {
        Seq::empty()
    } else {
        unpack_args((n - 1) as nat) + "let arg"@ + nat_decimal((n - 1) as nat)
            + " = Box::from(args.pop().unwrap());\n"@
    }
}

/// The arguments of the wrapped call: `*arg0, *arg1, ...` for `n` arguments.
pub open spec fn call_args(n: nat) -> Seq<char>
    decreases n,
{
    if n == 0 {
        Seq::empty()
    } else if n == 1 {
        "*arg"@ + nat_decimal(0)
    } else {
        call_args((n - 1) as nat) + ", "@ + "*arg"@ + nat_decimal((n - 1) as nat)
    }
}

/// The boxed result vector for element `index` of a returned tuple that `count`
/// arcs take: cloned once per arc when there are several.
pub open spec fn tuple_element_out(index: nat, count: nat) -> Seq<char> {
    if count > 1 {
        "vec!["@ + repeated("Box::from(Box::new(res."@ + nat_decimal(index) + ".clone())), "@, count) + "], "@
    } else {
        "vec!["@ + "Box::from(Box::new(res."@ + nat_decimal(index) + "))"@ + "], "@
    }
}

/// The boxed result vectors of all elements of a returned tuple.
pub open spec fn tuple_out(counts: Seq<usize>) -> Seq<char>
    decreases counts.len(),
{
    if counts.len() == 0 {
        Seq::empty()
    } else {
        tuple_out(counts.drop_last()) + tuple_element_out((counts.len() - 1) as nat, counts.last() as nat)
    }
}

/// The boxed result vector of a single returned value that `uses` arcs take:
/// nothing when it is unused, cloned once per arc when there are several.
pub open spec fn single_out(uses: nat) -> Seq<char> {
    if uses == 0 {
        Seq::empty()
    } else if uses > 1 {
        "vec!["@ + repeated("Box::from(Box::new(res.clone())), "@, uses) + "]"@
    } else {
        "vec!["@ + "Box::from(Box::new(res))"@ + "]"@
    }
}

/// What the wrapper returns, by the kind of output of the operator.
pub open spec fn outgoing(output: Output) -> Seq<char> {
    match output {
        Output::Single(n) => single_out(n as nat),
        Output::Tuple(v) => tuple_out(v@),
    }
}

/// The wrapper text: `{escaped_name}` becomes the name with `::` turned into `_`
/// followed by the operator id, `{incoming_args}` the unpacking statements,
/// `{name}` the function's path, `{fn_args}` the call's arguments and
/// `{outgoing_args}` the boxed results, in this order.
pub open spec fn spec_sfn_wrapper(skeleton: Seq<char>, name: Seq<char>, incoming_arcs: nat, output: Output, op_id: i32) -> Seq<char> {
    sfn_wrapper_text(skeleton, name, incoming_arcs, outgoing(output), op_id)
}

/// The wrapper text, given the text of the boxed results.
pub open spec fn sfn_wrapper_text(skeleton: Seq<char>, name: Seq<char>, incoming_arcs: nat, out: Seq<char>, op_id: i32) -> Seq<char> {
    let s1 = replaced(skeleton, "{escaped_name}"@, replaced(name, "::"@, "_"@) + int_decimal(op_id as int));
    let s2 = replaced(s1, "{incoming_args}"@, unpack_args(incoming_arcs));
    let s3 = replaced(replaced(s2, "{name}"@, name), "{fn_args}"@, call_args(incoming_arcs));
    replaced(s3, "{outgoing_args}"@, out)
}

pub(crate) fn unpack_args_text(n: usize) -> (r: String)
    ensures
        r@ == unpack_args(n as nat),
{
    let mut s = String::new();
    let mut i: usize = 0;
    while i < n
        invariant
            i <= n,
            s@ == unpack_args(i as nat),
        decreases n - i,
    {
        s.append("let arg");
        let d = usize_to_string(i);
        s.append(d.as_str());
        s.append(" = Box::from(args.pop().unwrap());\n");
        assert(s@ =~= unpack_args((i + 1) as nat));
        i = i + 1;
    }
    s
}

pub(crate) fn call_args_text(n: usize) -> (r: String)
    ensures
        r@ == call_args(n as nat),
{
    let mut s = String::new();
    let mut i: usize = 0;
    while i < n
        invariant
            i <= n,
            s@ == call_args(i as nat),
        decreases n - i,
    {
        if i > 0 {
            s.append(", ");
        }
        s.append("*arg");
        let d = usize_to_string(i);
        s.append(d.as_str());
        assert(s@ =~= call_args((i + 1) as nat));
        i = i + 1;
    }
    s
}

fn tuple_out_text(counts: &Vec<usize>) -> (r: String)
    ensures
        r@ == tuple_out(counts@),
{
    let n = counts.len();
    let mut s = String::new();
    let mut i: usize = 0;
    assert(counts@.subrange(0, 0) =~= Seq::<usize>::empty());
    while i < n
        invariant
            i <= n,
            n == counts@.len(),
            s@ == tuple_out(counts@.subrange(0, i as int)),
        decreases n - i,
    {
        let count = counts[i];
        let d = usize_to_string(i);
        let ghost before = s@;
        if count > 1 {
            let mut elem = String::new();
            elem.append("Box::from(Box::new(res.");
            elem.append(d.as_str());
            elem.append(".clone())), ");
            let cloned = repeat_str(elem.as_str(), count);
            s.append("vec![");
            s.append(cloned.as_str());
            s.append("], ");
        } else {
            s.append("vec![");
            s.append("Box::from(Box::new(res.");
            s.append(d.as_str());
            s.append("))");
            s.append("], ");
        }
        assert(s@ =~= before + tuple_element_out(i as nat, count as nat));
        assert(counts@.subrange(0, (i + 1) as int).drop_last() =~= counts@.subrange(0, i as int));
        i = i + 1;
    }
    assert(counts@.subrange(0, n as int) =~= counts@);
    s
}

fn single_out_text(uses: usize) -> (r: String)
    ensures
        r@ == single_out(uses as nat),
{
    let mut s = String::new();
    if uses == 0 {
        assert(s@ =~= single_out(0));
    } else if uses > 1 {
        let cloned = repeat_str("Box::from(Box::new(res.clone())), ", uses);
        s.append("vec![");
        s.append(cloned.as_str());
        s.append("]");
    } else {
        s.append("vec![");
        s.append("Box::from(Box::new(res))");
        s.append("]");
    }
    s
}

/// Generates a wrapper for a single stateful function.
///
/// The wrapper template `skeleton` is populated with
/// * the necessary re-boxing (typecasts) for all input values,
/// * the casted arguments handed to the underlying function,
/// * the output values re-boxed into vectors, cloned where several arcs take them.
pub fn generate_sfn_wrapper(skeleton: &str, name: &str, incoming_arcs: usize, output: Output, op_id: i32) -> (r: String)
    ensures
        r@ == spec_sfn_wrapper(skeleton@, name@, incoming_arcs as nat, output, op_id),
{
    proof {
        reveal_strlit("::");
        reveal_strlit("{escaped_name}");
        reveal_strlit("{incoming_args}");
        reveal_strlit("{name}");
        reveal_strlit("{fn_args}");
        reveal_strlit("{outgoing_args}");
    }
    let mut mangled = replace_str(name, "::", "_");
    let id = i32_to_string(op_id);
    mangled.append(id.as_str());
    let s1 = replace_str(skeleton, "{escaped_name}", mangled.as_str());
    let incoming = unpack_args_text(incoming_arcs);
    let s2 = replace_str(s1.as_str(), "{incoming_args}", incoming.as_str());
    let fn_args = call_args_text(incoming_arcs);
    let s3a = replace_str(s2.as_str(), "{name}", name);
    let s3 = replace_str(s3a.as_str(), "{fn_args}", fn_args.as_str());
    let out = match &output {
        Output::Tuple(counts) => tuple_out_text(counts),
        Output::Single(uses) => single_out_text(*uses),
    };
    replace_str(s3.as_str(), "{outgoing_args}", out.as_str())
}

/// The parts of a path joined by `::`.
pub open spec fn joined_path(ns: Seq<Seq<char>>) -> Seq<char>
    decreases ns.len(),
{
    if ns.len() == 0 {
        Seq::empty()
    } else if ns.len() == 1 {
        ns[0]
    } else {
        joined_path(ns.drop_last()) + "::"@ + ns.last()
    }
}

/// Joins the parts of a path with `::`.
pub fn join_path(ns: &Vec<String>) -> (r: String)
    ensures
        r@ == joined_path(ns.deep_view()),
{
    let ghost nv = ns.deep_view();
    let n = ns.len();
    let mut s = String::new();
    let mut i: usize = 0;
    assert(nv.subrange(0, 0) =~= Seq::<Seq<char>>::empty());
    while i < n
        invariant
            i <= n,
            n == nv.len(),
            nv == ns.deep_view(),
            s@ == joined_path(nv.subrange(0, i as int)),
        decreases n - i,
    {
        if i > 0 {
            s.append("::");
        }
        s.append(ns[i].as_str());
        let ghost next = nv.subrange(0, (i + 1) as int);
        assert(next.drop_last() =~= nv.subrange(0, i as int));
        assert(next.last() == ns@[i as int]@);
        assert(s@ =~= joined_path(next));
        i = i + 1;
    }
    assert(nv.subrange(0, n as int) =~= nv);
    s
}

/// The namespaces of the operators, joined by `::`, leaving out those under
/// `ohua::lang`, in the order of the operators.
pub open spec fn app_namespaces(ops: Seq<Operator>) -> Seq<Seq<char>>
    decreases ops.len(),
{
    if ops.len() == 0 {
        Seq::empty()
    } else {
        let n = joined_path(ops.last().operatorType.qbNamespace.deep_view());
        app_namespaces(ops.drop_last()) + if starts_with(n, "ohua::lang"@) { Seq::empty() } else { seq![n] }
    }
}

proof fn lemma_app_namespaces_contains(ops: Seq<Operator>, x: Seq<char>)
    ensures
        app_namespaces(ops).contains(x) <==> exists|k: int| 0 <= k < ops.len()
            && x == joined_path((#[trigger] ops[k]).operatorType.qbNamespace.deep_view()) && !starts_with(x, "ohua::lang"@),
    decreases ops.len(),
{
    if ops.len() > 0 {
        let pre = ops.drop_last();
        lemma_app_namespaces_contains(pre, x);
        let n = joined_path(ops.last().operatorType.qbNamespace.deep_view());
        let tail = if starts_with(n, "ohua::lang"@) { Seq::<Seq<char>>::empty() } else { seq![n] };
        let a = app_namespaces(pre);
        assert(app_namespaces(ops) == a + tail);
        if app_namespaces(ops).contains(x) {
            let w = choose|w: int| 0 <= w < (a + tail).len() && (a + tail)[w] == x;
            if w < a.len() {
                assert(a[w] == x);
                let k = choose|k: int| 0 <= k < pre.len()
                    && x == joined_path((#[trigger] pre[k]).operatorType.qbNamespace.deep_view()) && !starts_with(x, "ohua::lang"@);
                assert(ops[k] == pre[k]);
            } else {
                assert(ops[ops.len() - 1] == ops.last());
            }
        }
        if exists|k: int| 0 <= k < ops.len()
            && x == joined_path((#[trigger] ops[k]).operatorType.qbNamespace.deep_view()) && !starts_with(x, "ohua::lang"@) {
            let k = choose|k: int| 0 <= k < ops.len()
                && x == joined_path((#[trigger] ops[k]).operatorType.qbNamespace.deep_view()) && !starts_with(x, "ohua::lang"@);
            if k < ops.len() - 1 {
                assert(pre[k] == ops[k]);
                let w = choose|w: int| 0 <= w < a.len() && a[w] == x;
                assert((a + tail)[w] == x);
            } else {
                assert((a + tail)[a.len() as int] == x);
            }
        }
    }
}

/// The wrappers import the namespace of each stateful function, once; never one
/// under `ohua::lang`, and nothing else.
pub proof fn lemma_namespaces_imported_once(ops: Seq<Operator>)
    ensures
        forall|i: int, j: int| 0 <= i < j < sorted_unique(app_namespaces(ops), str_lt()).len()
            ==> sorted_unique(app_namespaces(ops), str_lt())[i] != sorted_unique(app_namespaces(ops), str_lt())[j],
        forall|x: Seq<char>| sorted_unique(app_namespaces(ops), str_lt()).contains(x) <==> exists|k: int|
            0 <= k < ops.len() && x == joined_path((#[trigger] ops[k]).operatorType.qbNamespace.deep_view())
            && !starts_with(x, "ohua::lang"@),
{
    let s = app_namespaces(ops);
    lemma_orders_strict_total();
    lemma_sorted_unique_props(s, str_lt());
    let r = sorted_unique(s, str_lt());
    assert forall|i: int, j: int| 0 <= i < j < r.len() implies r[i] != r[j] by {
        assert(str_lt()(r[i], r[j]));
        if r[i] == r[j] {
            assert(str_lt()(r[i], r[i]));
        }
    }
    assert forall|x: Seq<char>| r.contains(x) <==> exists|k: int|
        0 <= k < ops.len() && x == joined_path((#[trigger] ops[k]).operatorType.qbNamespace.deep_view())
        && !starts_with(x, "ohua::lang"@) by {
        lemma_app_namespaces_contains(ops, x);
        if r.contains(x) {
            assert(r.to_set().contains(x));
            assert(s.to_set().contains(x));
        }
        if s.contains(x) {
            assert(s.to_set().contains(x));
            assert(r.to_set().contains(x));
        }
    }
}

/// The namespaces whose functions the wrappers call, each once and in
/// increasing order; those of the built-in `ohua::lang` operators are left out.
pub fn analyze_namespaces(ohuadata: &OhuaData) -> (r: Vec<String>)
    ensures
        r.deep_view() == sorted_unique(app_namespaces(ohuadata.graph.operators@), str_lt()),
{
    let ops = &ohuadata.graph.operators;
    let n = ops.len();
    let mut names: Vec<String> = Vec::new();
    let mut i: usize = 0;
    assert(ops@.subrange(0, 0) =~= Seq::<Operator>::empty());
    assert(names.deep_view() =~= Seq::<Seq<char>>::empty());
    while i < n
        invariant
            i <= n,
            n == ops@.len(),
            names.deep_view() == app_namespaces(ops@.subrange(0, i as int)),
        decreases n - i,
    {
        let ghost prev = names.deep_view();
        let namespace = join_path(&ops[i].operatorType.qbNamespace);
        let ghost next = ops@.subrange(0, (i + 1) as int);
        assert(next.drop_last() =~= ops@.subrange(0, i as int));
        assert(next.last() == ops@[i as int]);
        if !string_starts_with(&namespace, "ohua::lang") {
            names.push(namespace);
            assert(names.deep_view() =~= prev.push(namespace@));
        } else {
            assert(prev + Seq::<Seq<char>>::empty() =~= prev);
        }
        assert(names.deep_view() =~= app_namespaces(next));
        i = i + 1;
    }
    assert(ops@.subrange(0, n as int) =~= ops@);
    sort_dedup_strings(names)
}

/// Every main argument that an arc takes gets a wrapper: it is among the used
/// main arguments, so the arc, once redirected, leaves an operator that exists.
pub proof fn lemma_env_arcs_are_wrapped(arcs: Seq<Arc>, arity: int, k: int, o: i32)
    requires
        0 <= k < arcs.len(),
        arcs[k].source.val == ValueType::EnvironmentVal(o),
        0 <= o < arity,
    ensures
        used_mainargs(arcs, arity).contains(o),
    decreases arity,
{
    if o < arity - 1 {
        lemma_env_arcs_are_wrapped(arcs, arity - 1, k, o);
        let pre = used_mainargs(arcs, arity - 1);
        let w = choose|w: int| 0 <= w < pre.len() && pre[w] == o;
        assert(used_mainargs(arcs, arity)[w] == o);
    } else {
        lemma_env_uses_positive(arcs, k, o);
        let pre = used_mainargs(arcs, arity - 1);
        assert(used_mainargs(arcs, arity) == pre.push(o));
        assert(used_mainargs(arcs, arity)[pre.len() as int] == o);
    }
}

proof fn lemma_env_uses_positive(arcs: Seq<Arc>, k: int, o: i32)
    requires
        0 <= k < arcs.len(),
        arcs[k].source.val == ValueType::EnvironmentVal(o),
    ensures
        env_uses(arcs, o) > 0,
    decreases arcs.len(),
{
    if k < arcs.len() - 1 {
        lemma_env_uses_positive(arcs.drop_last(), k, o);
    }
}

/// How many arcs take main argument `k` from the environment.
pub open spec fn env_uses(arcs: Seq<Arc>, k: i32) -> nat
    decreases arcs.len(),
{
    if arcs.len() == 0 {
        0
    } else {
        env_uses(arcs.drop_last(), k) + if arcs.last().source.val == ValueType::EnvironmentVal(k) { 1nat } else { 0nat }
    }
}

/// The boxed argument the wrapper of a main argument hands on: once, or a
/// clone for each of its `uses`.
pub open spec fn mainarg_argument(uses: nat) -> Seq<char> {
    if uses == 1 {
        "Box::from(Box::new(arg))"@
    } else {
        repeated("Box::from(Box::new(arg.clone())), "@, uses)
    }
}

/// The wrapper of main argument `k`: the template with `{n}` the argument's
/// number, `{arg_type}` its type and `{argument}` the boxed argument, in this order.
pub open spec fn mainarg_wrapper(template: Seq<char>, arg_type: Seq<char>, k: int, uses: nat) -> Seq<char> {
    replaced(
        replaced(replaced(template, "{n}"@, int_decimal(k)), "{arg_type}"@, arg_type),
        "{argument}"@,
        mainarg_argument(uses),
    )
}

/// The main arguments below `k` that some arc takes; the others get no wrapper.
pub open spec fn used_mainargs(arcs: Seq<Arc>, k: int) -> Seq<i32>
    decreases k,
{
    if k <= 0 {
        Seq::empty()
    } else {
        used_mainargs(arcs, k - 1) + if env_uses(arcs, (k - 1) as i32) > 0 { seq![(k - 1) as i32] } else { Seq::empty() }
    }
}

/// The wrappers of the used main arguments below `k`, one after the other.
pub open spec fn mainarg_code(template: Seq<char>, types: Seq<Seq<char>>, arcs: Seq<Arc>, k: int) -> Seq<char>
    decreases k,
{
    if k <= 0 {
        Seq::empty()
    } else {
        let u = env_uses(arcs, (k - 1) as i32);
        mainarg_code(template, types, arcs, k - 1)
            + if u > 0 { mainarg_wrapper(template, types[k - 1], k - 1, u) } else { Seq::empty() }
    }
}

/// The operator that stands for main argument `k`: id `first_id + k`, no
/// namespace, and `mainarg{k}` as its name and function.
pub open spec fn is_mainarg_operator(op: Operator, first_id: i32, k: i32) -> bool {
    &&& op.operatorId == first_id + k
    &&& op.operatorType.qbNamespace@.len() == 0
    &&& op.operatorType.qbName@ == "mainarg"@ + int_decimal(k as int)
    &&& op.operatorType.func@ == "mainarg"@ + int_decimal(k as int)
}

fn count_env_uses(arcs: &Vec<Arc>, k: i32) -> (r: usize)
    ensures
        r == env_uses(arcs@, k),
{
    let n = arcs.len();
    let mut c: usize = 0;
    let mut i: usize = 0;
    assert(arcs@.subrange(0, 0) =~= Seq::<Arc>::empty());
    while i < n
        invariant
            i <= n,
            n == arcs@.len(),
            c == env_uses(arcs@.subrange(0, i as int), k),
            c <= i,
        decreases n - i,
    {
        let ghost next = arcs@.subrange(0, (i + 1) as int);
        assert(next.drop_last() =~= arcs@.subrange(0, i as int));
        match arcs[i].source.val {
            ValueType::EnvironmentVal(e) => {
                if e == k {
                    c = c + 1;
                }
            },
            _ => {},
        }
        i = i + 1;
    }
    assert(arcs@.subrange(0, n as int) =~= arcs@);
    c
}

fn mainarg_name(d: &String) -> (r: String)
    ensures
        r@ == "mainarg"@ + d@,
{
    let mut name = String::from_str("mainarg");
    name.append(d.as_str());
    name
}

/// The main argument wrappers for `arity` arguments taken by `arcs`.
pub(crate) fn mainarg_wrappers_of(first_id: i32, arity: i32, arcs: &Vec<Arc>, mainarg_types: &Vec<String>, template: &str) -> (r: (Vec<Operator>, String))
    requires
        arity <= mainarg_types@.len(),
        forall|k: i32| 0 <= k < arity && env_uses(arcs@, k) > 0
            ==> first_id + k <= i32::MAX,
    ensures
        r.1@ == mainarg_code(template@, mainarg_types.deep_view(), arcs@, arity as int),
        r.0@.len() == used_mainargs(arcs@, arity as int).len(),
        forall|j: int| 0 <= j < r.0@.len() ==> is_mainarg_operator(
            #[trigger] r.0@[j], first_id, used_mainargs(arcs@, arity as int)[j]),
{
    let ghost tv = mainarg_types.deep_view();
    let mut operators: Vec<Operator> = Vec::new();
    let mut code = String::new();
    let mut arg_no: i32 = 0;
    while arg_no < arity
        invariant
            0 <= arg_no,
            arg_no <= arity || arg_no == 0,
            arity <= mainarg_types@.len(),
            tv == mainarg_types.deep_view(),
            forall|k: i32| 0 <= k < arity && env_uses(arcs@, k) > 0 ==> first_id + k <= i32::MAX,
            code@ == mainarg_code(template@, tv, arcs@, arg_no as int),
            operators@.len() == used_mainargs(arcs@, arg_no as int).len(),
            forall|j: int| 0 <= j < operators@.len() ==> is_mainarg_operator(
                #[trigger] operators@[j], first_id, used_mainargs(arcs@, arg_no as int)[j]),
        decreases arity - arg_no,
    {
        let uses = count_env_uses(arcs, arg_no);
        let ty = &mainarg_types[arg_no as usize];
        let ghost used_before = used_mainargs(arcs@, arg_no as int);
        let ghost ops_before = operators@;
        if uses > 0 {
            proof {
                reveal_strlit("{n}");
                reveal_strlit("{arg_type}");
                reveal_strlit("{argument}");
            }
            let d = i32_to_string(arg_no);
            let w1 = replace_str(template, "{n}", d.as_str());
            let w2 = replace_str(w1.as_str(), "{arg_type}", ty.as_str());
            let argument = if uses == 1 {
                String::from_str("Box::from(Box::new(arg))")
            } else {
                repeat_str("Box::from(Box::new(arg.clone())), ", uses)
            };
            let w3 = replace_str(w2.as_str(), "{argument}", argument.as_str());
            assert(tv[arg_no as int] == ty@);
            code.append(w3.as_str());
            let name = mainarg_name(&d);
            let func = mainarg_name(&d);
            let op = Operator {
                operatorId: first_id + arg_no,
                operatorType: OperatorType { qbNamespace: Vec::new(), qbName: name, func: func },
            };
            assert(is_mainarg_operator(op, first_id, arg_no));
            operators.push(op);
            assert(used_mainargs(arcs@, (arg_no + 1) as int) == used_before.push(arg_no));
            assert forall|j: int| 0 <= j < operators@.len() implies is_mainarg_operator(
                #[trigger] operators@[j], first_id, used_mainargs(arcs@, (arg_no + 1) as int)[j]) by {
                if j < ops_before.len() {
                    assert(operators@[j] == ops_before[j]);
                }
            }
        } else {
            assert(used_mainargs(arcs@, (arg_no + 1) as int) =~= used_before);
            assert(code@ =~= mainarg_code(template@, tv, arcs@, (arg_no + 1) as int));
        }
        arg_no = arg_no + 1;
    }
    (operators, code)
}

/// Wraps the arguments of the algorithm into operators, so that they can be
/// cloned on demand and enter the graph like any other value.
///
/// For each main argument that some arc takes, the wrapper text (from `template`)
/// is appended to the returned code, and an operator with id `first_id` plus the
/// argument's number is created; unused arguments are not wrapped.
pub fn generate_mainarg_wrappers(first_id: i32, ohuadata: &OhuaData, mainarg_types: &Vec<String>, template: &str) -> (r: (Vec<Operator>, String))
    requires
        ohuadata.mainArity <= mainarg_types@.len(),
        forall|k: i32| 0 <= k < ohuadata.mainArity && env_uses(ohuadata.graph.arcs@, k) > 0
            ==> first_id + k <= i32::MAX,
    ensures
        r.1@ == mainarg_code(template@, mainarg_types.deep_view(), ohuadata.graph.arcs@, ohuadata.mainArity as int),
        r.0@.len() == used_mainargs(ohuadata.graph.arcs@, ohuadata.mainArity as int).len(),
        forall|j: int| 0 <= j < r.0@.len() ==> is_mainarg_operator(
            #[trigger] r.0@[j], first_id, used_mainargs(ohuadata.graph.arcs@, ohuadata.mainArity as int)[j]),
{
    mainarg_wrappers_of(first_id, ohuadata.mainArity, &ohuadata.graph.arcs, mainarg_types, template)
}

} // verus!
