//! The module file of the generated runtime: the entry function with the
//! algorithm's signature, which hands its arguments to the runtime.
use vstd::prelude::*;
use crate::legacy::types::AlgorithmArguments;
use crate::template::{replaced, replace_str};
use crate::text::{nat_decimal, usize_to_string};

verus! {

/// The parameters of the entry function: `arg{i}: {type}, ` for each argument type.
pub open spec fn header_args(types: Seq<Seq<char>>) -> Seq<char>
    decreases types.len(),
{
    if types.len() == 0 {
        Seq::empty()
    } else {
        header_args(types.drop_last()) + "arg"@ + nat_decimal((types.len() - 1) as nat) + ": "@ + types.last() + ", "@
    }
}

/// The hand-over of each of `n` arguments: the snippet with `{n}` the argument's number.
pub open spec fn input_sends(snippet: Seq<char>, n: nat) -> Seq<char>
    decreases n,
{
    if n == 0 {
        Seq::empty()
    } else {
        input_sends(snippet, (n - 1) as nat) + replaced(snippet, "{n}"@, nat_decimal((n - 1) as nat))
    }
}

/// The module file: `mod_file` with `{input_args}` the parameters, `{return_type}`
/// the algorithm's result type and `{send_input}` the hand-overs, in this order.
pub open spec fn spec_modfile(mod_file: Seq<char>, input_send: Seq<char>, types: Seq<Seq<char>>, ret: Seq<char>) -> Seq<char> {
    replaced(
        replaced(replaced(mod_file, "{input_args}"@, header_args(types)), "{return_type}"@, ret),
        "{send_input}"@,
        input_sends(input_send, types.len()),
    )
}

/// Generates the module file of the runtime from its template `mod_file` and the
/// snippet `input_send` that hands one argument to the runtime.
pub fn generate_modfile(mainarg_types: &AlgorithmArguments, mod_file: &str, input_send: &str) -> (r: String)
    ensures
        r@ == spec_modfile(mod_file@, input_send@, mainarg_types.argument_types.deep_view(), mainarg_types.return_type@),
{
    let ghost tv = mainarg_types.argument_types.deep_view();
    let n = mainarg_types.argument_types.len();
    let mut function_arguments = String::new();
    let mut inputs = String::new();
    let mut ind: usize = 0;
    assert(tv.subrange(0, 0) =~= Seq::<Seq<char>>::empty());
    while ind < n
        invariant
            ind <= n,
            n == tv.len(),
            tv == mainarg_types.argument_types.deep_view(),
            function_arguments@ == header_args(tv.subrange(0, ind as int)),
            inputs@ == input_sends(input_send@, ind as nat),
        decreases n - ind,
    {
        proof { reveal_strlit("{n}"); }
        let d = usize_to_string(ind);
        function_arguments.append("arg");
        function_arguments.append(d.as_str());
        function_arguments.append(": ");
        function_arguments.append(mainarg_types.argument_types[ind].as_str());
        function_arguments.append(", ");
        let send = replace_str(input_send, "{n}", d.as_str());
        inputs.append(send.as_str());
        let ghost next = tv.subrange(0, (ind + 1) as int);
        assert(next.drop_last() =~= tv.subrange(0, ind as int));
        assert(next.last() == mainarg_types.argument_types@[ind as int]@);
        assert(function_arguments@ =~= header_args(next));
        ind = ind + 1;
    }
    assert(tv.subrange(0, n as int) =~= tv);
    proof {
        reveal_strlit("{input_args}");
        reveal_strlit("{return_type}");
        reveal_strlit("{send_input}");
    }
    let module = replace_str(mod_file, "{input_args}", function_arguments.as_str());
    let module = replace_str(module.as_str(), "{return_type}", mainarg_types.return_type.as_str());
    replace_str(module.as_str(), "{send_input}", inputs.as_str())
}

} // verus!
