//! The `recur_n` operator: the loop of a tail-recursive function with `n`
//! arguments.
use vstd::prelude::*;
use crate::codegen::lang::{indexed, indexed_name, item_list, items, push_all, TemplateItem};
use crate::seqs::{join_sep, lemma_occurs_in_join_sep, lemma_occurs_in_sum, occurs_in};
use crate::text::nat_decimal;
use crate::text::Tokens;

verus! {

/// `recur_{len}`
pub open spec fn recur_fun_name(len: nat) -> Seq<char> {
    indexed("recur_"@, len as int)
}

/// The name of the `recur` operator for `len` arguments.
pub fn generate_fun_name(len: usize) -> (s: String)
    ensures
        s@ == recur_fun_name(len as nat),
{
    indexed_name("recur_", len)
}

/// The `recur` operator for `len` arguments: it starts the loop with the initial
/// arguments, runs another round with the next arguments while the condition
/// holds, discarding the intermediate results, and then hands the last result on.
pub open spec fn recur_operator(len: nat) -> Seq<Seq<char>> {
    seq!["fn"@, recur_fun_name(len), "<"@] + join_sep(items(TemplateItem::SendParam, len), ","@)
        + seq![","@, "R"@, ":"@, "Send"@, ">"@, "("@,
            "condition"@, ":"@, "&"@, "Receiver"@, "<"@, "bool"@, ">"@, ","@,
            "result_arc"@, ":"@, "&"@, "Receiver"@, "<"@, "R"@, ">"@, ","@]
        + join_sep(items(TemplateItem::InitParam, len), ","@) + seq![","@]
        + join_sep(items(TemplateItem::LoopInParam, len), ","@)
        + seq![","@, "ctrl_arc"@, ":"@, "&"@, "dyn"@, "ArcInput"@, "<"@, "("@, "bool"@, ","@, "isize"@,
            ")"@, ">"@, ","@]
        + join_sep(items(TemplateItem::LoopOutParam, len), ","@)
        + seq![","@, "finish_arc"@, ":"@, "&"@, "dyn"@, "ArcInput"@, "<"@, "R"@, ">"@, ","@, ")"@,
            "->"@, "Result"@, "<"@, "("@, ")"@, ","@, "RunError"@, ">"@, "{"@,
            "ctrl_arc"@, "."@, "dispatch"@, "("@, "("@, "true"@, ","@, "1"@, ")"@, ")"@, ";"@]
        + join_sep(items(TemplateItem::ForwardInit, len), ";"@)
        + seq![";"@, "while"@, "("@, "condition"@, "."@, "recv"@, "("@, ")"@, "?"@, ")"@, "{"@,
            "let"@, "_"@, "="@, "result_arc"@, "."@, "recv"@, "("@, ")"@, "?"@, ";"@,
            "ctrl_arc"@, "."@, "dispatch"@, "("@, "("@, "true"@, ","@, "1"@, ")"@, ")"@, ";"@]
        + join_sep(items(TemplateItem::ForwardLoop, len), ";"@)
        + seq![";"@, "}"@, "ctrl_arc"@, "."@, "dispatch"@, "("@, "("@, "false"@, ","@, "0"@, ")"@, ")"@, ";"@,
            "finish_arc"@, "."@, "dispatch"@, "("@, "result_arc"@, "."@, "recv"@, "("@, ")"@, "?"@, ")"@, ";"@,
            "Ok"@, "("@, "("@, ")"@, ")"@, "}"@]
}

/// The `recur` operator up to its first forwarding of the arguments.
pub open spec fn recur_head(len: nat) -> Seq<Seq<char>> {
    seq!["fn"@, recur_fun_name(len), "<"@] + join_sep(items(TemplateItem::SendParam, len), ","@)
        + seq![","@, "R"@, ":"@, "Send"@, ">"@, "("@,
            "condition"@, ":"@, "&"@, "Receiver"@, "<"@, "bool"@, ">"@, ","@,
            "result_arc"@, ":"@, "&"@, "Receiver"@, "<"@, "R"@, ">"@, ","@]
        + join_sep(items(TemplateItem::InitParam, len), ","@) + seq![","@]
        + join_sep(items(TemplateItem::LoopInParam, len), ","@)
        + seq![","@, "ctrl_arc"@, ":"@, "&"@, "dyn"@, "ArcInput"@, "<"@, "("@, "bool"@, ","@, "isize"@,
            ")"@, ">"@, ","@]
        + join_sep(items(TemplateItem::LoopOutParam, len), ","@)
        + seq![","@, "finish_arc"@, ":"@, "&"@, "dyn"@, "ArcInput"@, "<"@, "R"@, ">"@, ","@, ")"@,
            "->"@, "Result"@, "<"@, "("@, ")"@, ","@, "RunError"@, ">"@, "{"@,
            "ctrl_arc"@, "."@, "dispatch"@, "("@, "("@, "true"@, ","@, "1"@, ")"@, ")"@, ";"@]
}

/// The `recur` operator after the forwarding in its loop.
pub open spec fn recur_tail() -> Seq<Seq<char>> {
    seq![";"@, "}"@, "ctrl_arc"@, "."@, "dispatch"@, "("@, "("@, "false"@, ","@, "0"@, ")"@, ")"@, ";"@,
        "finish_arc"@, "."@, "dispatch"@, "("@, "result_arc"@, "."@, "recv"@, "("@, ")"@, "?"@, ")"@, ";"@,
        "Ok"@, "("@, "("@, ")"@, ")"@, "}"@]
}

/// The `recur` operator split where its `while` loop opens: the part up to
/// `while ( condition . recv ( ) ? ) { let`, and the rest.
pub open spec fn recur_loop_split(len: nat) -> (Seq<Seq<char>>, Seq<Seq<char>>) {
    (
        recur_head(len) + join_sep(items(TemplateItem::ForwardInit, len), ";"@)
            + seq![";"@, "while"@, "("@, "condition"@, "."@, "recv"@, "("@, ")"@, "?"@, ")"@, "{"@, "let"@],
        seq!["_"@, "="@, "result_arc"@, "."@, "recv"@, "("@, ")"@, "?"@, ";"@,
            "ctrl_arc"@, "."@, "dispatch"@, "("@, "("@, "true"@, ","@, "1"@, ")"@, ")"@, ";"@]
            + join_sep(items(TemplateItem::ForwardLoop, len), ";"@) + recur_tail(),
    )
}

/// The two parts of `recur_loop_split` make up the operator, and the first ends
/// where the `while` loop opens.
proof fn lemma_recur_loop_split(len: nat)
    ensures
        recur_operator(len) == recur_loop_split(len).0 + recur_loop_split(len).1,
        recur_loop_split(len).0.subrange(recur_loop_split(len).0.len() - 11, recur_loop_split(len).0.len() as int)
            == seq!["while"@, "("@, "condition"@, "."@, "recv"@, "("@, ")"@, "?"@, ")"@, "{"@, "let"@],
{
    let pre = recur_head(len);
    let init = join_sep(items(TemplateItem::ForwardInit, len), ";"@);
    let fwd = join_sep(items(TemplateItem::ForwardLoop, len), ";"@);
    let mid = seq![";"@, "while"@, "("@, "condition"@, "."@, "recv"@, "("@, ")"@, "?"@, ")"@, "{"@, "let"@];
    let rest = seq!["_"@, "="@, "result_arc"@, "."@, "recv"@, "("@, ")"@, "?"@, ";"@,
            "ctrl_arc"@, "."@, "dispatch"@, "("@, "("@, "true"@, ","@, "1"@, ")"@, ")"@, ";"@];
    let lit = seq![";"@, "while"@, "("@, "condition"@, "."@, "recv"@, "("@, ")"@, "?"@, ")"@, "{"@,
            "let"@, "_"@, "="@, "result_arc"@, "."@, "recv"@, "("@, ")"@, "?"@, ";"@,
            "ctrl_arc"@, "."@, "dispatch"@, "("@, "("@, "true"@, ","@, "1"@, ")"@, ")"@, ";"@];
    let tail = recur_tail();
    assert(lit =~= mid + rest);
    assert(recur_operator(len) == pre + init + lit + fwd + tail);
    let x = pre + init;
    assert(x + (mid + rest) + fwd + tail =~= (x + mid) + (rest + fwd + tail));
    let head = x + mid;
    assert(head.subrange(head.len() - 11, head.len() as int) =~= mid.subrange(1, 12));
}

/// The `recur` operator for `len` arguments hands every argument on to the loop:
/// `init_i` before the first round, and, after the `while` loop that runs while
/// the condition holds has opened, `loop_in_i` for the next round; both to
/// `loop_out_i`.
pub proof fn lemma_recur_forwards_every_argument(len: nat, i: nat)
    requires
        i < len,
    ensures
        occurs_in(recur_operator(len), seq!["loop_out_"@ + nat_decimal(i), "."@, "dispatch"@, "("@,
            "init_"@ + nat_decimal(i), "."@, "recv"@, "("@, ")"@, "?"@, ")"@]),
        recur_operator(len) == recur_loop_split(len).0 + recur_loop_split(len).1,
        recur_loop_split(len).0.subrange(recur_loop_split(len).0.len() - 11, recur_loop_split(len).0.len() as int)
            == seq!["while"@, "("@, "condition"@, "."@, "recv"@, "("@, ")"@, "?"@, ")"@, "{"@, "let"@],
        occurs_in(recur_loop_split(len).1, seq!["loop_out_"@ + nat_decimal(i), "."@, "dispatch"@, "("@,
            "loop_in_"@ + nat_decimal(i), "."@, "recv"@, "("@, ")"@, "?"@, ")"@]),
{
    lemma_recur_loop_split(len);
    let init = join_sep(items(TemplateItem::ForwardInit, len), ";"@);
    let fwd = join_sep(items(TemplateItem::ForwardLoop, len), ";"@);
    lemma_occurs_in_join_sep(items(TemplateItem::ForwardInit, len), ";"@, i as int);
    lemma_occurs_in_join_sep(items(TemplateItem::ForwardLoop, len), ";"@, i as int);
    let fi = items(TemplateItem::ForwardInit, len)[i as int];
    let fl = items(TemplateItem::ForwardLoop, len)[i as int];
    assert(fi == seq!["loop_out_"@ + nat_decimal(i), "."@, "dispatch"@, "("@,
        "init_"@ + nat_decimal(i), "."@, "recv"@, "("@, ")"@, "?"@, ")"@]);
    assert(fl == seq!["loop_out_"@ + nat_decimal(i), "."@, "dispatch"@, "("@,
        "loop_in_"@ + nat_decimal(i), "."@, "recv"@, "("@, ")"@, "?"@, ")"@]);
    let head = recur_loop_split(len).0;
    let body = recur_loop_split(len).1;
    let pre = recur_head(len);
    let mid = seq![";"@, "while"@, "("@, "condition"@, "."@, "recv"@, "("@, ")"@, "?"@, ")"@, "{"@, "let"@];
    let rest = seq!["_"@, "="@, "result_arc"@, "."@, "recv"@, "("@, ")"@, "?"@, ";"@,
            "ctrl_arc"@, "."@, "dispatch"@, "("@, "("@, "true"@, ","@, "1"@, ")"@, ")"@, ";"@];
    lemma_occurs_in_sum(pre, init, fi);
    lemma_occurs_in_sum(pre + init, mid, fi);
    lemma_occurs_in_sum(head, body, fi);
    lemma_occurs_in_sum(rest, fwd, fl);
    lemma_occurs_in_sum(rest + fwd, recur_tail(), fl);
}

/// Generates the `recur` operator for `len` arguments.
pub fn generate(len: usize) -> (t: Tokens)
    ensures
        t@ == recur_operator(len as nat),
{
    let mut t = Tokens::new();
    t.push("fn");
    t.push_string(generate_fun_name(len));
    t.push("<");
    t.extend_joined(&item_list(TemplateItem::SendParam, len), ",");
    push_all(&mut t, &[",", "R", ":", "Send", ">", "(",
        "condition", ":", "&", "Receiver", "<", "bool", ">", ",",
        "result_arc", ":", "&", "Receiver", "<", "R", ">", ","]);
    t.extend_joined(&item_list(TemplateItem::InitParam, len), ",");
    t.push(",");
    t.extend_joined(&item_list(TemplateItem::LoopInParam, len), ",");
    push_all(&mut t, &[",", "ctrl_arc", ":", "&", "dyn", "ArcInput", "<", "(", "bool", ",", "isize",
        ")", ">", ","]);
    t.extend_joined(&item_list(TemplateItem::LoopOutParam, len), ",");
    push_all(&mut t, &[",", "finish_arc", ":", "&", "dyn", "ArcInput", "<", "R", ">", ",", ")",
        "->", "Result", "<", "(", ")", ",", "RunError", ">", "{",
        "ctrl_arc", ".", "dispatch", "(", "(", "true", ",", "1", ")", ")", ";"]);
    t.extend_joined(&item_list(TemplateItem::ForwardInit, len), ";");
    push_all(&mut t, &[";", "while", "(", "condition", ".", "recv", "(", ")", "?", ")", "{",
        "let", "_", "=", "result_arc", ".", "recv", "(", ")", "?", ";",
        "ctrl_arc", ".", "dispatch", "(", "(", "true", ",", "1", ")", ")", ";"]);
    t.extend_joined(&item_list(TemplateItem::ForwardLoop, len), ";");
    push_all(&mut t, &[";", "}", "ctrl_arc", ".", "dispatch", "(", "(", "false", ",", "0", ")", ")", ";",
        "finish_arc", ".", "dispatch", "(", "result_arc", ".", "recv", "(", ")", "?", ")", ";",
        "Ok", "(", "(", ")", ")", "}"]);
    assert(t@ =~= recur_operator(len as nat));
    t
}

} // verus!
