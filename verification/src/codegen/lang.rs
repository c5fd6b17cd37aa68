//! The operators that are generated per arity: `ctrl_n`, `nth_op..` and
//! `recur_n`.
//!
//! The `ctrl` operator has to keep values of arbitrary types across iterations,
//! and an operator that is polymorphic in the data of the graph cannot define a
//! state that holds such data; it is therefore generated per number of
//! variables, with the values held in a tuple in its loop.
use vstd::prelude::*;
use crate::seqs::{concat, join_sep, lemma_occurs_in_concat, lemma_occurs_in_sum, occurs_in};
use crate::text::{i32_to_string, int_decimal, nat_decimal, usize_to_string, Tokens};

pub mod generate_recur;

verus! {

/// `prefix` followed by the decimal digits of `i`.
pub open spec fn indexed(prefix: Seq<char>, i: int) -> Seq<char> {
    prefix + nat_decimal(i as nat)
}

/// A repeated piece of a generated operator, for the variable with index `i`.
#[derive(PartialEq, Eq, Structural, Clone, Copy)]
pub enum TemplateItem {
    /// `Ti : Clone + Send`
    CloneSendParam,
    /// `var_in_i : & Receiver < Ti >`
    VarInParam,
    /// `var_out_i : & dyn ArcInput < Ti >`
    VarOutParam,
    /// `var_in_i . recv ( ) ? ,`
    RecvVarIn,
    /// `var_i ,`
    VarComma,
    /// `var_out_i . dispatch ( var_i . clone ( ) ) ? ;`
    DispatchClone,
    /// `Ti`
    TypeVar,
    /// `var_i`
    Var,
    /// `Ti : Send`
    SendParam,
    /// `init_i : & Receiver < Ti >`
    InitParam,
    /// `loop_in_i : & Receiver < Ti >`
    LoopInParam,
    /// `loop_out_i : & dyn ArcInput < Ti >`
    LoopOutParam,
    /// `loop_out_i . dispatch ( init_i . recv ( ) ? )`
    ForwardInit,
    /// `loop_out_i . dispatch ( loop_in_i . recv ( ) ? )`
    ForwardLoop,
}

/// The tokens of a repeated piece for index `i`.
pub open spec fn item(kind: TemplateItem, i: int) -> Seq<Seq<char>> {
    let t = indexed("T"@, i);
    match kind {
        TemplateItem::CloneSendParam => seq![t, ":"@, "Clone"@, "+"@, "Send"@],
        TemplateItem::VarInParam => seq![indexed("var_in_"@, i), ":"@, "&"@, "Receiver"@, "<"@, t, ">"@],
        TemplateItem::VarOutParam => seq![indexed("var_out_"@, i), ":"@, "&"@, "dyn"@, "ArcInput"@, "<"@, t, ">"@],
        TemplateItem::RecvVarIn => seq![indexed("var_in_"@, i), "."@, "recv"@, "("@, ")"@, "?"@, ","@],
        TemplateItem::VarComma => seq![indexed("var_"@, i), ","@],
        TemplateItem::DispatchClone => seq![indexed("var_out_"@, i), "."@, "dispatch"@, "("@,
            indexed("var_"@, i), "."@, "clone"@, "("@, ")"@, ")"@, "?"@, ";"@],
        TemplateItem::TypeVar => seq![t],
        TemplateItem::Var => seq![indexed("var_"@, i)],
        TemplateItem::SendParam => seq![t, ":"@, "Send"@],
        TemplateItem::InitParam => seq![indexed("init_"@, i), ":"@, "&"@, "Receiver"@, "<"@, t, ">"@],
        TemplateItem::LoopInParam => seq![indexed("loop_in_"@, i), ":"@, "&"@, "Receiver"@, "<"@, t, ">"@],
        TemplateItem::LoopOutParam => seq![indexed("loop_out_"@, i), ":"@, "&"@, "dyn"@, "ArcInput"@, "<"@, t, ">"@],
        TemplateItem::ForwardInit => seq![indexed("loop_out_"@, i), "."@, "dispatch"@, "("@,
            indexed("init_"@, i), "."@, "recv"@, "("@, ")"@, "?"@, ")"@],
        TemplateItem::ForwardLoop => seq![indexed("loop_out_"@, i), "."@, "dispatch"@, "("@,
            indexed("loop_in_"@, i), "."@, "recv"@, "("@, ")"@, "?"@, ")"@],
    }
}

/// The piece for each index `0 .. n`.
pub open spec fn items(kind: TemplateItem, n: nat) -> Seq<Seq<Seq<char>>> {
    Seq::new(n, |i: int| item(kind, i))
}

/// `prefix` followed by the decimal digits of `i`.
pub(crate) fn indexed_name(prefix: &str, i: usize) -> (s: String)
    ensures
        s@ == indexed(prefix@, i as int),
{
    let mut s = String::from_str(prefix);
    s.append(usize_to_string(i).as_str());
    s
}

/// The tokens of a repeated piece for index `i`.
fn item_tokens(kind: TemplateItem, i: usize) -> (t: Tokens)
    ensures
        t@ == item(kind, i as int),
{
    let mut t = Tokens::new();
    match kind {
        TemplateItem::CloneSendParam => {
            t.push_string(indexed_name("T", i)); t.push(":"); t.push("Clone"); t.push("+"); t.push("Send");
        },
        TemplateItem::VarInParam => {
            t.push_string(indexed_name("var_in_", i)); t.push(":"); t.push("&"); t.push("Receiver");
            t.push("<"); t.push_string(indexed_name("T", i)); t.push(">");
        },
        TemplateItem::VarOutParam => {
            t.push_string(indexed_name("var_out_", i)); t.push(":"); t.push("&"); t.push("dyn");
            t.push("ArcInput"); t.push("<"); t.push_string(indexed_name("T", i)); t.push(">");
        },
        TemplateItem::RecvVarIn => {
            t.push_string(indexed_name("var_in_", i)); t.push("."); t.push("recv"); t.push("(");
            t.push(")"); t.push("?"); t.push(",");
        },
        TemplateItem::VarComma => {
            t.push_string(indexed_name("var_", i)); t.push(",");
        },
        TemplateItem::DispatchClone => {
            t.push_string(indexed_name("var_out_", i)); t.push("."); t.push("dispatch"); t.push("(");
            t.push_string(indexed_name("var_", i)); t.push("."); t.push("clone"); t.push("(");
            t.push(")"); t.push(")"); t.push("?"); t.push(";");
        },
        TemplateItem::TypeVar => {
            t.push_string(indexed_name("T", i));
        },
        TemplateItem::Var => {
            t.push_string(indexed_name("var_", i));
        },
        TemplateItem::SendParam => {
            t.push_string(indexed_name("T", i)); t.push(":"); t.push("Send");
        },
        TemplateItem::InitParam => {
            t.push_string(indexed_name("init_", i)); t.push(":"); t.push("&"); t.push("Receiver");
            t.push("<"); t.push_string(indexed_name("T", i)); t.push(">");
        },
        TemplateItem::LoopInParam => {
            t.push_string(indexed_name("loop_in_", i)); t.push(":"); t.push("&"); t.push("Receiver");
            t.push("<"); t.push_string(indexed_name("T", i)); t.push(">");
        },
        TemplateItem::LoopOutParam => {
            t.push_string(indexed_name("loop_out_", i)); t.push(":"); t.push("&"); t.push("dyn");
            t.push("ArcInput"); t.push("<"); t.push_string(indexed_name("T", i)); t.push(">");
        },
        TemplateItem::ForwardInit => {
            t.push_string(indexed_name("loop_out_", i)); t.push("."); t.push("dispatch"); t.push("(");
            t.push_string(indexed_name("init_", i)); t.push("."); t.push("recv"); t.push("(");
            t.push(")"); t.push("?"); t.push(")");
        },
        TemplateItem::ForwardLoop => {
            t.push_string(indexed_name("loop_out_", i)); t.push("."); t.push("dispatch"); t.push("(");
            t.push_string(indexed_name("loop_in_", i)); t.push("."); t.push("recv"); t.push("(");
            t.push(")"); t.push("?"); t.push(")");
        },
    }
    assert(t@ =~= item(kind, i as int));
    t
}

/// The piece for each index `0 .. n`.
pub(crate) fn item_list(kind: TemplateItem, n: usize) -> (r: Vec<Tokens>)
    ensures
        r.deep_view() == items(kind, n as nat),
{
    let mut r: Vec<Tokens> = Vec::new();
    let mut i: usize = 0;
    while i < n
        invariant
            i <= n,
            r.deep_view() == items(kind, n as nat).subrange(0, i as int),
        decreases n - i,
    {
        let t = item_tokens(kind, i);
        let ghost old_dv = r.deep_view();
        r.push(t);
        assert(r.deep_view() =~= old_dv.push(item(kind, i as int)));
        assert(r.deep_view() =~= items(kind, n as nat).subrange(0, (i + 1) as int));
        i = i + 1;
    }
    assert(items(kind, n as nat).subrange(0, n as int) =~= items(kind, n as nat));
    r
}

/// Appends all token sequences of `parts`.
pub(crate) fn extend_concat(t: &mut Tokens, parts: &Vec<Tokens>)
    ensures
        final(t)@ == old(t)@ + concat(parts.deep_view()),
{
    let ghost pv = parts.deep_view();
    let n = parts.len();
    let mut i: usize = 0;
    assert(old(t)@ =~= old(t)@ + concat(pv.subrange(0, 0)));
    while i < n
        invariant
            i <= n,
            n == pv.len(),
            pv == parts.deep_view(),
            t@ == old(t)@ + concat(pv.subrange(0, i as int)),
        decreases n - i,
    {
        assert(parts@[i as int]@ == pv[i as int]);
        t.extend(&parts[i]);
        assert(pv.subrange(0, (i + 1) as int).drop_last() =~= pv.subrange(0, i as int));
        i = i + 1;
    }
    assert(pv.subrange(0, n as int) =~= pv);
}

/// Appends a list of tokens given as text.
pub(crate) fn push_all(t: &mut Tokens, toks: &[&str])
    ensures
        final(t)@ == old(t)@ + toks@.map_values(|s: &str| s@),
{
    let n = toks.len();
    let mut i: usize = 0;
    while i < n
        invariant
            i <= n,
            n == toks@.len(),
            t@ == old(t)@ + toks@.subrange(0, i as int).map_values(|s: &str| s@),
        decreases n - i,
    {
        t.push(toks[i]);
        assert(toks@.subrange(0, (i + 1) as int).map_values(|s: &str| s@)
            =~= toks@.subrange(0, i as int).map_values(|s: &str| s@).push(toks@[i as int]@));
        i = i + 1;
    }
    assert(toks@.subrange(0, n as int) =~= toks@);
}

// ---------------------------------------------------------------------------
// ctrl

/// `ctrl_n`
pub open spec fn ctrl_fun_name(n: nat) -> Seq<char> {
    indexed("ctrl_"@, n as int)
}

/// The `ctrl` operator for `n` variables: it reads the variables once, and for each
/// control signal dispatches `count` clones of them, reading fresh values first
/// when the previous signal asked to renew them.
pub open spec fn ctrl_operator(n: nat) -> Seq<Seq<char>> {
    seq!["fn"@, ctrl_fun_name(n), "<"@] + join_sep(items(TemplateItem::CloneSendParam, n), ","@)
        + seq![">"@, "("@, "ctrl_inp"@, ":"@, "&"@, "Receiver"@, "<"@, "("@, "bool"@, ","@, "isize"@, ")"@, ">"@, ","@]
        + join_sep(items(TemplateItem::VarInParam, n), ","@) + seq![","@]
        + join_sep(items(TemplateItem::VarOutParam, n), ","@)
        + seq![")"@, "->"@, "Result"@, "<"@, "("@, ")"@, ","@, "RunError"@, ">"@, "{"@,
            "let"@, "mut"@, "renew"@, "="@, "false"@, ";"@, "let"@, "mut"@, "state"@, "="@, "("@]
        + concat(items(TemplateItem::RecvVarIn, n))
        + seq![")"@, ";"@, "loop"@, "{"@, "let"@, "("@, "renew_next_time"@, ","@, "count"@, ")"@, "="@,
            "ctrl_inp"@, "."@, "recv"@, "("@, ")"@, "?"@, ";"@, "if"@, "renew"@, "{"@, "state"@, "="@, "("@]
        + concat(items(TemplateItem::RecvVarIn, n))
        + seq![")"@, ";"@, "}"@, "for"@, "_"@, "in"@, "0"@, ".."@, "count"@, "{"@, "let"@, "("@]
        + concat(items(TemplateItem::VarComma, n))
        + seq![")"@, "="@, "state"@, "."@, "clone"@, "("@, ")"@, ";"@]
        + concat(items(TemplateItem::DispatchClone, n))
        + seq!["}"@, "renew"@, "="@, "renew_next_time"@, ";"@, "}"@, "}"@, ";"@]
}

/// The `ctrl` operator for `n` variables reads every variable `var_in_i` and
/// dispatches a clone of every variable `var_i` to its output `var_out_i`.
pub proof fn lemma_ctrl_serves_every_variable(n: nat, i: nat)
    requires
        i < n,
    ensures
        occurs_in(ctrl_operator(n), seq!["var_in_"@ + nat_decimal(i), "."@, "recv"@, "("@, ")"@, "?"@, ","@]),
        occurs_in(ctrl_operator(n), seq!["var_out_"@ + nat_decimal(i), "."@, "dispatch"@, "("@,
            "var_"@ + nat_decimal(i), "."@, "clone"@, "("@, ")"@, ")"@, "?"@, ";"@]),
{
    let recv = concat(items(TemplateItem::RecvVarIn, n));
    let disp = concat(items(TemplateItem::DispatchClone, n));
    lemma_occurs_in_concat(items(TemplateItem::RecvVarIn, n), i as int);
    lemma_occurs_in_concat(items(TemplateItem::DispatchClone, n), i as int);
    let r = items(TemplateItem::RecvVarIn, n)[i as int];
    let d = items(TemplateItem::DispatchClone, n)[i as int];
    assert(r == seq!["var_in_"@ + nat_decimal(i), "."@, "recv"@, "("@, ")"@, "?"@, ","@]);
    assert(d == seq!["var_out_"@ + nat_decimal(i), "."@, "dispatch"@, "("@,
        "var_"@ + nat_decimal(i), "."@, "clone"@, "("@, ")"@, ")"@, "?"@, ";"@]);
    let p1 = seq!["fn"@, ctrl_fun_name(n), "<"@] + join_sep(items(TemplateItem::CloneSendParam, n), ","@)
        + seq![">"@, "("@, "ctrl_inp"@, ":"@, "&"@, "Receiver"@, "<"@, "("@, "bool"@, ","@, "isize"@, ")"@, ">"@, ","@]
        + join_sep(items(TemplateItem::VarInParam, n), ","@) + seq![","@]
        + join_sep(items(TemplateItem::VarOutParam, n), ","@)
        + seq![")"@, "->"@, "Result"@, "<"@, "("@, ")"@, ","@, "RunError"@, ">"@, "{"@,
            "let"@, "mut"@, "renew"@, "="@, "false"@, ";"@, "let"@, "mut"@, "state"@, "="@, "("@];
    let p2 = p1 + recv;
    let p3 = p2 + seq![")"@, ";"@, "loop"@, "{"@, "let"@, "("@, "renew_next_time"@, ","@, "count"@, ")"@, "="@,
            "ctrl_inp"@, "."@, "recv"@, "("@, ")"@, "?"@, ";"@, "if"@, "renew"@, "{"@, "state"@, "="@, "("@]
        + recv
        + seq![")"@, ";"@, "}"@, "for"@, "_"@, "in"@, "0"@, ".."@, "count"@, "{"@, "let"@, "("@]
        + concat(items(TemplateItem::VarComma, n))
        + seq![")"@, "="@, "state"@, "."@, "clone"@, "("@, ")"@, ";"@];
    let tail = seq!["}"@, "renew"@, "="@, "renew_next_time"@, ";"@, "}"@, "}"@, ";"@];
    assert(ctrl_operator(n) == p3 + disp + tail);
    lemma_occurs_in_sum(p1, recv, r);
    lemma_occurs_in_sum(p3, disp, d);
    lemma_occurs_in_sum(p3 + disp, tail, d);
    // `p3` begins with `p2`, which holds the reading of the variables
    assert(p3 == p2 + (p3.subrange(p2.len() as int, p3.len() as int)));
    lemma_occurs_in_sum(p2, p3.subrange(p2.len() as int, p3.len() as int), r);
    lemma_occurs_in_sum(p3, disp, r);
    lemma_occurs_in_sum(p3 + disp, tail, r);
}

/// Generates the `ctrl` operator for `num_args` variables.
pub fn generate_ctrl_operator(num_args: usize) -> (t: Tokens)
    requires
        num_args != 0,
    ensures
        t@ == ctrl_operator(num_args as nat),
{
    let n = num_args;
    let mut t = Tokens::new();
    t.push("fn");
    t.push_string(indexed_name("ctrl_", n));
    t.push("<");
    t.extend_joined(&item_list(TemplateItem::CloneSendParam, n), ",");
    push_all(&mut t, &[">", "(", "ctrl_inp", ":", "&", "Receiver", "<", "(", "bool", ",", "isize", ")", ">", ","]);
    t.extend_joined(&item_list(TemplateItem::VarInParam, n), ",");
    t.push(",");
    t.extend_joined(&item_list(TemplateItem::VarOutParam, n), ",");
    push_all(&mut t, &[")", "->", "Result", "<", "(", ")", ",", "RunError", ">", "{",
        "let", "mut", "renew", "=", "false", ";", "let", "mut", "state", "=", "("]);
    extend_concat(&mut t, &item_list(TemplateItem::RecvVarIn, n));
    push_all(&mut t, &[")", ";", "loop", "{", "let", "(", "renew_next_time", ",", "count", ")", "=",
        "ctrl_inp", ".", "recv", "(", ")", "?", ";", "if", "renew", "{", "state", "=", "("]);
    extend_concat(&mut t, &item_list(TemplateItem::RecvVarIn, n));
    push_all(&mut t, &[")", ";", "}", "for", "_", "in", "0", "..", "count", "{", "let", "("]);
    extend_concat(&mut t, &item_list(TemplateItem::VarComma, n));
    push_all(&mut t, &[")", "=", "state", ".", "clone", "(", ")", ";"]);
    extend_concat(&mut t, &item_list(TemplateItem::DispatchClone, n));
    push_all(&mut t, &["}", "renew", "=", "renew_next_time", ";", "}", "}", ";"]);
    assert(t@ =~= ctrl_operator(num_args as nat));
    t
}

// ---------------------------------------------------------------------------
// nth

/// The number of indices `0 .. len` of an `i32` length.
pub open spec fn count_of(len: i32) -> nat {
    if len < 0 { 0 } else { len as nat }
}

/// `nth_op{op}_{num}_{len}`
pub open spec fn nth_fun_name(op: i32, num: i32, len: i32) -> Seq<char> {
    "nth_op"@ + int_decimal(op as int) + "_"@ + int_decimal(num as int) + "_"@ + int_decimal(len as int)
}

/// The operator that takes element `num` out of a tuple of `len` elements.
pub open spec fn nth_operator(op: i32, num: i32, len: i32) -> Seq<Seq<char>> {
    let n = count_of(len);
    seq!["fn"@, nth_fun_name(op, num, len), "<"@] + join_sep(items(TemplateItem::TypeVar, n), ","@)
        + seq![">"@, "("@, "t"@, ":"@, "("@] + join_sep(items(TemplateItem::TypeVar, n), ","@)
        + seq![")"@, ")"@, "->"@, "T"@ + int_decimal(num as int), "{"@, "let"@, "("@]
        + join_sep(items(TemplateItem::Var, n), ","@)
        + seq![")"@, "="@, "t"@, ";"@, "var_"@ + int_decimal(num as int), "}"@, ";"@]
}

/// Generates the operator that takes element `num` out of a tuple of `len` elements.
pub fn generate_nth(op: &i32, num: &i32, len: &i32) -> (t: Tokens)
    ensures
        t@ == nth_operator(*op, *num, *len),
{
    let n: usize = if *len < 0 { 0 } else { *len as usize };
    let mut name = String::from_str("nth_op");
    name.append(i32_to_string(*op).as_str());
    name.append("_");
    name.append(i32_to_string(*num).as_str());
    name.append("_");
    name.append(i32_to_string(*len).as_str());
    let mut type_var = String::from_str("T");
    type_var.append(i32_to_string(*num).as_str());
    let mut var = String::from_str("var_");
    var.append(i32_to_string(*num).as_str());
    let mut t = Tokens::new();
    t.push("fn");
    t.push_string(name);
    t.push("<");
    t.extend_joined(&item_list(TemplateItem::TypeVar, n), ",");
    push_all(&mut t, &[">", "(", "t", ":", "("]);
    t.extend_joined(&item_list(TemplateItem::TypeVar, n), ",");
    push_all(&mut t, &[")", ")", "->"]);
    t.push_string(type_var);
    push_all(&mut t, &["{", "let", "("]);
    t.extend_joined(&item_list(TemplateItem::Var, n), ",");
    push_all(&mut t, &[")", "=", "t", ";"]);
    t.push_string(var);
    push_all(&mut t, &["}", ";"]);
    assert(t@ =~= nth_operator(*op, *num, *len));
    t
}

} // verus!
