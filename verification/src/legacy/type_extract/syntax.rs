//! The syntax trees that `syn` parses, read into the library's own items.
//!
//! Each function here that is marked `external_body` reads one kind of `syn`
//! node into the corresponding type of the library, variant by variant. Nothing
//! is claimed of what they return: the printed tokens of a type depend on the
//! token printer that proc-macro2 picks at run time, and so may the lexer, so the
//! result is not a function of the module's text alone.
use vstd::prelude::*;
use syn::{FnArg as SynFnArg, Item as SynItem, Type as SynType, UseTree as SynUseTree};
use crate::legacy::type_extract::parser::{FnArg, FnSig, ImplBlock, Item, SourceFile, TypeExpr, TypedArg, UseTree};

verus! {

/// `syn::Item`, an item of a parsed module.
#[verifier::external_type_specification]
#[verifier::external_body]
pub struct ExSynItem(SynItem);

/// `syn::ImplItem`, a member of an `impl` block.
#[verifier::external_type_specification]
#[verifier::external_body]
pub struct ExSynImplItem(syn::ImplItem);

/// `syn::UseTree`, the tree of a `use` item.
#[verifier::external_type_specification]
#[verifier::external_body]
pub struct ExSynUseTree(SynUseTree);

/// `syn::Signature`, the signature of a function.
#[verifier::external_type_specification]
#[verifier::external_body]
pub struct ExSynSignature(syn::Signature);

/// `syn::FnArg`, an argument of a function.
#[verifier::external_type_specification]
#[verifier::external_body]
pub struct ExSynFnArg(SynFnArg);

/// `syn::Type`, a type.
#[verifier::external_type_specification]
#[verifier::external_body]
pub struct ExSynType(SynType);

/// `syn::ReturnType`, the result of a signature.
#[verifier::external_type_specification]
#[verifier::external_body]
pub struct ExSynReturnType(syn::ReturnType);

/// An item as it is read from the tree: an `impl` block keeps all its members,
/// with `None` for those that are no functions.
pub enum RawItem {
    Item(Item),
    Impl(TypeExpr, Vec<Option<FnSig>>),
}

/// `syn::parse_file`: parses the text of a module; its items are read by `item_of`.
#[verifier::external_body]
fn parse_items(text: &str) -> Result<Vec<RawItem>, syn::Error> {
    match syn::parse_file(text) {
        Ok(f) => Ok(f.items.iter().map(item_of).collect()),
        Err(e) => Err(e),
    }
}

/// Reads a `syn::Item`: uses, functions, `impl` blocks and type aliases here,
/// the rest in `named_item_of`.
#[verifier::external_body]
fn item_of(it: &syn::Item) -> RawItem {
    match it {
        syn::Item::Use(u) => RawItem::Item(Item::Use(use_tree_of(&u.tree))),
        syn::Item::Fn(f) => RawItem::Item(Item::Fn(signature_of(&f.sig))),
        syn::Item::Impl(i) => RawItem::Impl(type_expr_of(&i.self_ty), i.items.iter().map(member_of).collect()),
        syn::Item::Type(t) => RawItem::Item(Item::Type(t.ident.to_string())),
        other => RawItem::Item(named_item_of(other)),
    }
}

/// Reads the `syn::Item`s that `item_of` leaves: structs, enums, unions,
/// traits, modules and foreign modules; anything else is `Other`.
#[verifier::external_body]
fn named_item_of(it: &syn::Item) -> Item {
    match it {
        syn::Item::Struct(s) => Item::Struct(s.ident.to_string()),
        syn::Item::Enum(e) => Item::Enum(e.ident.to_string()),
        syn::Item::Union(u) => Item::Union(u.ident.to_string()),
        syn::Item::Trait(_) => Item::Trait,
        syn::Item::Mod(_) => Item::Mod,
        syn::Item::ForeignMod(_) => Item::ForeignMod,
        _ => Item::Other,
    }
}

/// Reads a member of an `impl` block: the signature of a function, else `None`.
#[verifier::external_body]
fn member_of(m: &syn::ImplItem) -> Option<FnSig> {
    match m {
        syn::ImplItem::Fn(f) => Some(signature_of(&f.sig)),
        _ => None,
    }
}

/// Reads a `syn::UseTree`.
#[verifier::external_body]
fn use_tree_of(t: &syn::UseTree) -> UseTree {
    match t {
        syn::UseTree::Path(p) => UseTree::Path(p.ident.to_string(), Box::new(use_tree_of(&p.tree))),
        syn::UseTree::Name(n) => UseTree::Name(n.ident.to_string()),
        syn::UseTree::Rename(r) => UseTree::Rename(r.ident.to_string(), r.rename.to_string()),
        syn::UseTree::Glob(_) => UseTree::Glob,
        syn::UseTree::Group(g) => UseTree::Group(g.items.iter().map(use_tree_of).collect()),
    }
}

/// Reads a `syn::Signature`: its name, its arguments and its result.
#[verifier::external_body]
fn signature_of(sig: &syn::Signature) -> FnSig {
    FnSig {
        ident: sig.ident.to_string(),
        inputs: sig.inputs.iter().map(fn_arg_of).collect(),
        output: match &sig.output {
            syn::ReturnType::Default => None,
            syn::ReturnType::Type(_, t) => Some(typed_arg_of(t)),
        },
    }
}

/// Reads a `syn::FnArg`: a typed argument, or a receiver.
#[verifier::external_body]
fn fn_arg_of(a: &syn::FnArg) -> FnArg {
    match a {
        syn::FnArg::Typed(p) => FnArg::Typed(typed_arg_of(&p.ty)),
        syn::FnArg::Receiver(_) => FnArg::Receiver,
    }
}

/// Reads a `syn::Type` with its tokens, printed by `quote::ToTokens::to_token_stream`.
#[verifier::external_body]
fn typed_arg_of(ty: &syn::Type) -> TypedArg {
    TypedArg { ty: type_expr_of(ty), tokens: quote::ToTokens::to_token_stream(ty).to_string() }
}

/// Reads a `syn::Type`: the types that wrap one other type here, the rest in
/// `compound_type_of`.
#[verifier::external_body]
fn type_expr_of(t: &syn::Type) -> TypeExpr {
    match t {
        syn::Type::Slice(s) => TypeExpr::Slice(Box::new(type_expr_of(&s.elem))),
        syn::Type::Array(a) => TypeExpr::Array(Box::new(type_expr_of(&a.elem))),
        syn::Type::Ptr(p) => TypeExpr::Ptr(Box::new(type_expr_of(&p.elem))),
        syn::Type::Reference(r) => TypeExpr::Reference(Box::new(type_expr_of(&r.elem))),
        syn::Type::Paren(p) => TypeExpr::Paren(Box::new(type_expr_of(&p.elem))),
        syn::Type::Group(g) => TypeExpr::Group(Box::new(type_expr_of(&g.elem))),
        other => compound_type_of(other),
    }
}

/// Reads function pointers, tuples and paths; the rest in `marker_type_of`.
#[verifier::external_body]
fn compound_type_of(t: &syn::Type) -> TypeExpr {
    match t {
        syn::Type::BareFn(f) => TypeExpr::BareFn(f.inputs.iter().map(|a| type_expr_of(&a.ty)).collect(), result_type_of(&f.output)),
        syn::Type::Tuple(t) => TypeExpr::Tuple(t.elems.iter().map(type_expr_of).collect()),
        syn::Type::Path(p) => TypeExpr::Path(p.path.segments.iter().map(|s| s.ident.to_string()).collect()),
        other => marker_type_of(other),
    }
}

/// Reads the result of a function pointer type: `None` for none written.
#[verifier::external_body]
fn result_type_of(r: &syn::ReturnType) -> Option<Box<TypeExpr>> {
    match r {
        syn::ReturnType::Default => None,
        syn::ReturnType::Type(_, t) => Some(Box::new(type_expr_of(t))),
    }
}

/// Reads the types whose shape alone matters: never, trait objects, `impl`
/// traits, placeholders and macros; anything else is `Verbatim`.
#[verifier::external_body]
fn marker_type_of(t: &syn::Type) -> TypeExpr {
    match t {
        syn::Type::Never(_) => TypeExpr::Never,
        syn::Type::TraitObject(_) => TypeExpr::TraitObject,
        syn::Type::ImplTrait(_) => TypeExpr::ImplTrait,
        syn::Type::Infer(_) => TypeExpr::Infer,
        syn::Type::Macro(_) => TypeExpr::Macro,
        _ => TypeExpr::Verbatim,
    }
}

/// The signatures among the members of an `impl` block, in order.
pub open spec fn fn_members(ms: Seq<Option<FnSig>>) -> Seq<FnSig>
    decreases ms.len(),
{
    if ms.len() == 0 {
        Seq::empty()
    } else {
        let pre = fn_members(ms.drop_last());
        match ms.last() {
            Some(f) => pre.push(f),
            None => pre,
        }
    }
}

/// Keeps the signatures among the members of an `impl` block, in order.
pub fn methods_of(members: Vec<Option<FnSig>>) -> (r: Vec<FnSig>)
    ensures
        r@ == fn_members(members@),
{
    let ghost m0 = members@;
    let n = members.len();
    let mut rest = members;
    let mut out: Vec<FnSig> = Vec::new();
    let mut i: usize = 0;
    while i < n
        invariant
            i <= n,
            n == m0.len(),
            rest@ == m0.subrange(i as int, n as int),
            out@ == fn_members(m0.subrange(0, i as int)),
        decreases n - i,
    {
        let m = rest.remove(0);
        assert(m0.subrange(0, (i + 1) as int).drop_last() =~= m0.subrange(0, i as int));
        assert(m == m0[i as int]);
        match m {
            Some(f) => out.push(f),
            None => {},
        }
        assert(rest@ =~= m0.subrange((i + 1) as int, n as int));
        i = i + 1;
    }
    assert(m0.subrange(0, n as int) =~= m0);
    out
}

/// `it` is what the raw item stands for: the item itself, or for an `impl`
/// block the block with the signatures of its functions only.
pub open spec fn read_as(r: RawItem, it: Item) -> bool {
    match r {
        RawItem::Item(i) => it == i,
        RawItem::Impl(t, ms) => it matches Item::Impl(b) && b.self_ty == t && b.methods@ == fn_members(ms@),
    }
}

/// The item a raw item stands for.
pub fn item_from(r: RawItem) -> (it: Item)
    ensures
        read_as(r, it),
{
    match r {
        RawItem::Item(i) => i,
        RawItem::Impl(t, ms) => Item::Impl(ImplBlock { self_ty: t, methods: methods_of(ms) }),
    }
}

/// Parses the text of a module (`syn::parse_file`) into its items (`item_from`
/// of each raw item that the tree was read into); the error is the parser's.
/// Nothing is claimed of the result (see the module's documentation).
pub fn parse_module(text: &str) -> Result<SourceFile, syn::Error> {
    let raw = match parse_items(text) {
        Ok(v) => v,
        Err(e) => {
            return Err(e);
        },
    };
    let ghost r0 = raw@;
    let n = raw.len();
    let mut rest = raw;
    let mut items: Vec<Item> = Vec::new();
    let mut i: usize = 0;
    while i < n
        invariant
            i <= n,
            n == r0.len(),
            rest@ == r0.subrange(i as int, n as int),
            items@.len() == i,
        decreases n - i,
    {
        let r = rest.remove(0);
        items.push(item_from(r));
        assert(rest@ =~= r0.subrange((i + 1) as int, n as int));
        i = i + 1;
    }
    Ok(SourceFile { items })
}

} // verus!
