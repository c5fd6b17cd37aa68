//! The type information of the functions of a module, read from its syntax tree:
//! the names and import paths of the types of their arguments and results.
use vstd::prelude::*;
use crate::text::{push_char, string_is};
use crate::template::{replaced, replace_str};
use crate::legacy::types::SfDependency;
use crate::legacy::errors::TypeExtractionError;
use crate::legacy::wrapper_code::{join_path, joined_path};

verus! {

/// A Rust type as the analysis sees it: the shape of the type, and for a path
/// type its segments.
pub enum TypeExpr {
    Slice(Box<TypeExpr>),
    Array(Box<TypeExpr>),
    Ptr(Box<TypeExpr>),
    Reference(Box<TypeExpr>),
    /// A function pointer: its argument types and, unless it returns `()`, its result type.
    BareFn(Vec<TypeExpr>, Option<Box<TypeExpr>>),
    Never,
    Tuple(Vec<TypeExpr>),
    /// A path type, by the identifiers of its segments.
    Path(Vec<String>),
    TraitObject,
    ImplTrait,
    Paren(Box<TypeExpr>),
    Group(Box<TypeExpr>),
    Infer,
    Macro,
    Verbatim,
}

/// The bare (single-segment) type names that occur in `t`.
pub open spec fn spec_bare_type_names(t: TypeExpr) -> Set<Seq<char>>
    decreases t,
{
    match t {
        TypeExpr::Slice(e) => spec_bare_type_names(*e),
        TypeExpr::Array(e) => spec_bare_type_names(*e),
        TypeExpr::Ptr(e) => spec_bare_type_names(*e),
        TypeExpr::Reference(e) => spec_bare_type_names(*e),
        TypeExpr::BareFn(ins, out) => {
            let o = match out {
                Some(r) => spec_bare_type_names(*r),
                None => Set::empty(),
            };
            list_bare_type_names(ins@) + o
        },
        TypeExpr::Tuple(es) => list_bare_type_names(es@),
        TypeExpr::Path(segs) => if segs@.len() == 1 { set![segs@[0]@] } else { Set::empty() },
        TypeExpr::Paren(e) => spec_bare_type_names(*e),
        TypeExpr::Group(e) => spec_bare_type_names(*e),
        _ => Set::empty(),
    }
}

/// The bare type names that occur in any of `ts`.
pub open spec fn list_bare_type_names(ts: Seq<TypeExpr>) -> Set<Seq<char>>
    decreases ts,
{
    if ts.len() == 0 {
        Set::empty()
    } else {
        list_bare_type_names(ts.subrange(0, ts.len() - 1)) + spec_bare_type_names(ts[ts.len() - 1])
    }
}

/// The elements of two sequences one after the other are the elements of both.
pub proof fn lemma_to_set_concat<A>(a: Seq<A>, b: Seq<A>)
    ensures
        (a + b).to_set() == a.to_set() + b.to_set(),
{
    assert forall|x: A| (a + b).to_set().contains(x) <==> (a.to_set() + b.to_set()).contains(x) by {
        if (a + b).to_set().contains(x) {
            let k = choose|k: int| 0 <= k < (a + b).len() && (a + b)[k] == x;
            if k < a.len() {
                assert(a[k] == x);
            } else {
                assert(b[k - a.len()] == x);
            }
        }
        if a.to_set().contains(x) {
            let k = choose|k: int| 0 <= k < a.len() && a[k] == x;
            assert((a + b)[k] == x);
        }
        if b.to_set().contains(x) {
            let k = choose|k: int| 0 <= k < b.len() && b[k] == x;
            assert((a + b)[k + a.len()] == x);
        }
    }
    assert((a + b).to_set() =~= a.to_set() + b.to_set());
}

/// The bare type names in `ty`: those of its single-segment path types, wherever
/// they occur in it.
pub fn bare_type_names(ty: &TypeExpr) -> (r: Vec<String>)
    ensures
        r.deep_view().to_set() == spec_bare_type_names(*ty),
    decreases ty,
{
    match ty {
        TypeExpr::Slice(e) => bare_type_names(e),
        TypeExpr::Array(e) => bare_type_names(e),
        TypeExpr::Ptr(e) => bare_type_names(e),
        TypeExpr::Reference(e) => bare_type_names(e),
        TypeExpr::BareFn(ins, out) => {
            let mut names = list_type_names(ins);
            match out {
                Some(res) => {
                    let ghost a = names.deep_view();
                    let mut o = bare_type_names(res);
                    let ghost b = o.deep_view();
                    names.append(&mut o);
                    proof {
                        assert(names.deep_view() =~= a + b);
                        lemma_to_set_concat(a, b);
                    }
                },
                None => {
                    assert(names.deep_view().to_set() + Set::<Seq<char>>::empty() =~= names.deep_view().to_set());
                },
            }
            names
        },
        TypeExpr::Tuple(es) => list_type_names(es),
        TypeExpr::Path(segs) => {
            let mut names: Vec<String> = Vec::new();
            if segs.len() == 1 {
                names.push(segs[0].clone());
                assert(names.deep_view() =~= seq![segs@[0]@]);
                assert(seq![segs@[0]@].to_set() =~= set![segs@[0]@]) by {
                    assert(seq![segs@[0]@][0] == segs@[0]@);
                }
            } else {
                assert(names.deep_view().to_set() =~= Set::<Seq<char>>::empty());
            }
            names
        },
        TypeExpr::Paren(e) => bare_type_names(e),
        TypeExpr::Group(e) => bare_type_names(e),
        _ => {
            let names: Vec<String> = Vec::new();
            assert(names.deep_view().to_set() =~= Set::<Seq<char>>::empty());
            names
        },
    }
}

/// The bare type names in any of `ts`.
fn list_type_names(ts: &Vec<TypeExpr>) -> (r: Vec<String>)
    ensures
        r.deep_view().to_set() == list_bare_type_names(ts@),
    decreases ts,
{
    let n = ts.len();
    let mut names: Vec<String> = Vec::new();
    let mut i: usize = 0;
    assert(names.deep_view().to_set() =~= Set::<Seq<char>>::empty());
    assert(ts@.subrange(0, 0) =~= Seq::<TypeExpr>::empty());
    while i < n
        invariant
            i <= n,
            n == ts@.len(),
            names.deep_view().to_set() == list_bare_type_names(ts@.subrange(0, i as int)),
        decreases n - i,
    {
        let ghost a = names.deep_view();
        proof {
            assert(decreases_to!(ts => ts@));
            assert(decreases_to!(ts@ => ts@[i as int]));
        }
        let mut o = bare_type_names(&ts[i]);
        let ghost b = o.deep_view();
        names.append(&mut o);
        proof {
            assert(names.deep_view() =~= a + b);
            lemma_to_set_concat(a, b);
            let next = ts@.subrange(0, (i + 1) as int);
            assert(next.subrange(0, next.len() - 1) =~= ts@.subrange(0, i as int));
            assert(next[next.len() - 1] == ts@[i as int]);
        }
        i = i + 1;
    }
    assert(ts@.subrange(0, n as int) =~= ts@);
    names
}

/// Lookup information for a single `use` statement or local type definition.
pub struct LookupInfo {
    /// The aliased name used within the module (produced by `use T as Foo`)
    pub outside_name: Option<String>,
    /// The original item name that forms the last segment of the import path
    pub original_name: String,
    /// Full import path, including the name of the imported item
    pub import_path: String,
}

/// The contents of a `LookupInfo`.
pub struct LookupInfoM {
    pub outside: Option<Seq<char>>,
    pub original: Seq<char>,
    pub path: Seq<char>,
}

impl View for LookupInfo {
    type V = LookupInfoM;

    open spec fn view(&self) -> LookupInfoM {
        LookupInfoM {
            outside: match self.outside_name {
                Some(o) => Some(o@),
                None => None,
            },
            original: self.original_name@,
            path: self.import_path@,
        }
    }
}

impl LookupInfo {
    /// Whether the item was imported under another name.
    pub fn is_renamed(&self) -> (r: bool)
        ensures
            r == self.outside_name.is_some(),
    {
        self.outside_name.is_some()
    }

    /// A copy of the information.
    pub fn copy(&self) -> (r: LookupInfo)
        ensures
            r@ == self@,
    {
        LookupInfo {
            outside_name: match &self.outside_name {
                Some(o) => Some(o.clone()),
                None => None,
            },
            original_name: self.original_name.clone(),
            import_path: self.import_path.clone(),
        }
    }
}

/// The type names a module knows, each with the information how to import it;
/// of two entries for one name the later one counts.
pub struct LookupTable {
    pub entries: Vec<(String, LookupInfo)>,
}

/// The map that a list of entries describes, later entries replacing earlier ones.
pub open spec fn table_map(es: Seq<(String, LookupInfo)>) -> Map<Seq<char>, LookupInfoM>
    decreases es.len(),
{
    if es.len() == 0 {
        Map::empty()
    } else {
        table_map(es.drop_last()).insert(es.last().0@, es.last().1@)
    }
}

impl View for LookupTable {
    type V = Map<Seq<char>, LookupInfoM>;

    open spec fn view(&self) -> Map<Seq<char>, LookupInfoM> {
        table_map(self.entries@)
    }
}

/// Entries after position `j` that do not name `k` leave `k`'s entry as it was.
proof fn lemma_table_suffix(es: Seq<(String, LookupInfo)>, j: int, k: Seq<char>)
    requires
        0 <= j <= es.len(),
        forall|i: int| j <= i < es.len() ==> (#[trigger] es[i]).0@ != k,
    ensures
        table_map(es).contains_key(k) == table_map(es.subrange(0, j)).contains_key(k),
        table_map(es).contains_key(k) ==> table_map(es)[k] == table_map(es.subrange(0, j))[k],
    decreases es.len() - j,
{
    if j < es.len() {
        lemma_table_suffix(es.drop_last(), j, k);
        assert(es.drop_last().subrange(0, j) =~= es.subrange(0, j));
    } else {
        assert(es.subrange(0, j) =~= es);
    }
}

/// Appending the entries of another list lets those entries win.
proof fn lemma_table_concat(a: Seq<(String, LookupInfo)>, b: Seq<(String, LookupInfo)>)
    ensures
        table_map(a + b) == table_map(a).union_prefer_right(table_map(b)),
    decreases b.len(),
{
    if b.len() == 0 {
        assert(a + b =~= a);
        assert(table_map(a).union_prefer_right(Map::empty()) =~= table_map(a));
    } else {
        lemma_table_concat(a, b.drop_last());
        assert((a + b).drop_last() =~= a + b.drop_last());
        assert((a + b).last() == b.last());
        assert(table_map(a + b) =~= table_map(a).union_prefer_right(table_map(b)));
    }
}

impl LookupTable {
    /// An empty table.
    pub fn new() -> (t: LookupTable)
        ensures
            t@ == Map::<Seq<char>, LookupInfoM>::empty(),
    {
        LookupTable { entries: Vec::new() }
    }

    /// Enters `info` under `name`, replacing an earlier entry for it.
    pub fn insert(&mut self, name: String, info: LookupInfo)
        ensures
            final(self)@ == old(self)@.insert(name@, info@),
    {
        let ghost e0 = self.entries@;
        self.entries.push((name, info));
        assert(self.entries@.drop_last() =~= e0);
    }

    /// Enters all entries of `other`, which replace earlier ones for the same names.
    pub fn extend(&mut self, other: LookupTable)
        ensures
            final(self)@ == old(self)@.union_prefer_right(other@),
    {
        let ghost a = self.entries@;
        let ghost b = other.entries@;
        let mut o = other.entries;
        self.entries.append(&mut o);
        proof {
            assert(self.entries@ =~= a + b);
            lemma_table_concat(a, b);
        }
    }

    /// The entry for `name`, if there is one.
    pub fn get(&self, name: &String) -> (r: Option<&LookupInfo>)
        ensures
            r is Some <==> self@.contains_key(name@),
            r is Some ==> r->0@ == self@[name@],
    {
        let ghost es = self.entries@;
        let mut j = self.entries.len();
        while j > 0
            invariant
                j <= es.len(),
                es == self.entries@,
                forall|i: int| j <= i < es.len() ==> (#[trigger] es[i]).0@ != name@,
            decreases j,
        {
            j = j - 1;
            if self.entries[j].0 == *name {
                proof {
                    lemma_table_suffix(es, j + 1, name@);
                    let pre = es.subrange(0, j + 1);
                    assert(pre.drop_last() =~= es.subrange(0, j as int));
                    assert(pre.last() == es[j as int]);
                }
                return Some(&self.entries[j].1);
            }
        }
        proof {
            lemma_table_suffix(es, 0, name@);
            assert(es.subrange(0, 0) =~= Seq::<(String, LookupInfo)>::empty());
        }
        None
    }

    /// Whether there is an entry for `name`.
    pub fn contains_key(&self, name: &String) -> (r: bool)
        ensures
            r == self@.contains_key(name@),
    {
        self.get(name).is_some()
    }

    /// A copy of the table.
    pub fn copy(&self) -> (t: LookupTable)
        ensures
            t@ == self@,
    {
        let ghost es = self.entries@;
        let n = self.entries.len();
        let mut entries: Vec<(String, LookupInfo)> = Vec::new();
        let mut i: usize = 0;
        assert(es.subrange(0, 0) =~= Seq::<(String, LookupInfo)>::empty());
        while i < n
            invariant
                i <= n,
                n == es.len(),
                es == self.entries@,
                table_map(entries@) == table_map(es.subrange(0, i as int)),
            decreases n - i,
        {
            let ghost prev = entries@;
            let k = self.entries[i].0.clone();
            let v = self.entries[i].1.copy();
            entries.push((k, v));
            let ghost next = es.subrange(0, (i + 1) as int);
            assert(next.drop_last() =~= es.subrange(0, i as int));
            assert(entries@.drop_last() =~= prev);
            assert(next.last() == es[i as int]);
            i = i + 1;
        }
        assert(es.subrange(0, n as int) =~= es);
        LookupTable { entries }
    }
}

/// Where the last piece of `p`, split at `::`, begins, when scanning goes on at
/// position `i` and the current piece began at `start`; separators are found
/// from the left and do not overlap.
pub open spec fn piece_start(p: Seq<char>, i: int, start: int) -> int
    decreases p.len() - i,
{
    if i >= p.len() {
        start
    } else if i + 1 < p.len() && p[i] == ':' && p[i + 1] == ':' {
        piece_start(p, i + 2, i + 2)
    } else {
        piece_start(p, i + 1, start)
    }
}

/// A read after a write: once `info` is entered under `name`, looking `name` up
/// gives `info`, and every other name gives what it gave before.
pub proof fn lemma_lookup_after_insert(t: LookupTable, name: String, info: LookupInfo, other: Seq<char>)
    requires
        other != name@,
    ensures
        table_map(t.entries@.push((name, info))).contains_key(name@),
        table_map(t.entries@.push((name, info)))[name@] == info@,
        table_map(t.entries@.push((name, info))).contains_key(other) == t@.contains_key(other),
        t@.contains_key(other) ==> table_map(t.entries@.push((name, info)))[other] == t@[other],
{
    assert(t.entries@.push((name, info)).drop_last() =~= t.entries@);
}

/// The last piece of `p` split at `::`: `p.split("::").last()`.
pub open spec fn last_piece(p: Seq<char>) -> Seq<char> {
    p.subrange(piece_start(p, 0, 0), p.len() as int)
}

proof fn lemma_piece_start_bounds(p: Seq<char>, i: int, start: int)
    requires
        0 <= start <= i,
        start <= p.len(),
    ensures
        start <= piece_start(p, i, start) <= p.len(),
    decreases p.len() - i,
{
    if i < p.len() {
        if i + 1 < p.len() && p[i] == ':' && p[i + 1] == ':' {
            lemma_piece_start_bounds(p, i + 2, i + 2);
        } else {
            lemma_piece_start_bounds(p, i + 1, start);
        }
    }
}

/// The last piece of `s` split at `::`.
fn last_piece_of(s: &String) -> (r: String)
    ensures
        r@ == last_piece(s@),
{
    let t = s.as_str();
    let n = t.unicode_len();
    let mut i: usize = 0;
    let mut start: usize = 0;
    proof { lemma_piece_start_bounds(s@, 0, 0); }
    while i < n
        invariant
            i <= n,
            n == s@.len(),
            t@ == s@,
            start <= i,
            piece_start(s@, i as int, start as int) == piece_start(s@, 0, 0),
        decreases n - i,
    {
        if i + 1 < n && t.get_char(i) == ':' && t.get_char(i + 1) == ':' {
            i = i + 2;
            start = i;
        } else {
            i = i + 1;
        }
    }
    let mut r = String::new();
    let mut k: usize = start;
    while k < n
        invariant
            start <= k <= n,
            n == s@.len(),
            t@ == s@,
            r@ == s@.subrange(start as int, k as int),
        decreases n - k,
    {
        push_char(&mut r, t.get_char(k));
        assert(r@ =~= s@.subrange(start as int, (k + 1) as int));
        k = k + 1;
    }
    r
}

/// A `use` tree.
pub enum UseTree {
    /// `ident::tree`
    Path(String, Box<UseTree>),
    /// `ident`
    Name(String),
    /// `ident as rename`
    Rename(String, String),
    /// `*`
    Glob,
    /// `{tree, tree, ...}`
    Group(Vec<UseTree>),
}

/// The lookup state a resolution starts from: the one given, or an empty one.
pub open spec fn start_state(s: Option<LookupInfo>) -> LookupInfoM {
    match s {
        Some(i) => i@,
        None => LookupInfoM { outside: None, original: Seq::empty(), path: Seq::empty() },
    }
}

/// The table entries a `use` tree brings in, from the lookup state `info` of its
/// enclosing path: each leaf is entered under its name (its new name when renamed)
/// with its full import path; a leaf `self` takes the last piece of the path so
/// far as its name; a glob brings in nothing.
pub open spec fn spec_resolve_use(t: UseTree, info: LookupInfoM) -> Map<Seq<char>, LookupInfoM>
    decreases t,
{
    match t {
        UseTree::Path(id, sub) => spec_resolve_use(*sub, LookupInfoM { path: info.path + id@ + "::"@, ..info }),
        UseTree::Name(id) => if id@ != "self"@ {
            let i2 = LookupInfoM { original: id@, path: info.path + id@, ..info };
            map![id@ => i2]
        } else {
            let i2 = LookupInfoM { original: last_piece(info.path), ..info };
            map![i2.original => i2]
        },
        UseTree::Rename(id, rn) => {
            let i2 = LookupInfoM { outside: Some(rn@), original: id@, path: info.path + id@ };
            map![rn@ => i2]
        },
        UseTree::Glob => Map::empty(),
        UseTree::Group(items) => list_resolve_use(items@, info),
    }
}

/// The entries of all trees of a group, later ones replacing earlier ones.
pub open spec fn list_resolve_use(ts: Seq<UseTree>, info: LookupInfoM) -> Map<Seq<char>, LookupInfoM>
    decreases ts,
{
    if ts.len() == 0 {
        Map::empty()
    } else {
        list_resolve_use(ts.subrange(0, ts.len() - 1), info).union_prefer_right(spec_resolve_use(ts[ts.len() - 1], info))
    }
}

fn single_entry(name: String, info: LookupInfo) -> (t: LookupTable)
    ensures
        t@ == map![name@ => info@],
{
    let mut t = LookupTable::new();
    t.insert(name, info);
    assert(t@ =~= map![name@ => info@]);
    t
}

/// Resolves a `use` tree recursively into lookup entries for each of its leaves.
pub fn resolve_use_stmt(item_use: &UseTree, current_state: Option<LookupInfo>) -> (r: LookupTable)
    ensures
        r@ == spec_resolve_use(*item_use, start_state(current_state)),
    decreases item_use,
{
    let mut info = match current_state {
        Some(cont) => cont,
        None => LookupInfo {
            outside_name: None,
            original_name: String::new(),
            import_path: String::new(),
        },
    };
    match item_use {
        UseTree::Path(id, sub) => {
            info.import_path.append(id.as_str());
            info.import_path.append("::");
            resolve_use_stmt(sub, Some(info))
        },
        UseTree::Name(id) => {
            proof { reveal_strlit("self"); }
            let is_self = crate::text::string_is(id, "self");
            if !is_self {
                info.original_name = id.clone();
                info.import_path.append(id.as_str());
            } else {
                info.original_name = last_piece_of(&info.import_path);
            }
            let key = info.original_name.clone();
            single_entry(key, info)
        },
        UseTree::Rename(id, rn) => {
            info.outside_name = Some(rn.clone());
            info.original_name = id.clone();
            info.import_path.append(id.as_str());
            single_entry(rn.clone(), info)
        },
        UseTree::Glob => {
            LookupTable::new()
        },
        UseTree::Group(items) => {
            let ghost st = info@;
            let mut table = LookupTable::new();
            let n = items.len();
            let mut i: usize = 0;
            assert(items@.subrange(0, 0) =~= Seq::<UseTree>::empty());
            while i < n
                invariant
                    i <= n,
                    n == items@.len(),
                    info@ == st,
                    *item_use == UseTree::Group(*items),
                    table@ == list_resolve_use(items@.subrange(0, i as int), st),
                decreases n - i,
            {
                proof {
                    assert(decreases_to!(*item_use => (*item_use)->Group_0));
                    assert(decreases_to!(*items => items@));
                    assert(decreases_to!(items@ => items@[i as int]));
                }
                let sub = resolve_use_stmt(&items[i], Some(info.copy()));
                table.extend(sub);
                let ghost next = items@.subrange(0, (i + 1) as int);
                assert(next.subrange(0, next.len() - 1) =~= items@.subrange(0, i as int));
                assert(next[next.len() - 1] == items@[i as int]);
                i = i + 1;
            }
            assert(items@.subrange(0, n as int) =~= items@);
            table
        },
    }
}

/// What an import of the entry reads: its path, and ` as ` its new name when renamed.
pub open spec fn import_text(v: LookupInfoM) -> Seq<char> {
    v.path + match v.outside {
        Some(o) => " as "@ + o,
        None => Seq::empty(),
    }
}

/// No part of the type is one that the analysis refuses (never type, trait
/// bounds, placeholders, macros), and every path has a segment.
pub open spec fn paths_ok(t: TypeExpr) -> bool
    decreases t,
{
    match t {
        TypeExpr::Slice(e) => paths_ok(*e),
        TypeExpr::Array(e) => paths_ok(*e),
        TypeExpr::Ptr(e) => paths_ok(*e),
        TypeExpr::Reference(e) => paths_ok(*e),
        TypeExpr::BareFn(ins, out) => list_paths_ok(ins@) && match out {
            Some(r) => paths_ok(*r),
            None => true,
        },
        TypeExpr::Tuple(es) => list_paths_ok(es@),
        TypeExpr::Path(segs) => segs@.len() > 0,
        TypeExpr::Paren(e) => paths_ok(*e),
        TypeExpr::Group(e) => paths_ok(*e),
        TypeExpr::Verbatim => true,
        _ => false,
    }
}

/// Each of the types passes `paths_ok`.
pub open spec fn list_paths_ok(ts: Seq<TypeExpr>) -> bool
    decreases ts,
{
    if ts.len() == 0 {
        true
    } else {
        list_paths_ok(ts.subrange(0, ts.len() - 1)) && paths_ok(ts[ts.len() - 1])
    }
}

/// The imports a type needs: for each path type, in order of occurrence, the
/// import of its first segment if the table knows that name.
pub open spec fn spec_find_paths(t: TypeExpr, m: Map<Seq<char>, LookupInfoM>) -> Seq<Seq<char>>
    decreases t,
{
    match t {
        TypeExpr::Slice(e) => spec_find_paths(*e, m),
        TypeExpr::Array(e) => spec_find_paths(*e, m),
        TypeExpr::Ptr(e) => spec_find_paths(*e, m),
        TypeExpr::Reference(e) => spec_find_paths(*e, m),
        TypeExpr::BareFn(ins, out) => list_find_paths(ins@, m) + match out {
            Some(r) => spec_find_paths(*r, m),
            None => Seq::empty(),
        },
        TypeExpr::Tuple(es) => list_find_paths(es@, m),
        TypeExpr::Path(segs) => if segs@.len() > 0 && m.contains_key(segs@[0]@) {
            seq![import_text(m[segs@[0]@])]
        } else {
            Seq::empty()
        },
        TypeExpr::Paren(e) => spec_find_paths(*e, m),
        TypeExpr::Group(e) => spec_find_paths(*e, m),
        _ => Seq::empty(),
    }
}

/// The imports of each of the types, one after the other.
pub open spec fn list_find_paths(ts: Seq<TypeExpr>, m: Map<Seq<char>, LookupInfoM>) -> Seq<Seq<char>>
    decreases ts,
{
    if ts.len() == 0 {
        Seq::empty()
    } else {
        list_find_paths(ts.subrange(0, ts.len() - 1), m) + spec_find_paths(ts[ts.len() - 1], m)
    }
}

/// Using the lookup table, collects the imports that a (possibly composite) type needs.
pub fn find_paths_for_type(ty: &TypeExpr, lookup_table: &LookupTable) -> (r: Vec<String>)
    requires
        paths_ok(*ty),
    ensures
        r.deep_view() == spec_find_paths(*ty, lookup_table@),
    decreases ty,
{
    match ty {
        TypeExpr::Slice(e) => find_paths_for_type(e, lookup_table),
        TypeExpr::Array(e) => find_paths_for_type(e, lookup_table),
        TypeExpr::Ptr(e) => find_paths_for_type(e, lookup_table),
        TypeExpr::Reference(e) => find_paths_for_type(e, lookup_table),
        TypeExpr::BareFn(ins, out) => {
            let mut imports = list_find_paths_for(ins, lookup_table);
            match out {
                Some(res) => {
                    let ghost a = imports.deep_view();
                    let mut o = find_paths_for_type(res, lookup_table);
                    let ghost b = o.deep_view();
                    imports.append(&mut o);
                    assert(imports.deep_view() =~= a + b);
                },
                None => {
                    assert(imports.deep_view() + Seq::<Seq<char>>::empty() =~= imports.deep_view());
                },
            }
            imports
        },
        TypeExpr::Tuple(es) => list_find_paths_for(es, lookup_table),
        TypeExpr::Path(segs) => {
            let mut imports: Vec<String> = Vec::new();
            match lookup_table.get(&segs[0]) {
                Some(val) => {
                    let mut import = val.import_path.clone();
                    if val.is_renamed() {
                        import.append(" as ");
                        match &val.outside_name {
                            Some(o) => import.append(o.as_str()),
                            None => {},
                        }
                    }
                    assert(import@ =~= import_text(val@));
                    imports.push(import);
                    assert(imports.deep_view() =~= seq![import_text(lookup_table@[segs@[0]@])]);
                },
                None => {
                    assert(imports.deep_view() =~= Seq::<Seq<char>>::empty());
                },
            }
            imports
        },
        TypeExpr::Paren(e) => find_paths_for_type(e, lookup_table),
        TypeExpr::Group(e) => find_paths_for_type(e, lookup_table),
        _ => {
            let imports: Vec<String> = Vec::new();
            assert(imports.deep_view() =~= Seq::<Seq<char>>::empty());
            imports
        },
    }
}

fn list_find_paths_for(ts: &Vec<TypeExpr>, lookup_table: &LookupTable) -> (r: Vec<String>)
    requires
        list_paths_ok(ts@),
    ensures
        r.deep_view() == list_find_paths(ts@, lookup_table@),
    decreases ts,
{
    let n = ts.len();
    let mut imports: Vec<String> = Vec::new();
    let mut i: usize = 0;
    assert(imports.deep_view() =~= Seq::<Seq<char>>::empty());
    assert(ts@.subrange(0, 0) =~= Seq::<TypeExpr>::empty());
    proof { lemma_list_paths_ok(ts@); }
    while i < n
        invariant
            i <= n,
            n == ts@.len(),
            forall|k: int| 0 <= k < n ==> paths_ok(#[trigger] ts@[k]),
            imports.deep_view() == list_find_paths(ts@.subrange(0, i as int), lookup_table@),
        decreases n - i,
    {
        let ghost a = imports.deep_view();
        proof {
            assert(decreases_to!(ts => ts@));
            assert(decreases_to!(ts@ => ts@[i as int]));
        }
        let mut o = find_paths_for_type(&ts[i], lookup_table);
        let ghost b = o.deep_view();
        imports.append(&mut o);
        proof {
            assert(imports.deep_view() =~= a + b);
            let next = ts@.subrange(0, (i + 1) as int);
            assert(next.subrange(0, next.len() - 1) =~= ts@.subrange(0, i as int));
            assert(next[next.len() - 1] == ts@[i as int]);
        }
        i = i + 1;
    }
    assert(ts@.subrange(0, n as int) =~= ts@);
    imports
}

proof fn lemma_list_paths_ok(ts: Seq<TypeExpr>)
    requires
        list_paths_ok(ts),
    ensures
        forall|k: int| 0 <= k < ts.len() ==> paths_ok(#[trigger] ts[k]),
    decreases ts.len(),
{
    if ts.len() > 0 {
        let pre = ts.subrange(0, ts.len() - 1);
        lemma_list_paths_ok(pre);
        assert forall|k: int| 0 <= k < ts.len() implies paths_ok(#[trigger] ts[k]) by {
            if k < ts.len() - 1 {
                assert(pre[k] == ts[k]);
            }
        }
    }
}

/// Information about a single type. A composite type (a tuple, say) may need
/// several imports.
pub struct Type {
    /// name of the type
    pub name: String,
    /// import paths of the types it is made of, including their names; `None` when
    /// no import is needed.
    pub path: Option<Vec<String>>,
}

/// The contents of a `Type`.
pub struct TypeM {
    pub name: Seq<char>,
    pub path: Option<Seq<Seq<char>>>,
}

impl View for Type {
    type V = TypeM;

    open spec fn view(&self) -> TypeM {
        TypeM {
            name: self.name@,
            path: match self.path {
                Some(p) => Some(p.deep_view()),
                None => None,
            },
        }
    }
}

/// A type in a signature: its shape, and its tokens as text.
pub struct TypedArg {
    pub ty: TypeExpr,
    /// The type's tokens, separated by spaces.
    pub tokens: String,
}

/// An argument of a function: a typed pattern, or a `self` receiver.
pub enum FnArg {
    Typed(TypedArg),
    Receiver,
}

/// The signature of a function or method.
pub struct FnSig {
    pub ident: String,
    pub inputs: Vec<FnArg>,
    /// The result type; `None` for `()` written as no return type.
    pub output: Option<TypedArg>,
}

/// The name of a type: its tokens without spaces.
pub open spec fn type_text(a: TypedArg) -> Seq<char> {
    replaced(a.tokens@, " "@, Seq::empty())
}

/// The imports a type needs, `None` when it needs none.
pub open spec fn type_paths(t: TypeExpr, m: Map<Seq<char>, LookupInfoM>) -> Option<Seq<Seq<char>>> {
    if spec_find_paths(t, m).len() == 0 { None } else { Some(spec_find_paths(t, m)) }
}

/// The type information of a typed argument.
pub open spec fn type_of(a: TypedArg, m: Map<Seq<char>, LookupInfoM>) -> TypeM {
    TypeM { name: type_text(a), path: type_paths(a.ty, m) }
}

/// The type information of the typed arguments, in order; receivers are skipped.
pub open spec fn arg_types(args: Seq<FnArg>, m: Map<Seq<char>, LookupInfoM>) -> Seq<TypeM>
    decreases args.len(),
{
    if args.len() == 0 {
        Seq::empty()
    } else {
        arg_types(args.drop_last(), m) + match args.last() {
            FnArg::Typed(a) => seq![type_of(a, m)],
            FnArg::Receiver => Seq::empty(),
        }
    }
}

/// The type information of the result: `()` with no import when none is written.
pub open spec fn ret_type(out: Option<TypedArg>, m: Map<Seq<char>, LookupInfoM>) -> TypeM {
    match out {
        Some(a) => type_of(a, m),
        None => TypeM { name: "()"@, path: None },
    }
}

/// The argument and result types of the function if it is the one named.
pub open spec fn sig_result(sig: FnSig, name: Seq<char>, m: Map<Seq<char>, LookupInfoM>) -> Option<(Seq<TypeM>, TypeM)> {
    if sig.ident@ != name {
        None
    } else {
        Some((arg_types(sig.inputs@, m), ret_type(sig.output, m)))
    }
}

/// The function, if it is the one named, has types that the analysis accepts.
pub open spec fn sig_ok(sig: FnSig, name: Seq<char>) -> bool {
    sig.ident@ == name ==> {
        &&& forall|k: int| 0 <= k < sig.inputs@.len() ==> (#[trigger] sig.inputs@[k] matches FnArg::Typed(a) ==> paths_ok(a.ty))
        &&& sig.output matches Some(a) ==> paths_ok(a.ty)
    }
}

/// The contents of a found function's types.
pub open spec fn result_view(r: Option<(Vec<Type>, Type)>) -> Option<(Seq<TypeM>, TypeM)> {
    match r {
        Some(x) => Some((x.0@.map_values(|t: Type| t@), x.1@)),
        None => None,
    }
}

/// The name of a type: its tokens without spaces.
pub fn collect_type(argument: &TypedArg) -> (r: String)
    ensures
        r@ == type_text(*argument),
{
    proof {
        reveal_strlit(" ");
        reveal_strlit("");
        assert(""@ =~= Seq::<char>::empty());
    }
    replace_str(argument.tokens.as_str(), " ", "")
}

/// The imports a type needs, `None` when it needs none.
pub fn get_paths(ty: &TypeExpr, lookup_table: &LookupTable) -> (r: Option<Vec<String>>)
    requires
        paths_ok(*ty),
    ensures
        match r {
            Some(p) => type_paths(*ty, lookup_table@) == Some(p.deep_view()),
            None => type_paths(*ty, lookup_table@) is None,
        },
{
    let res = find_paths_for_type(ty, lookup_table);
    if res.len() == 0 {
        None
    } else {
        Some(res)
    }
}

fn type_info(a: &TypedArg, lookup_table: &LookupTable) -> (r: Type)
    requires
        paths_ok(a.ty),
    ensures
        r@ == type_of(*a, lookup_table@),
{
    let name = collect_type(a);
    let path = get_paths(&a.ty, lookup_table);
    Type { name, path }
}

/// The argument and result types of the function, if it is the one `target` names.
pub fn check_function(sig: &FnSig, target: &SfDependency, lookup_table: &LookupTable) -> (r: Option<(Vec<Type>, Type)>)
    requires
        sig_ok(*sig, target.qbName@),
    ensures
        result_view(r) == sig_result(*sig, target.qbName@, lookup_table@),
{
    if sig.ident != target.qbName {
        return None;
    }
    let n = sig.inputs.len();
    let mut inputs: Vec<Type> = Vec::new();
    let mut i: usize = 0;
    assert(sig.inputs@.subrange(0, 0) =~= Seq::<FnArg>::empty());
    assert(inputs@.map_values(|t: Type| t@) =~= Seq::<TypeM>::empty());
    while i < n
        invariant
            i <= n,
            n == sig.inputs@.len(),
            sig_ok(*sig, target.qbName@),
            sig.ident@ == target.qbName@,
            inputs@.map_values(|t: Type| t@) == arg_types(sig.inputs@.subrange(0, i as int), lookup_table@),
        decreases n - i,
    {
        let ghost prev = inputs@;
        let ghost next = sig.inputs@.subrange(0, (i + 1) as int);
        assert(next.drop_last() =~= sig.inputs@.subrange(0, i as int));
        assert(next.last() == sig.inputs@[i as int]);
        match &sig.inputs[i] {
            FnArg::Typed(a) => {
                assert(sig.inputs@[i as int] matches FnArg::Typed(x) ==> paths_ok(x.ty));
                let t = type_info(a, lookup_table);
                inputs.push(t);
                assert(inputs@.map_values(|t: Type| t@) =~= prev.map_values(|t: Type| t@).push(t@));
            },
            FnArg::Receiver => {
                assert(prev.map_values(|t: Type| t@) + Seq::<TypeM>::empty() =~= prev.map_values(|t: Type| t@));
            },
        }
        i = i + 1;
    }
    assert(sig.inputs@.subrange(0, n as int) =~= sig.inputs@);
    let retval = match &sig.output {
        None => Type { name: String::from_str("()"), path: None },
        Some(a) => type_info(a, lookup_table),
    };
    Some((inputs, retval))
}

/// The primitive types: `bool`, `char`, the numbers and `str`, and `()`.
pub open spec fn is_primitive(ty: Seq<char>) -> bool {
    ||| ty == "bool"@ ||| ty == "char"@ ||| ty == "f32"@ ||| ty == "f64"@
    ||| ty == "i8"@ ||| ty == "i16"@ ||| ty == "i32"@ ||| ty == "i64"@ ||| ty == "i128"@
    ||| ty == "u8"@ ||| ty == "u16"@ ||| ty == "u32"@ ||| ty == "u64"@ ||| ty == "u128"@
    ||| ty == "isize"@ ||| ty == "usize"@ ||| ty == "str"@ ||| ty == "()"@
}

/// Whether the type name is that of a primitive type. Primitive types are no
/// reserved words, so this is a lookup in the list of them.
pub fn is_primitive_type(ty: &String) -> (r: bool)
    ensures
        r == is_primitive(ty@),
{
    string_is(ty, "bool") || string_is(ty, "char") || string_is(ty, "f32") || string_is(ty, "f64")
        || string_is(ty, "i8") || string_is(ty, "i16") || string_is(ty, "i32") || string_is(ty, "i64")
        || string_is(ty, "i128") || string_is(ty, "u8") || string_is(ty, "u16") || string_is(ty, "u32")
        || string_is(ty, "u64") || string_is(ty, "u128") || string_is(ty, "isize") || string_is(ty, "usize")
        || string_is(ty, "str") || string_is(ty, "()")
}

/// The parts of a namespace, each followed by `::`.
pub open spec fn ns_prefix(ns: Seq<Seq<char>>) -> Seq<char>
    decreases ns.len(),
{
    if ns.len() == 0 {
        Seq::empty()
    } else {
        ns_prefix(ns.drop_last()) + ns.last() + "::"@
    }
}

pub(crate) fn ns_prefix_text(ns: &Vec<String>) -> (r: String)
    ensures
        r@ == ns_prefix(ns.deep_view()),
{
    let ghost nv = ns.deep_view();
    let n = ns.len();
    let mut s = String::new();
    let mut i: usize = 0;
    assert(nv.subrange(0, 0) =~= Seq::<Seq<char>>::empty());
    while i < n
        invariant
            i <= n,
            n == nv.len(),
            nv == ns.deep_view(),
            s@ == ns_prefix(nv.subrange(0, i as int)),
        decreases n - i,
    {
        s.append(ns[i].as_str());
        s.append("::");
        let ghost next = nv.subrange(0, (i + 1) as int);
        assert(next.drop_last() =~= nv.subrange(0, i as int));
        assert(next.last() == ns@[i as int]@);
        assert(s@ =~= ns_prefix(next));
        i = i + 1;
    }
    assert(nv.subrange(0, n as int) =~= nv);
    s
}

/// The entry of a type defined in the module of `ns`.
pub open spec fn local_info(name: Seq<char>, ns: Seq<Seq<char>>) -> LookupInfoM {
    LookupInfoM { outside: None, original: name, path: ns_prefix(ns) + name }
}

/// The lookup entry for a type `ident` defined in the module of `dep`: its name,
/// and as import path the namespace followed by the name.
pub fn lookup_info_from(ident: &String, dep: &SfDependency) -> (r: (String, LookupInfo))
    ensures
        r.0@ == ident@,
        r.1@ == local_info(ident@, dep.qbNamespace.deep_view()),
{
    let name = ident.clone();
    let mut path = ns_prefix_text(&dep.qbNamespace);
    path.append(name.as_str());
    let info = LookupInfo { outside_name: None, original_name: name.clone(), import_path: path };
    (name, info)
}

/// An `impl` block: the type it is for, and the signatures of its methods.
pub struct ImplBlock {
    pub self_ty: TypeExpr,
    pub methods: Vec<FnSig>,
}

/// An item of a module, as far as the analysis looks at it.
pub enum Item {
    Use(UseTree),
    Fn(FnSig),
    /// A type alias, by its name.
    Type(String),
    Struct(String),
    Enum(String),
    Union(String),
    Trait,
    Impl(ImplBlock),
    Mod,
    ForeignMod,
    Other,
}

/// The table inside an `impl` block: the bare type names of the type the block is
/// for that are neither primitive nor known yet become local types of the module.
pub open spec fn impl_table(m: Map<Seq<char>, LookupInfoM>, self_ty: TypeExpr, ns: Seq<Seq<char>>) -> Map<Seq<char>, LookupInfoM> {
    Map::new(
        |n: Seq<char>| m.contains_key(n) || (spec_bare_type_names(self_ty).contains(n) && !is_primitive(n)),
        |n: Seq<char>| if m.contains_key(n) { m[n] } else { local_info(n, ns) },
    )
}

/// The types of the first method that is the one named.
pub open spec fn methods_result(ms: Seq<FnSig>, name: Seq<char>, m: Map<Seq<char>, LookupInfoM>) -> Option<(Seq<TypeM>, TypeM)>
    decreases ms.len(),
{
    if ms.len() == 0 {
        None
    } else if sig_result(ms[0], name, m) is Some {
        sig_result(ms[0], name, m)
    } else {
        methods_result(ms.subrange(1, ms.len() as int), name, m)
    }
}

/// The first method that is the one named has types that the analysis accepts.
pub open spec fn methods_ok(ms: Seq<FnSig>, name: Seq<char>) -> bool
    decreases ms.len(),
{
    ms.len() > 0 ==> sig_ok(ms[0], name) && (ms[0].ident@ != name ==> methods_ok(ms.subrange(1, ms.len() as int), name))
}

/// The types of the named function if an item holds it.
pub open spec fn item_result(item: Item, m: Map<Seq<char>, LookupInfoM>, ns: Seq<Seq<char>>, name: Seq<char>) -> Option<(Seq<TypeM>, TypeM)> {
    match item {
        Item::Fn(sig) => sig_result(sig, name, m),
        Item::Impl(b) => methods_result(b.methods@, name, impl_table(m, b.self_ty, ns)),
        _ => None,
    }
}

/// The table after an item: a `use` adds its entries, a type definition adds the
/// type as a local one.
pub open spec fn item_step(item: Item, m: Map<Seq<char>, LookupInfoM>, ns: Seq<Seq<char>>) -> Map<Seq<char>, LookupInfoM> {
    match item {
        Item::Use(t) => m.union_prefer_right(spec_resolve_use(t, start_state(None))),
        Item::Type(id) => m.insert(id@, local_info(id@, ns)),
        Item::Struct(id) => m.insert(id@, local_info(id@, ns)),
        Item::Enum(id) => m.insert(id@, local_info(id@, ns)),
        Item::Union(id) => m.insert(id@, local_info(id@, ns)),
        _ => m,
    }
}

/// The types of the named function: the result of the first item, in order, that
/// holds it, each item seeing the table that the items before it built.
pub open spec fn spec_traverse(items: Seq<Item>, m: Map<Seq<char>, LookupInfoM>, ns: Seq<Seq<char>>, name: Seq<char>) -> Option<(Seq<TypeM>, TypeM)>
    decreases items.len(),
{
    if items.len() == 0 {
        None
    } else if item_result(items[0], m, ns, name) is Some {
        item_result(items[0], m, ns, name)
    } else {
        spec_traverse(items.subrange(1, items.len() as int), item_step(items[0], m, ns), ns, name)
    }
}

/// The item that holds the named function has types that the analysis accepts.
pub open spec fn item_ok(item: Item, name: Seq<char>) -> bool {
    match item {
        Item::Fn(sig) => sig_ok(sig, name),
        Item::Impl(b) => methods_ok(b.methods@, name),
        _ => true,
    }
}

/// The first item that holds the named function has types the analysis accepts.
pub open spec fn traverse_ok(items: Seq<Item>, m: Map<Seq<char>, LookupInfoM>, ns: Seq<Seq<char>>, name: Seq<char>) -> bool
    decreases items.len(),
{
    items.len() > 0 ==> item_ok(items[0], name) && (item_result(items[0], m, ns, name) is None
        ==> traverse_ok(items.subrange(1, items.len() as int), item_step(items[0], m, ns), ns, name))
}

/// Searches the methods of an `impl` block for the function `target` names; the
/// type the block is for is known as a local type inside it.
pub fn traverse_impl_tree(item_impl: &ImplBlock, target: &SfDependency, lookup_table: LookupTable) -> (r: Option<(Vec<Type>, Type)>)
    requires
        methods_ok(item_impl.methods@, target.qbName@),
    ensures
        result_view(r) == methods_result(item_impl.methods@, target.qbName@,
            impl_table(lookup_table@, item_impl.self_ty, target.qbNamespace.deep_view())),
{
    let ghost m = lookup_table@;
    let ghost ns = target.qbNamespace.deep_view();
    let mut table = lookup_table;
    let ty_names = bare_type_names(&item_impl.self_ty);
    let ghost names = ty_names.deep_view();
    let n = ty_names.len();
    let mut new_names: Vec<String> = Vec::new();
    let mut i: usize = 0;
    while i < n
        invariant
            i <= n,
            n == names.len(),
            names == ty_names.deep_view(),
            table@ == m,
            forall|k: int| 0 <= k < new_names@.len() ==> {
                &&& names.subrange(0, i as int).contains(#[trigger] new_names@[k]@)
                &&& !is_primitive(new_names@[k]@)
                &&& !m.contains_key(new_names@[k]@)
            },
            forall|k: int| 0 <= k < i && !is_primitive(#[trigger] names[k]) && !m.contains_key(names[k])
                ==> new_names.deep_view().contains(names[k]),
        decreases n - i,
    {
        let prim = is_primitive_type(&ty_names[i]);
        let known = table.contains_key(&ty_names[i]);
        let ghost prev = new_names.deep_view();
        if !prim && !known {
            new_names.push(ty_names[i].clone());
            assert(new_names.deep_view() =~= prev.push(names[i as int]));
            assert(new_names.deep_view()[prev.len() as int] == names[i as int]);
        } else {
            assert(new_names.deep_view() =~= prev);
        }
        assert forall|k: int| 0 <= k < new_names@.len() implies names.subrange(0, (i + 1) as int).contains(#[trigger] new_names@[k]@) by {
            if k < prev.len() {
                assert(prev[k] == new_names@[k]@);
                let w = choose|w: int| 0 <= w < i && names.subrange(0, i as int)[w] == new_names@[k]@;
                assert(names.subrange(0, (i + 1) as int)[w] == new_names@[k]@);
            } else {
                assert(names.subrange(0, (i + 1) as int)[i as int] == new_names@[k]@);
            }
        }
        assert forall|k: int| 0 <= k < i + 1 && !is_primitive(#[trigger] names[k]) && !m.contains_key(names[k])
            implies new_names.deep_view().contains(names[k]) by {
            if k < i {
                let w = choose|w: int| 0 <= w < prev.len() && prev[w] == names[k];
                assert(new_names.deep_view()[w] == names[k]);
            }
        }
        i = i + 1;
    }
    let path = ns_prefix_text(&target.qbNamespace);
    let q = new_names.len();
    let mut j: usize = 0;
    while j < q
        invariant
            j <= q,
            q == new_names@.len(),
            path@ == ns_prefix(ns),
            ns == target.qbNamespace.deep_view(),
            table@ == m.union_prefer_right(Map::new(
                |x: Seq<char>| new_names.deep_view().subrange(0, j as int).contains(x),
                |x: Seq<char>| local_info(x, ns),
            )),
        decreases q - j,
    {
        let name = new_names[j].clone();
        let mut import_path = path.clone();
        import_path.append(name.as_str());
        let info = LookupInfo { outside_name: None, original_name: name.clone(), import_path };
        let ghost prev = table@;
        table.insert(name, info);
        proof {
            let nv = new_names.deep_view();
            let s0 = nv.subrange(0, j as int);
            let s1 = nv.subrange(0, (j + 1) as int);
            assert forall|x: Seq<char>| s1.contains(x) <==> (s0.contains(x) || x == nv[j as int]) by {
                if s1.contains(x) {
                    let w = choose|w: int| 0 <= w < s1.len() && s1[w] == x;
                    if w < j {
                        assert(s0[w] == x);
                    }
                }
                if s0.contains(x) {
                    let w = choose|w: int| 0 <= w < s0.len() && s0[w] == x;
                    assert(s1[w] == x);
                }
                if x == nv[j as int] {
                    assert(s1[j as int] == x);
                }
            }
            assert(table@ =~= m.union_prefer_right(Map::new(
                |x: Seq<char>| nv.subrange(0, (j + 1) as int).contains(x),
                |x: Seq<char>| local_info(x, ns),
            )));
        }
        j = j + 1;
    }
    proof {
        let nv = new_names.deep_view();
        assert(nv.subrange(0, q as int) =~= nv);
        assert(names.subrange(0, n as int) =~= names);
        assert forall|x: Seq<char>| #![auto] nv.contains(x) <==> (spec_bare_type_names(item_impl.self_ty).contains(x) && !is_primitive(x) && !m.contains_key(x)) by {
            if nv.contains(x) {
                let k = choose|k: int| 0 <= k < nv.len() && nv[k] == x;
                assert(new_names@[k]@ == x);
                assert(names.contains(x));
                assert(names.to_set().contains(x));
            }
            if spec_bare_type_names(item_impl.self_ty).contains(x) && !is_primitive(x) && !m.contains_key(x) {
                assert(names.to_set().contains(x));
                let k = choose|k: int| 0 <= k < names.len() && names[k] == x;
                assert(!is_primitive(names[k]) && !m.contains_key(names[k]));
            }
        }
        assert(table@ =~= impl_table(m, item_impl.self_ty, ns));
    }
    let ms = &item_impl.methods;
    let mcount = ms.len();
    let mut k: usize = 0;
    assert(ms@.subrange(0, mcount as int) =~= ms@);
    while k < mcount
        invariant
            k <= mcount,
            mcount == ms@.len(),
            ms@ == item_impl.methods@,
            m == lookup_table@,
            ns == target.qbNamespace.deep_view(),
            table@ == impl_table(m, item_impl.self_ty, ns),
            methods_ok(ms@.subrange(k as int, mcount as int), target.qbName@),
            methods_result(ms@, target.qbName@, table@) == methods_result(ms@.subrange(k as int, mcount as int), target.qbName@, table@),
        decreases mcount - k,
    {
        let ghost rest = ms@.subrange(k as int, mcount as int);
        assert(rest[0] == ms@[k as int]);
        assert(rest.subrange(1, rest.len() as int) =~= ms@.subrange((k + 1) as int, mcount as int));
        let res = check_function(&ms[k], target, &table);
        if res.is_some() {
            assert(methods_result(rest, target.qbName@, table@) == sig_result(rest[0], target.qbName@, table@));
            return res;
        }
        assert(methods_result(rest, target.qbName@, table@)
            == methods_result(rest.subrange(1, rest.len() as int), target.qbName@, table@));
        k = k + 1;
    }
    None
}

/// Searches the items of a module, in order, for the function `target` names,
/// and returns the types of its arguments and result; `use` statements and
/// type definitions met on the way tell where the types come from.
pub fn traverse_item_tree(items: &Vec<Item>, target: &SfDependency) -> (r: Option<(Vec<Type>, Type)>)
    requires
        traverse_ok(items@, Map::empty(), target.qbNamespace.deep_view(), target.qbName@),
    ensures
        result_view(r) == spec_traverse(items@, Map::empty(), target.qbNamespace.deep_view(), target.qbName@),
{
    let ghost ns = target.qbNamespace.deep_view();
    let ghost name = target.qbName@;
    let mut lookup_table = LookupTable::new();
    let n = items.len();
    let mut i: usize = 0;
    assert(items@.subrange(0, n as int) =~= items@);
    while i < n
        invariant
            i <= n,
            n == items@.len(),
            ns == target.qbNamespace.deep_view(),
            name == target.qbName@,
            traverse_ok(items@.subrange(i as int, n as int), lookup_table@, ns, name),
            spec_traverse(items@, Map::empty(), ns, name) == spec_traverse(items@.subrange(i as int, n as int), lookup_table@, ns, name),
        decreases n - i,
    {
        let ghost rest = items@.subrange(i as int, n as int);
        let ghost m = lookup_table@;
        assert(rest[0] == items@[i as int]);
        assert(rest.subrange(1, rest.len() as int) =~= items@.subrange((i + 1) as int, n as int));
        let result = match &items[i] {
            Item::Use(item_use) => {
                let stmt = resolve_use_stmt(item_use, None);
                lookup_table.extend(stmt);
                None
            },
            Item::Fn(item_fn) => check_function(item_fn, target, &lookup_table),
            Item::Type(id) => {
                let (k, info) = lookup_info_from(id, target);
                lookup_table.insert(k, info);
                None
            },
            Item::Struct(id) => {
                let (k, info) = lookup_info_from(id, target);
                lookup_table.insert(k, info);
                None
            },
            Item::Enum(id) => {
                let (k, info) = lookup_info_from(id, target);
                lookup_table.insert(k, info);
                None
            },
            Item::Union(id) => {
                let (k, info) = lookup_info_from(id, target);
                lookup_table.insert(k, info);
                None
            },
            Item::Impl(item_impl) => traverse_impl_tree(item_impl, target, lookup_table.copy()),
            _ => None,
        };
        assert(result_view(result) == item_result(items@[i as int], m, ns, name));
        assert(lookup_table@ == item_step(items@[i as int], m, ns) || result is Some);
        if result.is_some() {
            return result;
        }
        i = i + 1;
    }
    None
}

/// Whether the analysis accepts every part of the type (see `paths_ok`).
pub fn check_paths_ok(t: &TypeExpr) -> (r: bool)
    ensures
        r == paths_ok(*t),
    decreases t,
{
    match t {
        TypeExpr::Slice(e) => check_paths_ok(e),
        TypeExpr::Array(e) => check_paths_ok(e),
        TypeExpr::Ptr(e) => check_paths_ok(e),
        TypeExpr::Reference(e) => check_paths_ok(e),
        TypeExpr::BareFn(ins, out) => {
            let a = check_list_paths_ok(ins);
            let b = match out {
                Some(r) => check_paths_ok(r),
                None => true,
            };
            a && b
        },
        TypeExpr::Tuple(es) => check_list_paths_ok(es),
        TypeExpr::Path(segs) => segs.len() > 0,
        TypeExpr::Paren(e) => check_paths_ok(e),
        TypeExpr::Group(e) => check_paths_ok(e),
        TypeExpr::Verbatim => true,
        _ => false,
    }
}

fn check_list_paths_ok(ts: &Vec<TypeExpr>) -> (r: bool)
    ensures
        r == list_paths_ok(ts@),
    decreases ts,
{
    let n = ts.len();
    let mut ok = true;
    let mut i: usize = 0;
    assert(ts@.subrange(0, 0) =~= Seq::<TypeExpr>::empty());
    while i < n
        invariant
            i <= n,
            n == ts@.len(),
            ok == list_paths_ok(ts@.subrange(0, i as int)),
        decreases n - i,
    {
        proof {
            assert(decreases_to!(ts => ts@));
            assert(decreases_to!(ts@ => ts@[i as int]));
        }
        let b = check_paths_ok(&ts[i]);
        let ghost next = ts@.subrange(0, (i + 1) as int);
        assert(next.subrange(0, next.len() - 1) =~= ts@.subrange(0, i as int));
        assert(next[next.len() - 1] == ts@[i as int]);
        ok = ok && b;
        i = i + 1;
    }
    assert(ts@.subrange(0, n as int) =~= ts@);
    ok
}

/// Whether the function, if it is the one named, has types the analysis accepts.
fn check_sig_ok(sig: &FnSig, name: &String) -> (r: bool)
    ensures
        r == sig_ok(*sig, name@),
{
    if sig.ident != *name {
        return true;
    }
    let n = sig.inputs.len();
    let mut i: usize = 0;
    while i < n
        invariant
            i <= n,
            n == sig.inputs@.len(),
            sig.ident@ == name@,
            forall|k: int| 0 <= k < i ==> (#[trigger] sig.inputs@[k] matches FnArg::Typed(a) ==> paths_ok(a.ty)),
        decreases n - i,
    {
        match &sig.inputs[i] {
            FnArg::Typed(a) => {
                if !check_paths_ok(&a.ty) {
                    assert(!(sig.inputs@[i as int] matches FnArg::Typed(x) ==> paths_ok(x.ty)));
                    return false;
                }
            },
            FnArg::Receiver => {},
        }
        i = i + 1;
    }
    match &sig.output {
        Some(a) => check_paths_ok(&a.ty),
        None => true,
    }
}

proof fn lemma_methods_result_none(ms: Seq<FnSig>, name: Seq<char>, m: Map<Seq<char>, LookupInfoM>)
    ensures
        methods_result(ms, name, m) is None <==> forall|k: int| 0 <= k < ms.len() ==> (#[trigger] ms[k]).ident@ != name,
    decreases ms.len(),
{
    if ms.len() > 0 {
        let rest = ms.subrange(1, ms.len() as int);
        lemma_methods_result_none(rest, name, m);
        assert forall|k: int| 0 <= k < rest.len() implies #[trigger] rest[k] == ms[k + 1] by {}
        if forall|k: int| 0 <= k < ms.len() ==> (#[trigger] ms[k]).ident@ != name {
            assert(ms[0].ident@ != name);
            assert forall|k: int| 0 <= k < rest.len() implies (#[trigger] rest[k]).ident@ != name by {
                assert(ms[k + 1].ident@ != name);
            }
        } else if ms[0].ident@ != name {
            let k = choose|k: int| 0 <= k < ms.len() && (#[trigger] ms[k]).ident@ == name;
            assert(rest[k - 1].ident@ == name);
        }
    }
}

/// Whether the first method that is the one named has types the analysis accepts.
fn check_methods_ok(ms: &Vec<FnSig>, name: &String) -> (r: bool)
    ensures
        r == methods_ok(ms@, name@),
{
    let n = ms.len();
    let mut k: usize = 0;
    assert(ms@.subrange(0, n as int) =~= ms@);
    while k < n
        invariant
            k <= n,
            n == ms@.len(),
            methods_ok(ms@, name@) == methods_ok(ms@.subrange(k as int, n as int), name@),
        decreases n - k,
    {
        let ghost rest = ms@.subrange(k as int, n as int);
        assert(rest[0] == ms@[k as int]);
        assert(rest.subrange(1, rest.len() as int) =~= ms@.subrange((k + 1) as int, n as int));
        if ms[k].ident == *name {
            return check_sig_ok(&ms[k], name);
        }
        k = k + 1;
    }
    true
}

/// Whether the item that holds the function `target` names has types the
/// analysis accepts (see `traverse_ok`); `traverse_item_tree` panics on no others.
pub fn check_traverse_ok(items: &Vec<Item>, target: &SfDependency) -> (r: bool)
    ensures
        r == traverse_ok(items@, Map::empty(), target.qbNamespace.deep_view(), target.qbName@),
{
    let ghost ns = target.qbNamespace.deep_view();
    let ghost name = target.qbName@;
    let ghost mut m: Map<Seq<char>, LookupInfoM> = Map::empty();
    let n = items.len();
    let mut i: usize = 0;
    assert(items@.subrange(0, n as int) =~= items@);
    while i < n
        invariant
            i <= n,
            n == items@.len(),
            ns == target.qbNamespace.deep_view(),
            name == target.qbName@,
            traverse_ok(items@, Map::empty(), ns, name) == traverse_ok(items@.subrange(i as int, n as int), m, ns, name),
        decreases n - i,
    {
        let ghost rest = items@.subrange(i as int, n as int);
        assert(rest[0] == items@[i as int]);
        assert(rest.subrange(1, rest.len() as int) =~= items@.subrange((i + 1) as int, n as int));
        match &items[i] {
            Item::Fn(sig) => {
                if sig.ident == target.qbName {
                    return check_sig_ok(sig, &target.qbName);
                }
            },
            Item::Impl(b) => {
                let ok = check_methods_ok(&b.methods, &target.qbName);
                proof { lemma_methods_result_none(b.methods@, name, impl_table(m, b.self_ty, ns)); }
                if !ok {
                    return false;
                }
                let mut hit = false;
                let mut k: usize = 0;
                while k < b.methods.len()
                    invariant
                        k <= b.methods@.len(),
                        name == target.qbName@,
                        hit == exists|q: int| 0 <= q < k && (#[trigger] b.methods@[q]).ident@ == name,
                    decreases b.methods@.len() - k,
                {
                    if b.methods[k].ident == target.qbName {
                        hit = true;
                    }
                    k = k + 1;
                }
                if hit {
                    return true;
                }
            },
            _ => {},
        }
        proof { m = item_step(items@[i as int], m, ns); }
        i = i + 1;
    }
    true
}

/// The items of a parsed source file.
pub struct SourceFile {
    pub items: Vec<Item>,
}

/// Name and type information for a single function.
pub struct FunctionInfo {
    /// the function name
    pub name: String,
    /// namespace the function lives in
    pub namespace: Vec<String>,
    /// argument types the function takes
    pub arguments: Vec<Type>,
    /// return type of the function
    pub return_val: Type,
}

impl FunctionInfo {
    /// Extracts the type information of the function `dep` names from the syntax
    /// tree of its module; when the module does not define it, the error names the
    /// function and its namespace (joined by `::`).
    pub fn extract(dep: SfDependency, tree: SourceFile) -> (r: Result<FunctionInfo, TypeExtractionError>)
        requires
            traverse_ok(tree.items@, Map::empty(), dep.qbNamespace.deep_view(), dep.qbName@),
        ensures
            match spec_traverse(tree.items@, Map::empty(), dep.qbNamespace.deep_view(), dep.qbName@) {
                Some(found) => r matches Ok(info) && {
                    &&& info.name@ == dep.qbName@
                    &&& info.namespace == dep.qbNamespace
                    &&& info.arguments@.map_values(|t: Type| t@) == found.0
                    &&& info.return_val@ == found.1
                },
                None => r matches Err(TypeExtractionError::FunctionNotFoundInModule(f, m))
                    && f@ == dep.qbName@ && m@ == joined_path(dep.qbNamespace.deep_view()),
            },
    {
        match traverse_item_tree(&tree.items, &dep) {
            Some((args, retval)) => Ok(FunctionInfo {
                name: dep.qbName,
                namespace: dep.qbNamespace,
                arguments: args,
                return_val: retval,
            }),
            None => {
                let m = join_path(&dep.qbNamespace);
                Err(TypeExtractionError::FunctionNotFoundInModule(dep.qbName, m))
            },
        }
    }
}

} // verus!
