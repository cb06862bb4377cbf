//! Unification of a statement into a tree of options.
//!
//! The options of the command line language nest: a method holds blocks
//! (such as `adapt`) and choices (such as `algorithm=hmc`), whose chosen
//! variant holds options of its own. A schema lists, for every scope of
//! the tree, the entries that may appear in it. A statement is read term
//! by term: a term names an entry of the scope currently open or, failing
//! that, of one of the scopes that enclose it; it then sets that entry
//! and opens the scope the entry leads to. The last value given to an
//! option wins, and every variant of a choice keeps its own options.
use vstd::prelude::*;
use crate::parser::{GrammarParser, Term, Token, terms, token_fits, token_views};
use crate::text::{IntErrorKind, chars_of};
use crate::unify::{
    Kind, Setting, Value, chars_eq, conforms, conforms_exec, opt_setting, setting_of,
    setting_of_exec,
};

verus! {

/// What an entry of a schema is.
#[derive(Debug, Clone, Copy, PartialEq, Eq, Structural)]
pub enum Role {
    /// An option whose values are of this kind.
    Value(Kind),
    /// A block: its keyword opens the scope with this number.
    Block(usize),
    /// A choice among variants; the number is that of its default variant.
    Choice(usize),
    /// A variant's name used alone to choose it: the entry of the choice
    /// and the number of the variant.
    Shortcut(usize, usize),
}

/// An entry of a schema.
#[derive(Debug, Clone, Copy)]
pub struct Entry {
    /// The keyword.
    pub name: &'static str,
    /// The scope the entry belongs to.
    pub scope: usize,
    /// What the entry is.
    pub role: Role,
    /// The entry may be declared only once. The one exception: a bare
    /// declaration directly followed by a declaration of the same entry
    /// with a value (`method method=sample`) counts as one.
    pub once: bool,
}

/// A variant of a choice.
#[derive(Debug, Clone, Copy)]
pub struct Variant {
    /// The entry of the choice.
    pub choice: usize,
    /// The variant's name.
    pub name: &'static str,
    /// The scope of the variant's options.
    pub scope: usize,
}

/// A schema: for each scope the scope that encloses it (the outermost
/// encloses itself), the entries, and the variants of the choices.
#[derive(Debug, Clone)]
pub struct Schema {
    /// The enclosing scope of each scope.
    pub parents: Vec<usize>,
    /// The entries.
    pub entries: Vec<Entry>,
    /// The variants.
    pub variants: Vec<Variant>,
}

/// Model of an entry.
pub struct EntrySpec {
    /// The keyword.
    pub name: Seq<char>,
    /// The scope the entry belongs to.
    pub scope: nat,
    /// What the entry is.
    pub role: Role,
    /// The entry may be declared only once.
    pub once: bool,
}

/// Model of a variant.
pub struct VariantSpec {
    /// The entry of the choice.
    pub choice: nat,
    /// The variant's name.
    pub name: Seq<char>,
    /// The scope of the variant's options.
    pub scope: nat,
}

/// Model of a schema.
pub struct SchemaSpec {
    /// The enclosing scope of each scope.
    pub parents: Seq<nat>,
    /// The entries.
    pub entries: Seq<EntrySpec>,
    /// The variants.
    pub variants: Seq<VariantSpec>,
}

impl View for Entry {
    type V = EntrySpec;

    open spec fn view(&self) -> EntrySpec {
        EntrySpec { name: self.name@, scope: self.scope as nat, role: self.role, once: self.once }
    }
}

impl View for Variant {
    type V = VariantSpec;

    open spec fn view(&self) -> VariantSpec {
        VariantSpec { choice: self.choice as nat, name: self.name@, scope: self.scope as nat }
    }
}

impl View for Schema {
    type V = SchemaSpec;

    open spec fn view(&self) -> SchemaSpec {
        SchemaSpec {
            parents: Seq::new(self.parents@.len(), |i: int| self.parents@[i] as nat),
            entries: Seq::new(self.entries@.len(), |i: int| self.entries@[i]@),
            variants: Seq::new(self.variants@.len(), |i: int| self.variants@[i]@),
        }
    }
}

/// The first entry from `j` on that belongs to `scope` and has keyword
/// `key`.
pub open spec fn find_in_scope(sc: SchemaSpec, scope: int, key: Seq<char>, j: int) -> Option<int>
    decreases sc.entries.len() - j,
{
    if j < 0 || j >= sc.entries.len() {
        None
    } else if sc.entries[j].scope == scope && sc.entries[j].name == key {
        Some(j)
    } else {
        find_in_scope(sc, scope, key, j + 1)
    }
}

/// The entry that `key` names when `scope` is open: one of `scope`, or
/// else of the scopes that enclose it, the innermost first.
pub open spec fn resolve(sc: SchemaSpec, scope: int, key: Seq<char>) -> Option<int>
    decreases scope,
{
    if scope < 0 || scope >= sc.parents.len() {
        None
    } else {
        match find_in_scope(sc, scope, key, 0) {
            Some(e) => Some(e),
            None => if sc.parents[scope] < scope {
                resolve(sc, sc.parents[scope] as int, key)
            } else {
                None
            },
        }
    }
}

/// The first variant from `k` on of the choice `choice` named `name`.
pub open spec fn find_variant_from(sc: SchemaSpec, choice: int, name: Seq<char>, k: int) -> Option<
    int,
>
    decreases sc.variants.len() - k,
{
    if k < 0 || k >= sc.variants.len() {
        None
    } else if sc.variants[k].choice == choice && sc.variants[k].name == name {
        Some(k)
    } else {
        find_variant_from(sc, choice, name, k + 1)
    }
}

/// Model of the state of a unification.
pub struct TreeModel {
    /// The scope open.
    pub scope: int,
    /// The value given to each option entry.
    pub slots: Seq<Option<Setting>>,
    /// The variant chosen for each choice entry (`None`: the default).
    pub chosen: Seq<Option<int>>,
    /// The entries declared so far.
    pub seen: Seq<bool>,
    /// For each scope, the entry last declared in it and whether that
    /// declaration was bare (without a value).
    pub last: Seq<Option<(int, bool)>>,
    /// The entry of the term just read, and whether it was bare.
    pub prev: Option<(int, bool)>,
    /// The first integer value that did not fit its option.
    pub int_fault: Option<IntErrorKind>,
}

/// Why a statement is refused by a tree unification (model).
pub enum TreeFault {
    /// The statement does not conform to the grammar at this position.
    Grammar(int),
    /// An integer value does not fit its option.
    Int(IntErrorKind),
    /// The entry with this number was declared more than once.
    Duplicate(int),
}

/// The state before any term: the outermost scope open, nothing given.
pub open spec fn tree_start(sc: SchemaSpec) -> TreeModel {
    TreeModel {
        scope: 0,
        slots: Seq::new(sc.entries.len(), |_i: int| None),
        chosen: Seq::new(sc.entries.len(), |_i: int| None),
        seen: Seq::new(sc.entries.len(), |_i: int| false),
        last: Seq::new(sc.parents.len(), |_i: int| None),
        prev: None,
        int_fault: None,
    }
}

/// The state after the option entry `e` of scope `c` is given the term
/// `t`.
pub open spec fn step_value(st: TreeModel, e: int, c: int, k: Kind, t: Term) -> Result<
    TreeModel,
    TreeFault,
> {
    match t.value {
        None => Ok(TreeModel { scope: c, ..st }),
        Some(v) => if !conforms(k, v) {
            Err(TreeFault::Grammar((t.start + t.key.len() + 1) as int))
        } else {
            match setting_of(k, v) {
                Ok(x) => Ok(TreeModel { scope: c, slots: st.slots.update(e, Some(x)), ..st }),
                Err(ie) => Ok(
                    TreeModel {
                        scope: c,
                        int_fault: if st.int_fault is Some {
                            st.int_fault
                        } else {
                            Some(ie)
                        },
                        ..st
                    },
                ),
            }
        },
    }
}

/// The state after the term `t`, or why `t` is refused.
pub open spec fn tree_step(sc: SchemaSpec, st: TreeModel, t: Term) -> Result<TreeModel, TreeFault> {
    match resolve(sc, st.scope, t.key) {
        None => Err(TreeFault::Grammar(t.start as int)),
        Some(e) => {
            let en = sc.entries[e];
            let c = en.scope as int;
            let bare = t.value is None;
            let vpos = (t.start + t.key.len() + 1) as int;
            if c >= sc.parents.len() {
                Err(TreeFault::Grammar(t.start as int))
            } else if en.once && st.seen[e] && !(st.prev == Some((e, true)) && !bare) {
                Err(TreeFault::Duplicate(e))
            } else if bare && st.last[c] == Some((e, true)) {
                Err(TreeFault::Grammar(t.start as int))
            } else {
                let st1 = TreeModel {
                    seen: st.seen.update(e, true),
                    last: st.last.update(c, Some((e, bare))),
                    prev: Some((e, bare)),
                    ..st
                };
                match en.role {
                    Role::Value(k) => step_value(st1, e, c, k, t),
                    Role::Block(s) => if !bare {
                        Err(TreeFault::Grammar(vpos))
                    } else if s >= sc.parents.len() {
                        Err(TreeFault::Grammar(t.start as int))
                    } else {
                        Ok(TreeModel { scope: s as int, last: st1.last.update(s as int, None), ..st1 })
                    },
                    Role::Choice(d) => {
                        let k = match t.value {
                            None => Some(
                                match st.chosen[e] {
                                    Some(k) => k,
                                    None => d as int,
                                },
                            ),
                            Some(v) => find_variant_from(sc, e, v, 0),
                        };
                        match k {
                            None => Err(TreeFault::Grammar(vpos)),
                            Some(k) => if k < 0 || k >= sc.variants.len() || sc.variants[k].scope
                                >= sc.parents.len() {
                                Err(TreeFault::Grammar(t.start as int))
                            } else {
                                let ns = sc.variants[k].scope as int;
                                Ok(
                                    TreeModel {
                                        scope: ns,
                                        chosen: if bare {
                                            st1.chosen
                                        } else {
                                            st1.chosen.update(e, Some(k))
                                        },
                                        last: st1.last.update(ns, None),
                                        ..st1
                                    },
                                )
                            },
                        }
                    },
                    Role::Shortcut(ch, k) => if !bare {
                        Err(TreeFault::Grammar(vpos))
                    } else if ch >= sc.entries.len() || k >= sc.variants.len()
                        || sc.variants[k as int].scope >= sc.parents.len() || st.chosen[ch as int] is Some {
                        Err(TreeFault::Grammar(t.start as int))
                    } else if sc.entries[ch as int].once && st.seen[ch as int] {
                        Err(TreeFault::Duplicate(ch as int))
                    } else {
                        let ns = sc.variants[k as int].scope as int;
                        Ok(
                            TreeModel {
                                scope: ns,
                                chosen: st1.chosen.update(ch as int, Some(k as int)),
                                seen: st1.seen.update(ch as int, true),
                                last: st1.last.update(ns, None),
                                ..st1
                            },
                        )
                    },
                }
            }
        },
    }
}

/// The state after the terms `ts[0..n]`, or why they are refused.
pub open spec fn tree_from(sc: SchemaSpec, ts: Seq<Term>, n: int) -> Result<TreeModel, TreeFault>
    decreases n,
{
    if n <= 0 {
        Ok(tree_start(sc))
    } else {
        match tree_from(sc, ts, n - 1) {
            Err(f) => Err(f),
            Ok(st) => tree_step(sc, st, ts[n - 1]),
        }
    }
}

/// The options that statement `s` gives under schema `sc`, or why it is
/// refused: a grammar fault anywhere comes before an integer that does
/// not fit.
pub open spec fn tree_unify(sc: SchemaSpec, s: Seq<char>) -> Result<TreeModel, TreeFault> {
    match terms(s) {
        Err(p) => Err(TreeFault::Grammar(p)),
        Ok(ts) => if ts.len() == 0 {
            Err(TreeFault::Grammar(s.len() as int))
        } else {
            match tree_from(sc, ts, ts.len() as int) {
                Err(f) => Err(f),
                Ok(st) => match st.int_fault {
                    Some(k) => Err(TreeFault::Int(k)),
                    None => Ok(st),
                },
            }
        },
    }
}

/// Why a statement is refused by a tree unification.
#[derive(Debug, Clone, Copy, PartialEq, Eq, Structural)]
pub enum TreeRefusal {
    /// The statement does not conform to the grammar at this position.
    Grammar(usize),
    /// An integer value does not fit its option.
    Int(IntErrorKind),
    /// The entry with this number was declared more than once.
    Duplicate(usize),
}

impl View for TreeRefusal {
    type V = TreeFault;

    open spec fn view(&self) -> TreeFault {
        match self {
            TreeRefusal::Grammar(p) => TreeFault::Grammar(*p as int),
            TreeRefusal::Int(k) => TreeFault::Int(*k),
            TreeRefusal::Duplicate(e) => TreeFault::Duplicate(*e as int),
        }
    }
}

/// The state of a tree unification: what the statement gives so far.
#[derive(Debug, Clone)]
pub struct TreeState {
    /// The scope open.
    pub scope: usize,
    /// The value given to each option entry.
    pub slots: Vec<Option<Value>>,
    /// The variant chosen for each choice entry (`None`: the default).
    pub chosen: Vec<Option<usize>>,
    /// The entries declared so far.
    pub seen: Vec<bool>,
    /// For each scope, the entry last declared in it and whether that
    /// declaration was bare.
    pub last: Vec<Option<(usize, bool)>>,
    /// The entry of the term just read, and whether it was bare.
    pub prev: Option<(usize, bool)>,
    /// The first integer value that did not fit its option.
    pub int_fault: Option<IntErrorKind>,
}

/// The model of an optional variant number.
pub open spec fn opt_int(o: Option<usize>) -> Option<int> {
    match o {
        Some(k) => Some(k as int),
        None => None,
    }
}

/// The model of an optional last declaration.
pub open spec fn opt_last(o: Option<(usize, bool)>) -> Option<(int, bool)> {
    match o {
        Some(p) => Some((p.0 as int, p.1)),
        None => None,
    }
}

impl View for TreeState {
    type V = TreeModel;

    open spec fn view(&self) -> TreeModel {
        TreeModel {
            scope: self.scope as int,
            slots: Seq::new(self.slots@.len(), |i: int| opt_setting(self.slots@[i])),
            chosen: Seq::new(self.chosen@.len(), |i: int| opt_int(self.chosen@[i])),
            seen: self.seen@,
            last: Seq::new(self.last@.len(), |i: int| opt_last(self.last@[i])),
            prev: opt_last(self.prev),
            int_fault: self.int_fault,
        }
    }
}

/// The state is sized for the schema.
pub open spec fn sized(sc: SchemaSpec, st: TreeState) -> bool {
    &&& st.slots@.len() == sc.entries.len()
    &&& st.chosen@.len() == sc.entries.len()
    &&& st.seen@.len() == sc.entries.len()
    &&& st.last@.len() == sc.parents.len()
}

fn find_in_scope_exec(sc: &Schema, scope: usize, key: &[char]) -> (r: Option<usize>)
    ensures
        match r {
            Some(e) => find_in_scope(sc@, scope as int, key@, 0) == Some(e as int) && e
                < sc.entries@.len(),
            None => find_in_scope(sc@, scope as int, key@, 0) is None,
        },
{
    let ghost v = sc@;
    let mut j: usize = 0;
    while j < sc.entries.len()
        invariant
            v == sc@,
            0 <= j <= sc.entries@.len(),
            find_in_scope(v, scope as int, key@, 0) == find_in_scope(v, scope as int, key@, j as int),
        decreases sc.entries@.len() - j,
    {
        let en = &sc.entries[j];
        proof {
            assert(v.entries[j as int] == sc.entries@[j as int]@);
        }
        if en.scope == scope {
            let name = chars_of(en.name);
            if chars_eq(name.as_slice(), key) {
                return Some(j);
            }
        }
        j = j + 1;
    }
    None
}

fn resolve_exec(sc: &Schema, scope: usize, key: &[char]) -> (r: Option<usize>)
    ensures
        match r {
            Some(e) => resolve(sc@, scope as int, key@) == Some(e as int) && e < sc.entries@.len(),
            None => resolve(sc@, scope as int, key@) is None,
        },
{
    let ghost v = sc@;
    let mut cur = scope;
    loop
        invariant
            v == sc@,
            resolve(v, scope as int, key@) == resolve(v, cur as int, key@),
        decreases cur,
    {
        if cur >= sc.parents.len() {
            return None;
        }
        match find_in_scope_exec(sc, cur, key) {
            Some(e) => {
                return Some(e);
            },
            None => {
                let p = sc.parents[cur];
                proof {
                    assert(v.parents[cur as int] == p as nat);
                }
                if p < cur {
                    cur = p;
                } else {
                    return None;
                }
            },
        }
    }
}

fn find_variant_exec(sc: &Schema, choice: usize, name: &[char]) -> (r: Option<usize>)
    ensures
        match r {
            Some(k) => find_variant_from(sc@, choice as int, name@, 0) == Some(k as int),
            None => find_variant_from(sc@, choice as int, name@, 0) is None,
        },
{
    let ghost v = sc@;
    let mut k: usize = 0;
    while k < sc.variants.len()
        invariant
            v == sc@,
            0 <= k <= sc.variants@.len(),
            find_variant_from(v, choice as int, name@, 0) == find_variant_from(
                v,
                choice as int,
                name@,
                k as int,
            ),
        decreases sc.variants@.len() - k,
    {
        let va = &sc.variants[k];
        proof {
            assert(v.variants[k as int] == sc.variants@[k as int]@);
        }
        if va.choice == choice {
            let n = chars_of(va.name);
            if chars_eq(n.as_slice(), name) {
                return Some(k);
            }
        }
        k = k + 1;
    }
    None
}

fn last_is_bare(l: Option<(usize, bool)>, e: usize) -> (b: bool)
    ensures
        b == (opt_last(l) == Some((e as int, true))),
{
    match l {
        Some((le, lb)) => le == e && lb,
        None => false,
    }
}

/// Applies the term `t` to the state `st`.
#[verifier::rlimit(40)]
fn tree_step_exec(sc: &Schema, st: &mut TreeState, t: &Token) -> (r: Result<(), TreeRefusal>)
    requires
        sized(sc@, *old(st)),
        token_fits(*t, usize::MAX as nat),
    ensures
        match r {
            Ok(()) => tree_step(sc@, old(st)@, t@) == Ok::<TreeModel, TreeFault>(final(st)@) && sized(
                sc@,
                *final(st),
            ),
            Err(f) => tree_step(sc@, old(st)@, t@) == Err::<TreeModel, TreeFault>(f@),
        },
        r matches Err(TreeRefusal::Duplicate(d)) ==> d < sc.entries@.len(),
{
    let ghost v = sc@;
    let ghost st0 = st@;
    let e = match resolve_exec(sc, st.scope, t.key.as_slice()) {
        None => {
            return Err(TreeRefusal::Grammar(t.start));
        },
        Some(e) => e,
    };
    let en = sc.entries[e];
    proof {
        assert(v.entries[e as int] == en@);
    }
    let c = en.scope;
    let bare = t.value.is_none();
    if c >= sc.parents.len() {
        return Err(TreeRefusal::Grammar(t.start));
    }
    proof {
        assert(st0.last[c as int] == opt_last(st.last@[c as int]));
        assert(st0.seen[e as int] == st.seen@[e as int]);
    }
    if en.once && st.seen[e] && !(last_is_bare(st.prev, e) && !bare) {
        return Err(TreeRefusal::Duplicate(e));
    }
    if bare && last_is_bare(st.last[c], e) {
        return Err(TreeRefusal::Grammar(t.start));
    }
    let ch_seen = match en.role {
        Role::Shortcut(ch, _) => ch < sc.entries.len() && st.seen[ch],
        _ => false,
    };
    let ghost st1 = TreeModel {
        seen: st0.seen.update(e as int, true),
        last: st0.last.update(c as int, Some((e as int, bare))),
        prev: Some((e as int, bare)),
        ..st0
    };
    st.seen.set(e, true);
    st.last.set(c, Some((e, bare)));
    st.prev = Some((e, bare));
    proof {
        assert(st@.seen =~= st1.seen);
        assert(st@.last =~= st1.last);
        assert(st@.slots =~= st1.slots);
        assert(st@.chosen =~= st1.chosen);
        assert(st@ == st1);
    }
    match en.role {
        Role::Value(k) => {
            match &t.value {
                None => {
                    st.scope = c;
                    Ok(())
                },
                Some(val) => {
                    if !conforms_exec(k, val.as_slice()) {
                        return Err(TreeRefusal::Grammar(t.start + t.key.len() + 1));
                    }
                    match setting_of_exec(k, val) {
                        Ok(x) => {
                            let ghost xs = x@;
                            st.slots.set(e, Some(x));
                            st.scope = c;
                            proof {
                                assert(st@.slots =~= st1.slots.update(e as int, Some(xs)));
                            }
                            Ok(())
                        },
                        Err(ie) => {
                            if st.int_fault.is_none() {
                                st.int_fault = Some(ie);
                            }
                            st.scope = c;
                            Ok(())
                        },
                    }
                },
            }
        },
        Role::Block(s) => {
            if !bare {
                return Err(TreeRefusal::Grammar(t.start + t.key.len() + 1));
            }
            if s >= sc.parents.len() {
                return Err(TreeRefusal::Grammar(t.start));
            }
            st.last.set(s, None);
            st.scope = s;
            proof {
                assert(st@.last =~= st1.last.update(s as int, None));
            }
            Ok(())
        },
        Role::Choice(d) => {
            let k: usize = match &t.value {
                None => match st.chosen[e] {
                    Some(k) => k,
                    None => d,
                },
                Some(val) => match find_variant_exec(sc, e, val.as_slice()) {
                    None => {
                        return Err(TreeRefusal::Grammar(t.start + t.key.len() + 1));
                    },
                    Some(k) => k,
                },
            };
            proof {
                assert(st1.chosen[e as int] == opt_int(st.chosen@[e as int]));
            }
            if k >= sc.variants.len() {
                return Err(TreeRefusal::Grammar(t.start));
            }
            let va = sc.variants[k];
            proof {
                assert(v.variants[k as int] == va@);
            }
            if va.scope >= sc.parents.len() {
                return Err(TreeRefusal::Grammar(t.start));
            }
            let ns = va.scope;
            if !bare {
                st.chosen.set(e, Some(k));
            }
            st.last.set(ns, None);
            st.scope = ns;
            proof {
                assert(st@.last =~= st1.last.update(ns as int, None));
                if !bare {
                    assert(st@.chosen =~= st1.chosen.update(e as int, Some(k as int)));
                } else {
                    assert(st@.chosen =~= st1.chosen);
                }
            }
            Ok(())
        },
        Role::Shortcut(ch, k) => {
            if !bare {
                return Err(TreeRefusal::Grammar(t.start + t.key.len() + 1));
            }
            if ch >= sc.entries.len() || k >= sc.variants.len() {
                return Err(TreeRefusal::Grammar(t.start));
            }
            let va = sc.variants[k];
            proof {
                assert(v.variants[k as int] == va@);
                assert(st1.chosen[ch as int] == opt_int(st.chosen@[ch as int]));
            }
            if va.scope >= sc.parents.len() || st.chosen[ch].is_some() {
                return Err(TreeRefusal::Grammar(t.start));
            }
            let che = sc.entries[ch];
            proof {
                assert(v.entries[ch as int] == che@);
            }
            if che.once && ch_seen {
                return Err(TreeRefusal::Duplicate(ch));
            }
            let ns = va.scope;
            st.chosen.set(ch, Some(k));
            st.seen.set(ch, true);
            st.last.set(ns, None);
            st.scope = ns;
            proof {
                assert(st@.last =~= st1.last.update(ns as int, None));
                assert(st@.chosen =~= st1.chosen.update(ch as int, Some(k as int)));
                assert(st@.seen =~= st1.seen.update(ch as int, true));
            }
            Ok(())
        },
    }
}

fn tree_start_exec(sc: &Schema) -> (st: TreeState)
    ensures
        st@ == tree_start(sc@),
        sized(sc@, st),
{
    let n = sc.entries.len();
    let mut slots: Vec<Option<Value>> = Vec::new();
    let mut chosen: Vec<Option<usize>> = Vec::new();
    let mut seen: Vec<bool> = Vec::new();
    let mut i: usize = 0;
    while i < n
        invariant
            n == sc.entries@.len(),
            0 <= i <= n,
            slots@.len() == i,
            chosen@.len() == i,
            seen@.len() == i,
            forall|j: int| 0 <= j < i ==> slots@[j] is None,
            forall|j: int| 0 <= j < i ==> chosen@[j] is None,
            forall|j: int| 0 <= j < i ==> !seen@[j],
        decreases n - i,
    {
        slots.push(None);
        chosen.push(None);
        seen.push(false);
        i = i + 1;
    }
    let m = sc.parents.len();
    let mut last: Vec<Option<(usize, bool)>> = Vec::new();
    let mut j: usize = 0;
    while j < m
        invariant
            m == sc.parents@.len(),
            0 <= j <= m,
            last@.len() == j,
            forall|q: int| 0 <= q < j ==> last@[q] is None,
        decreases m - j,
    {
        last.push(None);
        j = j + 1;
    }
    let st = TreeState { scope: 0, slots, chosen, seen, last, prev: None, int_fault: None };
    proof {
        let a = st@;
        let b = tree_start(sc@);
        assert(a.slots =~= b.slots);
        assert(a.chosen =~= b.chosen);
        assert(a.seen =~= b.seen);
        assert(a.last =~= b.last);
    }
    st
}

/// The options that statement `s` gives under schema `sc`, or why `s` is
/// refused.
#[verifier::loop_isolation(false)]
pub fn unify_tree(sc: &Schema, s: &[char]) -> (r: Result<TreeState, TreeRefusal>)
    ensures
        match r {
            Ok(st) => tree_unify(sc@, s@) == Ok::<TreeModel, TreeFault>(st@) && sized(sc@, st),
            Err(f) => tree_unify(sc@, s@) == Err::<TreeModel, TreeFault>(f@),
        },
        r matches Err(TreeRefusal::Duplicate(d)) ==> d < sc.entries@.len(),
{
    let ts = match GrammarParser::terms(s) {
        Err(p) => {
            return Err(TreeRefusal::Grammar(p));
        },
        Ok(ts) => ts,
    };
    let ghost tv = token_views(ts@);
    if ts.len() == 0 {
        return Err(TreeRefusal::Grammar(s.len()));
    }
    let sl = s.len();
    assert forall|m: int| 0 <= m < ts@.len() implies #[trigger] token_fits(ts@[m], usize::MAX as nat) by {
        assert(token_fits(ts@[m], s@.len()));
    }
    let mut st = tree_start_exec(sc);
    let mut n: usize = 0;
    while n < ts.len()
        invariant
            tv == token_views(ts@),
            0 <= n <= ts@.len(),
            sized(sc@, st),
            tree_from(sc@, tv, n as int) == Ok::<TreeModel, TreeFault>(st@),
        decreases ts@.len() - n,
    {
        proof {
            assert(tv[n as int] == ts@[n as int]@);
            assert(token_fits(ts@[n as int], usize::MAX as nat));
        }
        match tree_step_exec(sc, &mut st, &ts[n]) {
            Err(f) => {
                proof {
                    lemma_tree_fault_stays(sc@, tv, n as int + 1, tv.len() as int);
                }
                return Err(f);
            },
            Ok(()) => {},
        }
        n = n + 1;
    }
    match st.int_fault {
        Some(k) => Err(TreeRefusal::Int(k)),
        None => Ok(st),
    }
}

proof fn lemma_tree_fault_stays(sc: SchemaSpec, ts: Seq<Term>, a: int, b: int)
    requires
        1 <= a <= b,
        tree_from(sc, ts, a) is Err,
    ensures
        tree_from(sc, ts, b) == tree_from(sc, ts, a),
    decreases b - a,
{
    if a < b {
        lemma_tree_fault_stays(sc, ts, a, b - 1);
    }
}

impl Schema {
    /// The entry of `scope` whose keyword is `name`, if there is one.
    pub fn find_entry(&self, scope: usize, name: &str) -> (r: Option<usize>)
        ensures
            match r {
                Some(e) => find_in_scope(self@, scope as int, name@, 0) == Some(e as int) && e
                    < self.entries@.len(),
                None => find_in_scope(self@, scope as int, name@, 0) is None,
            },
    {
        let key = chars_of(name);
        find_in_scope_exec(self, scope, key.as_slice())
    }
}

/// The entry that the term `ts[i]` names, in the state that the terms
/// before it leave (`None` when they are refused or it names none).
pub open spec fn resolved_at(sc: SchemaSpec, ts: Seq<Term>, i: int) -> Option<int> {
    match tree_from(sc, ts, i) {
        Ok(st) => resolve(sc, st.scope, ts[i].key),
        Err(_) => None,
    }
}

proof fn lemma_find_in_scope_range(sc: SchemaSpec, scope: int, key: Seq<char>, j: int)
    ensures
        find_in_scope(sc, scope, key, j) matches Some(x) ==> 0 <= x < sc.entries.len(),
    decreases sc.entries.len() - j,
{
    if 0 <= j < sc.entries.len() {
        lemma_find_in_scope_range(sc, scope, key, j + 1);
    }
}

proof fn lemma_resolve_range(sc: SchemaSpec, scope: int, key: Seq<char>)
    ensures
        resolve(sc, scope, key) matches Some(x) ==> 0 <= x < sc.entries.len(),
    decreases scope,
{
    if 0 <= scope < sc.parents.len() {
        lemma_find_in_scope_range(sc, scope, key, 0);
        if sc.parents[scope] < scope {
            lemma_resolve_range(sc, sc.parents[scope] as int, key);
        }
    }
}

/// What an accepted term changes: it becomes the term just read, the
/// entry it names is declared, nothing declared before is forgotten,
/// and only a value given to that entry changes a value.
proof fn lemma_step_facts(sc: SchemaSpec, st: TreeModel, t: Term, e: int)
    requires
        tree_step(sc, st, t) is Ok,
        resolve(sc, st.scope, t.key) == Some(e),
        st.seen.len() == sc.entries.len(),
        st.slots.len() == sc.entries.len(),
    ensures
        0 <= e < sc.entries.len(),
        ({
            let r = tree_step(sc, st, t)->Ok_0;
            &&& r.prev == Some((e, t.value is None))
            &&& r.seen.len() == st.seen.len()
            &&& r.slots.len() == st.slots.len()
            &&& r.seen[e]
            &&& forall|x: int| 0 <= x < st.seen.len() && st.seen[x] ==> #[trigger] r.seen[x]
            &&& forall|x: int|
                0 <= x < st.slots.len() && (x != e || t.value is None) ==> #[trigger] r.slots[x]
                    == st.slots[x]
        }),
{
    lemma_resolve_range(sc, st.scope, t.key);
    let r = tree_step(sc, st, t)->Ok_0;
    let en = sc.entries[e];
    let bare = t.value is None;
    let seen1 = st.seen.update(e, true);
    assert forall|x: int| 0 <= x < st.seen.len() && st.seen[x] implies #[trigger] seen1[x] by {}
    match en.role {
        Role::Value(k) => {
            assert(r.seen == seen1);
            assert(r.prev == Some((e, bare)));
            assert forall|x: int|
                0 <= x < st.slots.len() && (x != e || t.value is None) implies #[trigger] r.slots[x]
                == st.slots[x] by {}
        },
        Role::Block(_) => {
            assert(r.seen == seen1);
            assert(r.slots == st.slots);
        },
        Role::Choice(_) => {
            assert(r.seen == seen1);
            assert(r.slots == st.slots);
        },
        Role::Shortcut(ch, _) => {
            assert(r.seen == seen1.update(ch as int, true));
            assert(r.slots == st.slots);
            assert forall|x: int| 0 <= x < st.seen.len() && st.seen[x] implies #[trigger] r.seen[x] by {
                assert(seen1[x]);
            }
        },
    }
}

/// An accepted value given to an option entry becomes its value.
proof fn lemma_step_sets(sc: SchemaSpec, st: TreeModel, t: Term, e: int, k: Kind, v: Seq<char>, x: Setting)
    requires
        tree_step(sc, st, t) is Ok,
        resolve(sc, st.scope, t.key) == Some(e),
        sc.entries[e].role == Role::Value(k),
        t.value == Some(v),
        setting_of(k, v) == Ok::<Setting, IntErrorKind>(x),
        0 <= e < st.slots.len(),
    ensures
        tree_step(sc, st, t)->Ok_0.slots[e] == Some(x),
{
}

proof fn lemma_tree_from_sizes(sc: SchemaSpec, ts: Seq<Term>, n: int)
    requires
        tree_from(sc, ts, n) is Ok,
    ensures
        tree_from(sc, ts, n)->Ok_0.seen.len() == sc.entries.len(),
        tree_from(sc, ts, n)->Ok_0.slots.len() == sc.entries.len(),
    decreases n,
{
    if n > 0 {
        lemma_tree_from_sizes(sc, ts, n - 1);
        let st = tree_from(sc, ts, n - 1)->Ok_0;
        let e = resolve(sc, st.scope, ts[n - 1].key)->Some_0;
        lemma_step_facts(sc, st, ts[n - 1], e);
    }
}

/// A term that names an entry declared only once, after it was declared,
/// is refused unless it gives a value directly after a bare declaration.
proof fn lemma_step_duplicate(sc: SchemaSpec, st: TreeModel, t: Term, e: int)
    requires
        resolve(sc, st.scope, t.key) == Some(e),
        sc.entries[e].once,
        st.seen[e],
        !(st.prev == Some((e, true)) && t.value is Some),
    ensures
        tree_step(sc, st, t) is Err,
{
}

proof fn lemma_prefix_accepted(sc: SchemaSpec, ts: Seq<Term>, m: int, n: int)
    requires
        0 <= m <= n,
        tree_from(sc, ts, n) is Ok,
    ensures
        tree_from(sc, ts, m) is Ok,
{
    if 1 <= m && tree_from(sc, ts, m) is Err {
        lemma_tree_fault_stays(sc, ts, m, n);
    }
}

/// After the entry `e`, declared only once, is named by the term `ts[i]`,
/// it stays declared, and the term just read is a bare declaration of `e`
/// only right after `ts[i]`, when `ts[i]` is bare.
proof fn lemma_once_trail(sc: SchemaSpec, ts: Seq<Term>, i: int, k: int, e: int)
    requires
        0 <= i < k,
        resolved_at(sc, ts, i) == Some(e),
        sc.entries[e].once,
        tree_from(sc, ts, k) is Ok,
    ensures
        tree_from(sc, ts, k)->Ok_0.seen[e],
        tree_from(sc, ts, k)->Ok_0.prev == Some((e, true)) ==> k == i + 1 && ts[i].value is None,
    decreases k,
{
    lemma_prefix_accepted(sc, ts, k - 1, k);
    let st = tree_from(sc, ts, k - 1)->Ok_0;
    let t = ts[k - 1];
    lemma_tree_from_sizes(sc, ts, k - 1);
    let e2 = resolve(sc, st.scope, t.key)->Some_0;
    lemma_step_facts(sc, st, t, e2);
    assert(tree_from(sc, ts, k) == tree_step(sc, st, t));
    lemma_prefix_accepted(sc, ts, i, k);
    lemma_resolve_range(sc, tree_from(sc, ts, i)->Ok_0.scope, ts[i].key);
    if k > i + 1 {
        lemma_once_trail(sc, ts, i, k - 1, e);
        lemma_resolve_range(sc, st.scope, t.key);
        if e2 == e && t.value is None {
            lemma_step_duplicate(sc, st, t, e);
        }
    }
}

/// A statement that declares an entry meant to be declared only once a
/// second time is refused, unless the second declaration gives a value
/// directly after a bare first one (`method method=sample`).
pub proof fn law_tree_once(sc: SchemaSpec, s: Seq<char>, ts: Seq<Term>, i: int, j: int, e: int)
    requires
        terms(s) == Ok::<Seq<Term>, int>(ts),
        0 <= i < j < ts.len(),
        resolved_at(sc, ts, i) == Some(e),
        resolved_at(sc, ts, j) == Some(e),
        sc.entries[e].once,
        !(j == i + 1 && ts[i].value is None && ts[j].value is Some),
    ensures
        tree_unify(sc, s) is Err,
{
    let n = ts.len() as int;
    if tree_from(sc, ts, n) is Ok {
        lemma_prefix_accepted(sc, ts, j + 1, n);
        lemma_once_trail(sc, ts, i, j, e);
        let st = tree_from(sc, ts, j)->Ok_0;
        lemma_step_duplicate(sc, st, ts[j], e);
    }
}

/// The value of an option after a statement is the one that the last
/// term naming it with a value gives (each variant of a choice has
/// option entries of its own).
pub proof fn law_tree_last_value(
    sc: SchemaSpec,
    s: Seq<char>,
    ts: Seq<Term>,
    i: int,
    e: int,
    k: Kind,
    v: Seq<char>,
    x: Setting,
)
    requires
        terms(s) == Ok::<Seq<Term>, int>(ts),
        0 <= i < ts.len(),
        resolved_at(sc, ts, i) == Some(e),
        sc.entries[e].role == Role::Value(k),
        ts[i].value == Some(v),
        setting_of(k, v) == Ok::<Setting, IntErrorKind>(x),
        forall|j: int| i < j < ts.len() && #[trigger] resolved_at(sc, ts, j) == Some(e) ==> ts[j].value is None,
        tree_unify(sc, s) is Ok,
    ensures
        tree_unify(sc, s)->Ok_0.slots[e] == Some(x),
{
    lemma_value_trail(sc, ts, i, ts.len() as int, e, k, v, x);
}

proof fn lemma_value_trail(
    sc: SchemaSpec,
    ts: Seq<Term>,
    i: int,
    n: int,
    e: int,
    k: Kind,
    v: Seq<char>,
    x: Setting,
)
    requires
        0 <= i < n <= ts.len(),
        resolved_at(sc, ts, i) == Some(e),
        sc.entries[e].role == Role::Value(k),
        ts[i].value == Some(v),
        setting_of(k, v) == Ok::<Setting, IntErrorKind>(x),
        forall|j: int| i < j < ts.len() && #[trigger] resolved_at(sc, ts, j) == Some(e) ==> ts[j].value is None,
        tree_from(sc, ts, n) is Ok,
    ensures
        tree_from(sc, ts, n)->Ok_0.slots[e] == Some(x),
    decreases n,
{
    lemma_prefix_accepted(sc, ts, n - 1, n);
    let st = tree_from(sc, ts, n - 1)->Ok_0;
    let t = ts[n - 1];
    lemma_tree_from_sizes(sc, ts, n - 1);
    let e2 = resolve(sc, st.scope, t.key)->Some_0;
    lemma_step_facts(sc, st, t, e2);
    assert(tree_from(sc, ts, n) == tree_step(sc, st, t));
    lemma_prefix_accepted(sc, ts, i, n);
    lemma_resolve_range(sc, tree_from(sc, ts, i)->Ok_0.scope, ts[i].key);
    if n - 1 == i {
        lemma_step_sets(sc, st, t, e, k, v, x);
    } else {
        lemma_value_trail(sc, ts, i, n - 1, e, k, v, x);
        assert(resolved_at(sc, ts, n - 1) == Some(e2));
    }
}

} // verus!
