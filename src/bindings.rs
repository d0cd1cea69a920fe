//! Binding tables: what is known of each parameter and each local variable
//! of a function.
use vstd::prelude::*;
use crate::range::ValueRange;
use crate::syntax::{Expr, Param, Stmt};

verus! {

/// What a local variable was initialised with.
#[derive(Debug, PartialEq, Eq)]
pub enum LetInitialization {
    /// A literal: the variable holds exactly that value.
    Range(ValueRange),
    /// Another variable, by name, whose range it shares.
    Dependency(String),
}

impl LetInitialization {
    /// The range, when the initializer gave one directly.
    pub fn as_range(&self) -> (r: Option<ValueRange>)
        ensures
            r == (match *self {
                LetInitialization::Range(v) => Some(v),
                LetInitialization::Dependency(_) => None,
            }),
    {
        match self {
            LetInitialization::Range(v) => Some(*v),
            LetInitialization::Dependency(_) => None,
        }
    }
}

/// A local variable and its initializer.
#[derive(Debug, PartialEq, Eq)]
pub struct LetBinding {
    pub name: String,
    pub init: LetInitialization,
}

/// A parameter and the range of its declared type.
#[derive(Debug, PartialEq, Eq)]
pub struct ParamBinding {
    pub name: String,
    pub range: ValueRange,
}

/// A table read as a map by name, a later entry replacing an earlier one of
/// the same name.
pub open spec fn table_map<V>(s: Seq<(Seq<char>, V)>) -> Map<Seq<char>, V>
    decreases s.len(),
{
    if s.len() == 0 {
        Map::empty()
    } else {
        table_map(s.drop_last()).insert(s.last().0, s.last().1)
    }
}

pub open spec fn local_entries(s: Seq<LetBinding>) -> Seq<(Seq<char>, LetInitialization)> {
    s.map_values(|b: LetBinding| (b.name@, b.init))
}

pub open spec fn param_entries(s: Seq<ParamBinding>) -> Seq<(Seq<char>, ValueRange)> {
    s.map_values(|b: ParamBinding| (b.name@, b.range))
}

/// The local variables of a table, by name.
pub open spec fn local_map(s: Seq<LetBinding>) -> Map<Seq<char>, LetInitialization> {
    table_map(local_entries(s))
}

/// The parameters of a table, by name.
pub open spec fn param_map(s: Seq<ParamBinding>) -> Map<Seq<char>, ValueRange> {
    table_map(param_entries(s))
}

/// The entry at `i` is what the map holds for its name when no later entry
/// has that name.
pub proof fn lemma_table_map_last<V>(s: Seq<(Seq<char>, V)>, i: int)
    requires
        0 <= i < s.len(),
        forall|j: int| i < j < s.len() ==> s[j].0 != s[i].0,
    ensures
        table_map(s).contains_key(s[i].0),
        table_map(s)[s[i].0] == s[i].1,
    decreases s.len(),
{
    if i < s.len() - 1 {
        lemma_table_map_last(s.drop_last(), i);
    }
}

/// A name that no entry has is not in the map.
pub proof fn lemma_table_map_absent<V>(s: Seq<(Seq<char>, V)>, k: Seq<char>)
    requires
        forall|j: int| 0 <= j < s.len() ==> s[j].0 != k,
    ensures
        !table_map(s).contains_key(k),
    decreases s.len(),
{
    if s.len() > 0 {
        lemma_table_map_absent(s.drop_last(), k);
    }
}

/// The map holds no more names than the table has entries.
pub proof fn lemma_table_map_size<V>(s: Seq<(Seq<char>, V)>)
    ensures
        table_map(s).dom().finite(),
        table_map(s).dom().len() <= s.len(),
    decreases s.len(),
{
    if s.len() > 0 {
        lemma_table_map_size(s.drop_last());
    }
}

/// The index of the last local binding named `name`.
pub fn find_local(locals: &Vec<LetBinding>, name: &String) -> (r: Option<usize>)
    ensures
        match r {
            None => !local_map(locals@).contains_key(name@),
            Some(i) => i < locals.len() && locals@[i as int].name@ == name@
                && local_map(locals@).contains_key(name@)
                && local_map(locals@)[name@] == locals@[i as int].init,
        },
{
    let ghost s = local_entries(locals@);
    let mut i: usize = locals.len();
    while i > 0
        invariant
            i <= locals.len(),
            s == local_entries(locals@),
            forall|j: int| i <= j < locals.len() ==> s[j].0 != name@,
        decreases i,
    {
        i = i - 1;
        if locals[i].name == *name {
            proof {
                lemma_table_map_last(s, i as int);
            }
            return Some(i);
        }
    }
    proof {
        lemma_table_map_absent(s, name@);
    }
    None
}

/// The range of the last parameter named `name`.
pub fn find_param(params: &Vec<ParamBinding>, name: &String) -> (r: Option<ValueRange>)
    ensures
        match r {
            None => !param_map(params@).contains_key(name@),
            Some(v) => param_map(params@).contains_key(name@) && param_map(params@)[name@] == v,
        },
{
    let ghost s = param_entries(params@);
    let mut i: usize = params.len();
    while i > 0
        invariant
            i <= params.len(),
            s == param_entries(params@),
            forall|j: int| i <= j < params.len() ==> s[j].0 != name@,
        decreases i,
    {
        i = i - 1;
        if params[i].name == *name {
            proof {
                lemma_table_map_last(s, i as int);
            }
            return Some(params[i].range);
        }
    }
    proof {
        lemma_table_map_absent(s, name@);
    }
    None
}

/// The values of `s` that `f` keeps, in order.
pub open spec fn filter_map<A, B>(s: Seq<A>, f: spec_fn(A) -> Option<B>) -> Seq<B>
    decreases s.len(),
{
    if s.len() == 0 {
        Seq::empty()
    } else {
        let rest = filter_map(s.drop_last(), f);
        match f(s.last()) {
            Some(b) => rest.push(b),
            None => rest,
        }
    }
}

/// The one unsigned integer type whose parameters are given a range.
pub open spec fn is_unsigned_type(ty: Seq<char>) -> bool {
    ty == "usize"@
}

/// The whole domain of the unsigned integer type.
pub open spec fn full_domain() -> ValueRange {
    ValueRange { start: 0, end: usize::MAX }
}

/// The entry a parameter contributes: a plain name of the unsigned integer
/// type gets the whole domain; any other parameter none.
pub open spec fn param_binding_of(p: Param) -> Option<(Seq<char>, ValueRange)> {
    match (p.name, p.ty) {
        (Some(n), Some(t)) => if is_unsigned_type(t@) {
            Some((n@, full_domain()))
        } else {
            None
        },
        _ => None,
    }
}

/// The entry a statement contributes: a declaration of a plain name from an
/// integer literal gives that single value, one from another name a
/// dependency on it; every other statement gives none.
pub open spec fn let_binding_of(s: Stmt) -> Option<(Seq<char>, LetInitialization)> {
    match s {
        Stmt::Let { name: Some(n), init: Some(Expr::Int(v)) } => Some(
            (n@, LetInitialization::Range(ValueRange { start: v, end: v })),
        ),
        Stmt::Let { name: Some(n), init: Some(Expr::Name(m)) } => Some(
            (n@, LetInitialization::Dependency(m)),
        ),
        _ => None,
    }
}

/// The parameter table of a function: each parameter of the unsigned integer
/// type, by name, with the whole domain of that type.
pub fn parse_function_arguments(params: &Vec<Param>) -> (r: Vec<ParamBinding>)
    ensures
        param_entries(r@) == filter_map(params@, |p: Param| param_binding_of(p)),
{
    let keyword = "usize".to_string();
    let mut out: Vec<ParamBinding> = Vec::new();
    let mut i: usize = 0;
    while i < params.len()
        invariant
            i <= params.len(),
            keyword@ == "usize"@,
            param_entries(out@) == filter_map(params@.take(i as int), |p: Param| param_binding_of(p)),
        decreases params.len() - i,
    {
        let p = &params[i];
        proof {
            assert(params@.take(i + 1).drop_last() =~= params@.take(i as int));
        }
        match (&p.name, &p.ty) {
            (Some(n), Some(t)) => {
                if *t == keyword {
                    out.push(ParamBinding { name: n.clone(), range: ValueRange::new(0, usize::MAX) });
                }
            },
            _ => {},
        }
        proof {
            assert(param_entries(out@) =~= filter_map(params@.take(i + 1), |p: Param| param_binding_of(p)));
        }
        i = i + 1;
    }
    assert(params@.take(params.len() as int) =~= params@);
    out
}

/// The local table of a function body: each top-level declaration of a plain
/// name whose initializer is an integer literal or another name, in order.
pub fn parse_let_statements(body: &Vec<Stmt>) -> (r: Vec<LetBinding>)
    ensures
        local_entries(r@) == filter_map(body@, |s: Stmt| let_binding_of(s)),
{
    let mut out: Vec<LetBinding> = Vec::new();
    let mut i: usize = 0;
    while i < body.len()
        invariant
            i <= body.len(),
            local_entries(out@) == filter_map(body@.take(i as int), |s: Stmt| let_binding_of(s)),
        decreases body.len() - i,
    {
        proof {
            assert(body@.take(i + 1).drop_last() =~= body@.take(i as int));
        }
        match &body[i] {
            Stmt::Let { name: Some(n), init: Some(Expr::Int(v)) } => {
                let init = LetInitialization::Range(ValueRange::new(*v, *v));
                out.push(LetBinding { name: n.clone(), init });
            },
            Stmt::Let { name: Some(n), init: Some(Expr::Name(m)) } => {
                let init = LetInitialization::Dependency(m.clone());
                out.push(LetBinding { name: n.clone(), init });
            },
            _ => {},
        }
        proof {
            assert(local_entries(out@) =~= filter_map(body@.take(i + 1), |s: Stmt| let_binding_of(s)));
        }
        i = i + 1;
    }
    assert(body@.take(body.len() as int) =~= body@);
    out
}

} // verus!
