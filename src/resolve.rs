//! Following chains of bindings down to a range.
use vstd::prelude::*;
use crate::bindings::{
    find_local, find_param, lemma_table_map_size, local_entries, local_map, param_entries,
    param_map, table_map,
    LetBinding, LetInitialization, ParamBinding,
};
use crate::range::ValueRange;

verus! {

/// Resolves `name` within `fuel` lookups: a local bound to a range gives that
/// range, a local bound to another name is followed, a name that is no local
/// gives its parameter's range, and a name in neither table, or a chain
/// longer than the fuel, gives nothing.
pub open spec fn resolve_from(
    locals: Map<Seq<char>, LetInitialization>,
    params: Map<Seq<char>, ValueRange>,
    name: Seq<char>,
    fuel: nat,
) -> Option<ValueRange>
    decreases fuel,
{
    if fuel == 0 {
        None
    } else if locals.contains_key(name) {
        match locals[name] {
            LetInitialization::Range(v) => Some(v),
            LetInitialization::Dependency(d) => resolve_from(locals, params, d@, (fuel - 1) as nat),
        }
    } else if params.contains_key(name) {
        Some(params[name])
    } else {
        None
    }
}

/// The range of `name`, following at most one lookup more than the local
/// table has entries; a chain that needs more goes round a cycle.
pub open spec fn resolve_in(
    locals: Seq<(Seq<char>, LetInitialization)>,
    params: Seq<(Seq<char>, ValueRange)>,
    name: Seq<char>,
) -> Option<ValueRange> {
    resolve_from(table_map(locals), table_map(params), name, locals.len() + 1)
}

/// [`resolve_in`] on the tables themselves.
pub open spec fn resolution(locals: Seq<LetBinding>, params: Seq<ParamBinding>, name: Seq<char>) -> Option<ValueRange> {
    resolve_in(local_entries(locals), param_entries(params), name)
}

/// The range an initializer stands for.
pub open spec fn resolve_init(
    init: LetInitialization,
    locals: Seq<LetBinding>,
    params: Seq<ParamBinding>,
) -> Option<ValueRange> {
    match init {
        LetInitialization::Range(v) => Some(v),
        LetInitialization::Dependency(d) => resolution(locals, params, d@),
    }
}

/// Resolves an initializer to a range through the local and parameter
/// tables; `None` when the chain reaches a name in neither table or loops.
pub fn resolve_dependency(
    init: &LetInitialization,
    let_stmts: &Vec<LetBinding>,
    func_args: &Vec<ParamBinding>,
) -> (r: Option<ValueRange>)
    ensures
        r == resolve_init(*init, let_stmts@, func_args@),
{
    let mut current: &String = match init {
        LetInitialization::Range(v) => {
            return Some(*v);
        },
        LetInitialization::Dependency(d) => d,
    };
    let mut remaining: usize = let_stmts.len();
    assert(local_entries(let_stmts@).len() == let_stmts.len());
    loop
        invariant
            remaining <= let_stmts.len(),
            resolve_init(*init, let_stmts@, func_args@) == resolve_from(
                local_map(let_stmts@),
                param_map(func_args@),
                current@,
                (remaining + 1) as nat,
            ),
        decreases remaining,
    {
        match find_local(let_stmts, current) {
            Some(i) => match &let_stmts[i].init {
                LetInitialization::Range(v) => {
                    return Some(*v);
                },
                LetInitialization::Dependency(d) => {
                    if remaining == 0 {
                        assert(resolve_from(local_map(let_stmts@), param_map(func_args@), d@, 0)
                            is None);
                        return None;
                    }
                    current = d;
                    remaining = remaining - 1;
                },
            },
            None => {
                return find_param(func_args, current);
            },
        }
    }
}

/// Resolving the same name twice from the same tables gives the same result.
pub proof fn lemma_resolution_deterministic(
    locals: Seq<LetBinding>,
    params: Seq<ParamBinding>,
    name: Seq<char>,
)
    ensures
        resolution(locals, params, name) == resolution(locals, params, name),
{
}

/// `chain` is a sequence of local variables each bound to the next.
pub open spec fn linked(locals: Map<Seq<char>, LetInitialization>, chain: Seq<Seq<char>>) -> bool {
    forall|i: int|
        #![trigger chain[i]]
        0 <= i < chain.len() - 1 ==> {
            &&& locals.contains_key(chain[i])
            &&& locals[chain[i]] is Dependency
            &&& locals[chain[i]]->Dependency_0@ == chain[i + 1]
        }
}

proof fn lemma_chain_suffix(
    locals: Map<Seq<char>, LetInitialization>,
    params: Map<Seq<char>, ValueRange>,
    chain: Seq<Seq<char>>,
    k: int,
    fuel: nat,
)
    requires
        0 <= k < chain.len(),
        fuel >= chain.len() - k,
        linked(locals, chain),
        !locals.contains_key(chain.last()),
        params.contains_key(chain.last()),
    ensures
        resolve_from(locals, params, chain[k], fuel) == Some(params[chain.last()]),
    decreases chain.len() - k,
{
    if k < chain.len() - 1 {
        assert(locals.contains_key(chain[k]));
        lemma_chain_suffix(locals, params, chain, k + 1, (fuel - 1) as nat);
    }
}

proof fn lemma_broken_suffix(
    locals: Map<Seq<char>, LetInitialization>,
    params: Map<Seq<char>, ValueRange>,
    chain: Seq<Seq<char>>,
    k: int,
    fuel: nat,
)
    requires
        0 <= k < chain.len(),
        linked(locals, chain),
        !locals.contains_key(chain.last()),
        !params.contains_key(chain.last()),
    ensures
        resolve_from(locals, params, chain[k], fuel) is None,
    decreases chain.len() - k,
{
    if k < chain.len() - 1 && fuel > 0 {
        assert(locals.contains_key(chain[k]));
        lemma_broken_suffix(locals, params, chain, k + 1, (fuel - 1) as nat);
    }
}

proof fn lemma_chain_repeats_shift(
    locals: Map<Seq<char>, LetInitialization>,
    chain: Seq<Seq<char>>,
    i: int,
    j: int,
    t: int,
)
    requires
        0 <= i < j,
        0 <= t,
        j + t < chain.len(),
        chain[i] == chain[j],
        linked(locals, chain),
    ensures
        chain[i + t] == chain[j + t],
    decreases t,
{
    if t > 0 {
        lemma_chain_repeats_shift(locals, chain, i, j, t - 1);
        assert(locals.contains_key(chain[j + t - 1]));
        assert(locals.contains_key(chain[i + t - 1]));
    }
}

/// The links of a chain ending outside the local table are distinct names,
/// so there are no more of them than the table has entries.
proof fn lemma_chain_length(locals: Seq<LetBinding>, chain: Seq<Seq<char>>)
    requires
        chain.len() >= 1,
        linked(local_map(locals), chain),
        !local_map(locals).contains_key(chain.last()),
    ensures
        chain.len() <= locals.len() + 1,
{
    let m = local_map(locals);
    let links = chain.drop_last();
    assert forall|a: int, b: int| 0 <= a < b < links.len() implies links[a] != links[b] by {
        if links[a] == links[b] {
            lemma_chain_repeats_shift(m, chain, a, b, chain.len() - 1 - b);
            assert(m.contains_key(chain[a]));
            assert(m.contains_key(chain[a + chain.len() - 1 - b]));
        }
    }
    assert(links.no_duplicates());
    links.unique_seq_to_set();
    lemma_table_map_size(local_entries(locals));
    assert forall|x: Seq<char>| links.to_set().contains(x) implies m.dom().contains(x) by {
        let a = choose|a: int| 0 <= a < links.len() && links[a] == x;
        assert(m.contains_key(chain[a]));
    }
    vstd::set_lib::lemma_len_subset(links.to_set(), m.dom());
}

/// A chain of locals, each bound to the next, that ends in a parameter
/// resolves to that parameter's range.
pub proof fn lemma_chain_resolves_to_parameter(
    locals: Seq<LetBinding>,
    params: Seq<ParamBinding>,
    chain: Seq<Seq<char>>,
)
    requires
        chain.len() >= 1,
        linked(local_map(locals), chain),
        !local_map(locals).contains_key(chain.last()),
        param_map(params).contains_key(chain.last()),
    ensures
        resolution(locals, params, chain[0]) == Some(param_map(params)[chain.last()]),
{
    lemma_chain_length(locals, chain);
    lemma_chain_suffix(local_map(locals), param_map(params), chain, 0, locals.len() + 1);
}

/// A chain of locals whose last name is in neither table does not resolve.
pub proof fn lemma_broken_chain_unresolved(
    locals: Seq<LetBinding>,
    params: Seq<ParamBinding>,
    chain: Seq<Seq<char>>,
)
    requires
        chain.len() >= 1,
        linked(local_map(locals), chain),
        !local_map(locals).contains_key(chain.last()),
        !param_map(params).contains_key(chain.last()),
    ensures
        resolution(locals, params, chain[0]) is None,
{
    lemma_broken_suffix(local_map(locals), param_map(params), chain, 0, locals.len() + 1);
}

/// The name a chain of dependencies starting at `name` ends in, within
/// `fuel` steps: the first name that is not a local bound to another name.
pub open spec fn source_from(
    locals: Map<Seq<char>, LetInitialization>,
    name: Seq<char>,
    fuel: nat,
) -> Option<Seq<char>>
    decreases fuel,
{
    if fuel == 0 {
        None
    } else if locals.contains_key(name) && locals[name] is Dependency {
        source_from(locals, locals[name]->Dependency_0@, (fuel - 1) as nat)
    } else {
        Some(name)
    }
}

/// The source of `name` in a local table, with the same bound on the chain
/// as [`resolution`].
pub open spec fn source_of(locals: Seq<LetBinding>, name: Seq<char>) -> Option<Seq<char>> {
    source_from(local_map(locals), name, locals.len() + 1)
}

/// The name the dependencies of `name` lead to; `None` when they loop.
pub fn dependency_source<'a>(name: &'a String, let_stmts: &'a Vec<LetBinding>) -> (r: Option<
    &'a String,
>)
    ensures
        match r {
            Some(s) => source_of(let_stmts@, name@) == Some(s@),
            None => source_of(let_stmts@, name@) is None,
        },
{
    let mut current: &String = name;
    let mut remaining: usize = let_stmts.len();
    loop
        invariant
            remaining <= let_stmts.len(),
            source_of(let_stmts@, name@) == source_from(
                local_map(let_stmts@),
                current@,
                (remaining + 1) as nat,
            ),
        decreases remaining,
    {
        match find_local(let_stmts, current) {
            Some(i) => match &let_stmts[i].init {
                LetInitialization::Dependency(d) => {
                    if remaining == 0 {
                        assert(source_from(local_map(let_stmts@), d@, 0) is None);
                        return None;
                    }
                    current = d;
                    remaining = remaining - 1;
                },
                LetInitialization::Range(_) => {
                    return Some(current);
                },
            },
            None => {
                return Some(current);
            },
        }
    }
}

/// Whether `a` and `b` are bound, through chains of dependencies, to the
/// same variable, and so always hold the same value.
pub fn test_if_dependency_same_source(a: &String, b: &String, let_stmts: &Vec<LetBinding>) -> (r:
    bool)
    ensures
        r == (source_of(let_stmts@, a@) is Some && source_of(let_stmts@, a@) == source_of(
            let_stmts@,
            b@,
        )),
{
    match (dependency_source(a, let_stmts), dependency_source(b, let_stmts)) {
        (Some(x), Some(y)) => *x == *y,
        _ => false,
    }
}

} // verus!
