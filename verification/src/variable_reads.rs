//! Reading all variables of a scope at once: the names in ascending order,
//! each once, with the value a single read of that name gives.
use vstd::prelude::*;
use crate::entities::Execution;
use crate::error::FlowableError;
use crate::execution_tree::string_views;
use crate::ordering::{seq_le, str_le, lemma_seq_le_reflexive, lemma_seq_le_total, lemma_seq_le_transitive,
    lemma_seq_le_antisymmetric};
use crate::store::RuntimeStore;
use crate::variables::{
    find_execution_variable, first_holder, holds, load_execution, load_task, local_scope_contains, scope_value, value_of,
    variable_owner, ExecutionVariableScope, GetScopedExecutionVariablesCmd, GetTaskVariablesCmd, VariableRow, Variables,
};

verus! {

/// `a` comes strictly before `b`.
pub open spec fn name_lt(a: Seq<char>, b: Seq<char>) -> bool {
    seq_le(a, b) && a != b
}

/// Names in strictly ascending order (so each at most once).
pub open spec fn ascending(s: Seq<Seq<char>>) -> bool {
    forall|i: int, j: int| 0 <= i < j < s.len() ==> name_lt(#[trigger] s[i], #[trigger] s[j])
}

/// Adds `x` to an ascending list of names, keeping it ascending.
fn insert_name(v: &mut Vec<String>, x: &String)
    requires
        ascending(string_views(old(v)@)),
    ensures
        ascending(string_views(final(v)@)),
        forall|y: Seq<char>| #[trigger] string_views(final(v)@).contains(y) <==> string_views(old(v)@).contains(y) || y == x@,
{
    let ghost s = string_views(v@);
    let mut p: usize = 0;
    while p < v.len()
        invariant
            0 <= p <= v.len(),
            v@ == old(v)@,
            s == string_views(v@),
            forall|q: int| 0 <= q < p ==> name_lt(#[trigger] s[q], x@),
        ensures
            0 <= p <= v.len(),
            v@ == old(v)@,
            forall|q: int| 0 <= q < p ==> name_lt(#[trigger] s[q], x@),
            p < v.len() ==> seq_le(x@, s[p as int]),
        decreases v.len() - p,
    {
        if str_le(x.as_str(), v[p].as_str()) {
            proof {
                assert(s[p as int] == v@[p as int]@);
            }
            break;
        }
        proof {
            lemma_seq_le_total(x@, s[p as int]);
            assert(s[p as int] == v@[p as int]@);
        }
        p = p + 1;
    }
    if p < v.len() && v[p].eq(x) {
        proof {
            assert(s[p as int] == x@);
        }
        return;
    }
    let ghost before = v@;
    v.insert(p, x.clone());
    proof {
        let t = string_views(v@);
        assert(t =~= s.insert(p as int, x@));
        if p < s.len() {
            assert(seq_le(x@, s[p as int]));
            assert(s[p as int] != x@);
        }
        assert forall|i: int, j: int| 0 <= i < j < t.len() implies name_lt(#[trigger] t[i], #[trigger] t[j]) by {
            if i < p && j < p {
                assert(t[i] == s[i] && t[j] == s[j]);
            } else if i < p && j == p {
                assert(t[i] == s[i]);
            } else if i < p {
                assert(t[i] == s[i] && t[j] == s[j - 1]);
                assert(name_lt(s[i], x@));
                assert(name_lt(s[p as int], s[j - 1]) || j - 1 == p);
                lemma_seq_le_transitive(s[i], x@, s[p as int]);
                if j - 1 > p {
                    lemma_seq_le_transitive(s[i], s[p as int], s[j - 1]);
                }
                if s[i] == s[j - 1] {
                    lemma_seq_le_antisymmetric(s[i], x@);
                }
            } else if i == p {
                assert(t[j] == s[j - 1]);
                if j - 1 > p {
                    lemma_seq_le_transitive(x@, s[p as int], s[j - 1]);
                    if x@ == s[j - 1] {
                        lemma_seq_le_antisymmetric(s[p as int], s[j - 1]);
                    }
                }
            } else {
                assert(t[i] == s[i - 1] && t[j] == s[j - 1]);
            }
        }
        assert forall|y: Seq<char>| #[trigger] t.contains(y) <==> s.contains(y) || y == x@ by {
            if t.contains(y) {
                let k = choose|k: int| 0 <= k < t.len() && t[k] == y;
                if k < p {
                    assert(s[k] == y);
                } else if k > p {
                    assert(s[k - 1] == y);
                }
            }
            if s.contains(y) {
                let k = choose|k: int| 0 <= k < s.len() && s[k] == y;
                if k < p {
                    assert(t[k] == y);
                } else {
                    assert(t[k + 1] == y);
                }
            }
            if y == x@ {
                assert(t[p as int] == y);
            }
        }
    }
}

/// The distinct names of `rows` whose owner passes `keep`, ascending.
pub open spec fn row_names(rows: Seq<VariableRow>, owner: Option<Seq<char>>) -> Set<Seq<char>> {
    Set::new(|n: Seq<char>| exists|i: int| 0 <= i < rows.len() && (#[trigger] rows[i]).name@ == n
        && (owner matches Some(o) ==> rows[i].owner_id@ == o))
}

/// The names of the rows of `owner` (of every owner when `None`), ascending.
fn names_of(rows: &Vec<VariableRow>, owner: Option<&String>) -> (r: Vec<String>)
    ensures
        ascending(string_views(r@)),
        forall|n: Seq<char>| #[trigger] string_views(r@).contains(n) <==> row_names(rows@, opt_ref_view(owner)).contains(n),
{
    let mut names: Vec<String> = Vec::new();
    let mut i: usize = 0;
    while i < rows.len()
        invariant
            0 <= i <= rows.len(),
            ascending(string_views(names@)),
            forall|n: Seq<char>| #[trigger] string_views(names@).contains(n) <==> row_names(rows@.take(i as int),
                opt_ref_view(owner)).contains(n),
        decreases rows.len() - i,
    {
        let row = &rows[i];
        let take = match owner {
            Some(o) => row.owner_id.eq(o),
            None => true,
        };
        let ghost prev = names@;
        if take {
            insert_name(&mut names, &row.name);
        }
        proof {
            assert forall|n: Seq<char>| #[trigger] string_views(names@).contains(n) <==> row_names(rows@.take(i + 1),
                opt_ref_view(owner)).contains(n) by {
                let a = rows@.take(i as int);
                let b = rows@.take(i + 1);
                if row_names(a, opt_ref_view(owner)).contains(n) {
                    let k = choose|k: int| 0 <= k < a.len() && (#[trigger] a[k]).name@ == n && (opt_ref_view(owner) matches Some(o)
                        ==> a[k].owner_id@ == o);
                    assert(b[k] == a[k]);
                }
                if row_names(b, opt_ref_view(owner)).contains(n) {
                    let k = choose|k: int| 0 <= k < b.len() && (#[trigger] b[k]).name@ == n && (opt_ref_view(owner) matches Some(o)
                        ==> b[k].owner_id@ == o);
                    if k < i {
                        assert(a[k] == b[k]);
                    }
                }
                if take && n == row.name@ {
                    assert(b[i as int] == rows@[i as int]);
                }
            }
        }
        i = i + 1;
    }
    proof {
        assert(rows@.take(rows.len() as int) =~= rows@);
    }
    names
}

pub open spec fn opt_ref_view(o: Option<&String>) -> Option<Seq<char>> {
    match o {
        Some(s) => Some(s@),
        None => None,
    }
}

pub open spec fn pair_names(s: Seq<(String, String)>) -> Seq<Seq<char>> {
    s.map_values(|p: (String, String)| p.0@)
}

/// Whether `s` lists, by ascending name, exactly the names `owner` holds,
/// each with the value a read of it gives.
pub open spec fn lists_own(s: Seq<(String, String)>, rows: Seq<VariableRow>, owner: Seq<char>) -> bool {
    &&& ascending(pair_names(s))
    &&& forall|i: int| 0 <= i < s.len() ==> value_of(rows, owner, (#[trigger] s[i]).0@) == Some(s[i].1@)
    &&& forall|n: Seq<char>| #[trigger] value_of(rows, owner, n) is Some ==> exists|i: int| 0 <= i < s.len()
        && (#[trigger] s[i]).0@ == n
}

/// The value of `name` seen from execution `from`, left out when
/// `skip_own` and `owner` holds the name itself.
pub open spec fn seen_value(store: RuntimeStore, rows: Seq<VariableRow>, from: Seq<char>, owner: Seq<char>, skip_own: bool,
    name: Seq<char>) -> Option<Seq<char>> {
    if skip_own && value_of(rows, owner, name) is Some {
        None
    } else {
        visible_value(store, rows, from, name)
    }
}

/// Whether `s` lists, by ascending name, exactly the names [`seen_value`]
/// gives a value for, each with that value.
pub open spec fn lists_seen(s: Seq<(String, String)>, store: RuntimeStore, rows: Seq<VariableRow>, from: Seq<char>,
    owner: Seq<char>, skip_own: bool) -> bool {
    &&& ascending(pair_names(s))
    &&& forall|i: int| 0 <= i < s.len() ==> seen_value(store, rows, from, owner, skip_own, (#[trigger] s[i]).0@)
        == Some(s[i].1@)
    &&& forall|n: Seq<char>| #[trigger] seen_value(store, rows, from, owner, skip_own, n) is Some ==> exists|i: int|
        0 <= i < s.len() && (#[trigger] s[i]).0@ == n
}

/// The variables of `owner`'s own scope, by ascending name.
pub fn scope_variables(rows: &Vec<VariableRow>, owner: &String) -> (r: Vec<(String, String)>)
    ensures
        lists_own(r@, rows@, owner@),
{
    let names = names_of(rows, Some(owner));
    let ghost ns = string_views(names@);
    let mut out: Vec<(String, String)> = Vec::new();
    let mut k: usize = 0;
    while k < names.len()
        invariant
            0 <= k <= names.len(),
            ns == string_views(names@),
            ascending(ns),
            forall|n: Seq<char>| #[trigger] ns.contains(n) <==> row_names(rows@, Some(owner@)).contains(n),
            pair_names(out@) == ns.take(k as int),
            forall|i: int| 0 <= i < out@.len() ==> value_of(rows@, owner@, (#[trigger] out@[i]).0@) == Some(out@[i].1@),
        decreases names.len() - k,
    {
        let v = scope_value(rows, owner.as_str(), names[k].as_str());
        proof {
            assert(ns[k as int] == names@[k as int]@);
            assert(ns.contains(names@[k as int]@));
            lemma_held(rows@, owner@, names@[k as int]@);
        }
        let value = match v {
            Some(x) => x,
            None => String::new(),
        };
        let ghost prev = out@;
        out.push((names[k].clone(), value));
        proof {
            assert(out@ == prev.push(out@.last()));
            assert(pair_names(out@) =~= pair_names(prev).push(out@.last().0@));
            assert(ns.take(k + 1) =~= ns.take(k as int).push(ns[k as int]));
            assert(pair_names(out@) =~= ns.take(k + 1));
            assert forall|i: int| 0 <= i < out@.len() implies value_of(rows@, owner@, (#[trigger] out@[i]).0@) == Some(out@[i].1@) by {
                if i < k {
                    assert(out@[i] == prev[i]);
                }
            }
        }
        k = k + 1;
    }
    proof {
        assert(ns.take(names.len() as int) =~= ns);
        assert forall|n: Seq<char>| #[trigger] value_of(rows@, owner@, n) is Some implies exists|i: int| 0 <= i < out@.len()
            && (#[trigger] out@[i]).0@ == n by {
            {
                lemma_held(rows@, owner@, n);
                assert(ns.contains(n));
                let i = choose|i: int| 0 <= i < ns.len() && ns[i] == n;
                assert(pair_names(out@)[i] == out@[i].0@);
            }
        }
    }
    out
}

/// A name `owner` holds has a value, and a name with a value is held.
proof fn lemma_held(rows: Seq<VariableRow>, owner: Seq<char>, name: Seq<char>)
    ensures
        value_of(rows, owner, name) is Some <==> row_names(rows, Some(owner)).contains(name),
{
    crate::variable_writes::lemma_read_value(rows, owner, name);
    if holds(rows, owner, name) {
        let i = choose|i: int| 0 <= i < rows.len() && (#[trigger] rows[i]).owner_id@ == owner && rows[i].name@ == name;
        assert(row_names(rows, Some(owner)).contains(name));
    }
    if row_names(rows, Some(owner)).contains(name) {
        let i = choose|i: int| 0 <= i < rows.len() && (#[trigger] rows[i]).name@ == name && (Some(owner) matches Some(o)
            ==> rows[i].owner_id@ == o);
        assert(holds(rows, owner, name));
    }
}

/// The value of `name` seen from execution `id`: at the nearest execution
/// up the chain that holds it.
pub open spec fn visible_value(store: RuntimeStore, rows: Seq<VariableRow>, id: Seq<char>, name: Seq<char>) -> Option<Seq<char>> {
    match variable_owner(store, rows, id, name) {
        Some(o) => value_of(rows, o, name),
        None => None,
    }
}

proof fn lemma_holder_named(chain: Seq<Seq<char>>, rows: Seq<VariableRow>, name: Seq<char>, n: int)
    requires
        first_holder(chain, rows, name, n) is Some,
    ensures
        row_names(rows, None).contains(name),
    decreases n,
{
    if n > 0 {
        if first_holder(chain, rows, name, n - 1) is Some {
            lemma_holder_named(chain, rows, name, n - 1);
        } else {
            let i = choose|i: int| 0 <= i < rows.len() && (#[trigger] rows[i]).owner_id@ == chain[n - 1] && rows[i].name@ == name;
            assert(row_names(rows, None).contains(name));
        }
    }
}

/// Every variable seen from execution `execution_id`, by ascending name.
pub fn collect_execution_variables(store: &RuntimeStore, rows: &Vec<VariableRow>, execution_id: &String) -> (r: Vec<(String, String)>)
    requires
        store.wf(),
    ensures
        lists_seen(r@, *store, rows@, execution_id@, execution_id@, false),
{
    let names = names_of(rows, None);
    let ghost ns = string_views(names@);
    let mut out: Vec<(String, String)> = Vec::new();
    let mut k: usize = 0;
    while k < names.len()
        invariant
            0 <= k <= names.len(),
            store.wf(),
            ns == string_views(names@),
            ascending(ns),
            forall|n: Seq<char>| #[trigger] ns.contains(n) <==> row_names(rows@, None).contains(n),
            forall|i: int| 0 <= i < out@.len() ==> visible_value(*store, rows@, execution_id@, (#[trigger] out@[i]).0@)
                == Some(out@[i].1@),
            forall|i: int| 0 <= i < out@.len() ==> exists|j: int| 0 <= j < k && #[trigger] ns[j] == (#[trigger] out@[i]).0@,
            forall|j: int| 0 <= j < k && #[trigger] visible_value(*store, rows@, execution_id@, ns[j]) is Some
                ==> exists|i: int| 0 <= i < out@.len() && (#[trigger] out@[i]).0@ == ns[j],
            ascending(pair_names(out@)),
            forall|i: int, j: int| 0 <= i < out@.len() && k <= j < ns.len() ==> name_lt((#[trigger] out@[i]).0@, #[trigger] ns[j]),
        decreases names.len() - k,
    {
        let found = find_execution_variable(store, rows, execution_id, names[k].as_str());
        proof {
            assert(ns[k as int] == names@[k as int]@);
        }
        match found {
            Some((_, v)) => {
                let ghost prev = out@;
                out.push((names[k].clone(), v));
                proof {
                    crate::variable_writes::lemma_read_value(rows@, variable_owner(*store, rows@, execution_id@,
                        ns[k as int])->0, ns[k as int]);
                    assert forall|i: int| 0 <= i < out@.len() implies visible_value(*store, rows@, execution_id@,
                        (#[trigger] out@[i]).0@) == Some(out@[i].1@) by {
                        if i < prev.len() {
                            assert(out@[i] == prev[i]);
                        }
                    }
                    assert forall|i: int| 0 <= i < out@.len() implies exists|j: int| 0 <= j < k + 1 && #[trigger] ns[j]
                        == (#[trigger] out@[i]).0@ by {
                        if i < prev.len() {
                            assert(out@[i] == prev[i]);
                        } else {
                            assert(ns[k as int] == out@[i].0@);
                        }
                    }
                    assert forall|j: int| 0 <= j < k + 1 && #[trigger] visible_value(*store, rows@, execution_id@, ns[j])
                        is Some implies exists|i: int| 0 <= i < out@.len() && (#[trigger] out@[i]).0@ == ns[j] by {
                        if j < k {
                            let i = choose|i: int| 0 <= i < prev.len() && (#[trigger] prev[i]).0@ == ns[j];
                            assert(out@[i] == prev[i]);
                        } else {
                            assert(out@[prev.len() as int].0@ == ns[j]);
                        }
                    }
                    assert forall|i: int, j: int| 0 <= i < j < pair_names(out@).len() implies name_lt(
                        #[trigger] pair_names(out@)[i], #[trigger] pair_names(out@)[j]) by {
                        if j < prev.len() {
                            assert(pair_names(out@)[i] == pair_names(prev)[i]);
                            assert(pair_names(out@)[j] == pair_names(prev)[j]);
                        } else {
                            assert(out@[i] == prev[i]);
                            assert(name_lt(prev[i].0@, ns[k as int]));
                        }
                    }
                    assert forall|i: int, j: int| 0 <= i < out@.len() && k + 1 <= j < ns.len() implies name_lt(
                        (#[trigger] out@[i]).0@, #[trigger] ns[j]) by {
                        if i < prev.len() {
                            assert(out@[i] == prev[i]);
                        } else {
                            assert(name_lt(ns[k as int], ns[j]));
                        }
                    }
                }
            },
            None => {
                proof {
                    assert forall|j: int| 0 <= j < k + 1 && #[trigger] visible_value(*store, rows@, execution_id@, ns[j])
                        is Some implies exists|i: int| 0 <= i < out@.len() && (#[trigger] out@[i]).0@ == ns[j] by {
                        if j == k {
                            assert(false);
                        }
                    }
                    assert forall|i: int, j: int| 0 <= i < out@.len() && k + 1 <= j < ns.len() implies name_lt(
                        (#[trigger] out@[i]).0@, #[trigger] ns[j]) by {
                        let jj = choose|jj: int| 0 <= jj < k && #[trigger] ns[jj] == out@[i].0@;
                        assert(name_lt(ns[jj], ns[k as int]));
                        assert(name_lt(ns[k as int], ns[j]));
                        lemma_seq_le_transitive(ns[jj], ns[k as int], ns[j]);
                        if ns[jj] == ns[j] {
                            lemma_seq_le_antisymmetric(ns[jj], ns[k as int]);
                        }
                    }
                }
            },
        }
        k = k + 1;
    }
    proof {
        assert forall|i: int| 0 <= i < out@.len() implies seen_value(*store, rows@, execution_id@, execution_id@, false,
            (#[trigger] out@[i]).0@) == Some(out@[i].1@) by {}
        assert forall|n: Seq<char>| #[trigger] seen_value(*store, rows@, execution_id@, execution_id@, false, n) is Some
            implies exists|i: int| 0 <= i < out@.len() && (#[trigger] out@[i]).0@ == n by {
            {
                let chain = crate::execution_tree::ancestry(store.executions@, execution_id@, 256);
                lemma_holder_named(chain, rows@, n, chain.len() as int);
                assert(ns.contains(n));
                let j = choose|j: int| 0 <= j < ns.len() && ns[j] == n;
                assert(visible_value(*store, rows@, execution_id@, ns[j]) is Some);
            }
        }
    }
    out
}

/// The entries of `s` whose name `owner` does not hold itself (all of them
/// unless `active`), in order.
#[verifier::rlimit(40)]
fn without_held(s: &Vec<(String, String)>, store: &RuntimeStore, rows: &Vec<VariableRow>, from: &String, owner: &String,
    active: bool) -> (r: Vec<(String, String)>)
    requires
        lists_seen(s@, *store, rows@, from@, owner@, false),
    ensures
        lists_seen(r@, *store, rows@, from@, owner@, active),
{
    let mut out: Vec<(String, String)> = Vec::new();
    let mut k: usize = 0;
    while k < s.len()
        invariant
            0 <= k <= s.len(),
            lists_seen(s@, *store, rows@, from@, owner@, false),
            ascending(pair_names(out@)),
            forall|i: int| 0 <= i < out@.len() ==> seen_value(*store, rows@, from@, owner@, active, (#[trigger] out@[i]).0@)
                == Some(out@[i].1@),
            forall|i: int| 0 <= i < out@.len() ==> exists|j: int| 0 <= j < k && (#[trigger] s@[j]).0@ == (#[trigger] out@[i]).0@,
            forall|j: int| 0 <= j < k && seen_value(*store, rows@, from@, owner@, active, (#[trigger] s@[j]).0@) is Some
                ==> exists|i: int| 0 <= i < out@.len() && (#[trigger] out@[i]).0@ == s@[j].0@,
        decreases s.len() - k,
    {
        let held = active && local_scope_contains(rows, owner.as_str(), s[k].0.as_str());
        proof {
            crate::variable_writes::lemma_read_value(rows@, owner@, s@[k as int].0@);
            assert(seen_value(*store, rows@, from@, owner@, false, s@[k as int].0@) == Some(s@[k as int].1@));
        }
        if !held {
            let ghost prev = out@;
            out.push((s[k].0.clone(), s[k].1.clone()));
            proof {
                assert(out@ == prev.push(out@.last()));
                assert forall|i: int| 0 <= i < out@.len() implies seen_value(*store, rows@, from@, owner@, active,
                    (#[trigger] out@[i]).0@) == Some(out@[i].1@) by {
                    if i < prev.len() {
                        assert(out@[i] == prev[i]);
                    }
                }
                assert forall|i: int| 0 <= i < out@.len() implies exists|j: int| 0 <= j < k + 1
                    && (#[trigger] s@[j]).0@ == (#[trigger] out@[i]).0@ by {
                    if i < prev.len() {
                        assert(out@[i] == prev[i]);
                    } else {
                        assert(s@[k as int].0@ == out@[i].0@);
                    }
                }
                assert forall|j: int| 0 <= j < k + 1 && seen_value(*store, rows@, from@, owner@, active,
                    (#[trigger] s@[j]).0@) is Some implies exists|i: int| 0 <= i < out@.len()
                    && (#[trigger] out@[i]).0@ == s@[j].0@ by {
                    if j < k {
                        let i = choose|i: int| 0 <= i < prev.len() && (#[trigger] prev[i]).0@ == s@[j].0@;
                        assert(out@[i] == prev[i]);
                    } else {
                        assert(out@[prev.len() as int].0@ == s@[j].0@);
                    }
                }
                assert forall|i: int, j: int| 0 <= i < j < pair_names(out@).len() implies name_lt(
                    #[trigger] pair_names(out@)[i], #[trigger] pair_names(out@)[j]) by {
                    if j < prev.len() {
                        assert(pair_names(out@)[i] == pair_names(prev)[i]);
                        assert(pair_names(out@)[j] == pair_names(prev)[j]);
                    } else {
                        assert(out@[i] == prev[i]);
                        let jj = choose|jj: int| 0 <= jj < k && (#[trigger] s@[jj]).0@ == prev[i].0@;
                        assert(pair_names(s@)[jj] == s@[jj].0@);
                        assert(pair_names(s@)[k as int] == s@[k as int].0@);
                        assert(name_lt(pair_names(s@)[jj], pair_names(s@)[k as int]));
                    }
                }
            }
        } else {
            proof {
                assert forall|j: int| 0 <= j < k + 1 && seen_value(*store, rows@, from@, owner@, active,
                    (#[trigger] s@[j]).0@) is Some implies exists|i: int| 0 <= i < out@.len()
                    && (#[trigger] out@[i]).0@ == s@[j].0@ by {
                    if j == k {
                        assert(false);
                    }
                }
            }
        }
        k = k + 1;
    }
    proof {
        assert forall|n: Seq<char>| #[trigger] seen_value(*store, rows@, from@, owner@, active, n) is Some implies exists|i: int|
            0 <= i < out@.len() && (#[trigger] out@[i]).0@ == n by {
            assert(seen_value(*store, rows@, from@, owner@, false, n) is Some);
            let j = choose|j: int| 0 <= j < s@.len() && (#[trigger] s@[j]).0@ == n;
            assert(seen_value(*store, rows@, from@, owner@, active, s@[j].0@) is Some);
        }
    }
    out
}

pub open spec fn triple_pairs(s: Seq<(String, String, ExecutionVariableScope)>) -> Seq<(String, String)> {
    s.map_values(|t: (String, String, ExecutionVariableScope)| (t.0, t.1))
}

/// Appends the entries of `pairs` tagged with `scope`.
fn append_tagged(out: &mut Vec<(String, String, ExecutionVariableScope)>, pairs: Vec<(String, String)>,
    scope: ExecutionVariableScope)
    ensures
        final(out)@.len() == old(out)@.len() + pairs@.len(),
        final(out)@.take(old(out)@.len() as int) == old(out)@,
        triple_pairs(final(out)@.skip(old(out)@.len() as int)) == pairs@,
        forall|i: int| old(out)@.len() <= i < final(out)@.len() ==> (#[trigger] final(out)@[i]).2 == scope,
{
    let ghost start = out@.len();
    let mut k: usize = 0;
    while k < pairs.len()
        invariant
            0 <= k <= pairs.len(),
            out@.len() == old(out)@.len() + k,
            start == old(out)@.len(),
            out@.take(start as int) == old(out)@,
            triple_pairs(out@.skip(start as int)) == pairs@.take(k as int),
            forall|i: int| start <= i < out@.len() ==> (#[trigger] out@[i]).2 == scope,
        decreases pairs.len() - k,
    {
        let ghost prev = out@;
        out.push((pairs[k].0.clone(), pairs[k].1.clone(), scope));
        proof {
            assert(out@ == prev.push(out@.last()));
            assert(out@.take(start as int) =~= prev.take(start as int));
            assert(out@.skip(start as int) =~= prev.skip(start as int).push(out@.last()));
            assert(pairs@.take(k + 1) =~= pairs@.take(k as int).push(pairs@[k as int]));
            assert(triple_pairs(out@.skip(start as int)) =~= triple_pairs(prev.skip(start as int)).push(
                (out@.last().0, out@.last().1)));
            assert(out@.last().0 == pairs@[k as int].0 && out@.last().1 == pairs@[k as int].1);
        }
        k = k + 1;
    }
    proof {
        assert(pairs@.take(pairs.len() as int) =~= pairs@);
    }
}

/// Whether `out` is the listing of execution `e`'s variables for `scope`,
/// its first `m` entries being the local part.
pub open spec fn scoped_listing(out: Seq<(String, String, ExecutionVariableScope)>, m: int, store: RuntimeStore,
    rows: Seq<VariableRow>, e: Execution, scope: Option<ExecutionVariableScope>) -> bool {
    let include_local = scope != Some(ExecutionVariableScope::Global);
    let include_global = scope != Some(ExecutionVariableScope::Local) && e.parent_id is Some;
    &&& 0 <= m <= out.len()
    &&& if include_local {
        lists_own(triple_pairs(out.take(m)), rows, e.id@)
    } else {
        m == 0
    }
    &&& if include_global {
        lists_seen(triple_pairs(out.skip(m)), store, rows, e.parent_id->0@, e.id@, include_local)
    } else {
        m == out.len()
    }
    &&& forall|i: int| 0 <= i < m ==> (#[trigger] out[i]).2 == ExecutionVariableScope::Local
    &&& forall|i: int| m <= i < out.len() ==> (#[trigger] out[i]).2 == ExecutionVariableScope::Global
}

/// Whether `out` is the listing of `e`'s variables for `scope`, split
/// somewhere into its local and its global part.
pub open spec fn scoped_listing_exists(out: Seq<(String, String, ExecutionVariableScope)>, store: RuntimeStore,
    rows: Seq<VariableRow>, e: Execution, scope: Option<ExecutionVariableScope>) -> bool {
    exists|m: int| #[trigger] scoped_listing(out, m, store, rows, e, scope)
}

impl GetScopedExecutionVariablesCmd {
    /// The execution's variables: without a scope or for the local one, its
    /// own variables by ascending name (tagged local); then, without a scope
    /// or for the global one, the variables seen from its parent by
    /// ascending name (tagged global), leaving out names already listed.
    /// `NotFound` for an unknown execution.
    pub fn run(&self, store: &RuntimeStore, variables: &Variables) -> (r: Result<Vec<(String, String, ExecutionVariableScope)>, FlowableError>)
        requires
            store.wf(),
        ensures
            r is Ok <==> store.executions@.contains_key(self.execution_id@),
            r matches Ok(out) ==> scoped_listing_exists(out@, *store, variables.execution_rows@,
                store.executions@[self.execution_id@], self.scope),
    {
        let e = load_execution(store, &self.execution_id)?;
        let rows = &variables.execution_rows;
        let include_local = self.scope != Some(ExecutionVariableScope::Global);
        let locals: Vec<(String, String)> = if include_local {
            scope_variables(rows, &e.id)
        } else {
            Vec::new()
        };
        let mut out: Vec<(String, String, ExecutionVariableScope)> = Vec::new();
        let ghost locals_v = locals@;
        assert(include_local ==> lists_own(locals_v, rows@, e.id@));
        append_tagged(&mut out, locals, ExecutionVariableScope::Local);
        let ghost m = out@.len() as int;
        let ghost out1 = out@;
        proof {
            assert(out1.skip(0) =~= out1);
            assert(triple_pairs(out1) == locals_v);
        }
        let globals: Vec<(String, String)> = match &e.parent_id {
            Some(p) => if self.scope != Some(ExecutionVariableScope::Local) {
                let all = collect_execution_variables(store, rows, p);
                proof {
                    assert forall|n: Seq<char>| #[trigger] seen_value(*store, rows@, p@, e.id@, false, n)
                        == seen_value(*store, rows@, p@, p@, false, n) by {}
                }
                without_held(&all, store, rows, p, &e.id, include_local)
            } else {
                Vec::new()
            },
            None => Vec::new(),
        };
        let ghost globals_v = globals@;
        assert(self.scope != Some(ExecutionVariableScope::Local) && e.parent_id is Some ==> lists_seen(globals_v, *store,
            rows@, e.parent_id->0@, e.id@, include_local));
        append_tagged(&mut out, globals, ExecutionVariableScope::Global);
        proof {
            assert(out@.take(m) == out1);
            assert forall|i: int| 0 <= i < m implies (#[trigger] out@[i]).2 == ExecutionVariableScope::Local by {
                assert(out@[i] == out1[i]);
            }
            let include_global = self.scope != Some(ExecutionVariableScope::Local) && e.parent_id is Some;
            assert(triple_pairs(out@.take(m)) == locals_v);
            assert(triple_pairs(out@.skip(m)) == globals_v);
            if include_local {
                assert(lists_own(triple_pairs(out@.take(m)), rows@, e.id@));
            } else {
                assert(locals_v.len() == 0);
                assert(m == 0);
            }
            if include_global {
                assert(lists_seen(triple_pairs(out@.skip(m)), *store, rows@, e.parent_id->0@, e.id@, include_local));
            } else {
                assert(globals_v.len() == 0);
                assert(m == out@.len());
            }
            assert(scoped_listing(out@, m, *store, rows@, e, self.scope));
            assert(scoped_listing_exists(out@, *store, variables.execution_rows@, store.executions@[self.execution_id@],
                self.scope));
        }
        Ok(out)
    }
}

/// The value a task sees for `name`: its own, else the one seen from its
/// execution (none for a task outside any process).
pub open spec fn task_value(store: RuntimeStore, vars: Variables, task: crate::entities::Task, name: Seq<char>) -> Option<Seq<char>> {
    match value_of(vars.task_rows@, task.id@, name) {
        Some(v) => Some(v),
        None => if task.execution_id@.len() == 0 {
            None
        } else {
            visible_value(store, vars.execution_rows@, task.execution_id@, name)
        },
    }
}

/// Whether `s` lists, by ascending name, exactly the names the task sees a
/// value for, each with that value.
pub open spec fn lists_task(s: Seq<(String, String)>, store: RuntimeStore, vars: Variables, task: crate::entities::Task) -> bool {
    &&& ascending(pair_names(s))
    &&& forall|i: int| 0 <= i < s.len() ==> task_value(store, vars, task, (#[trigger] s[i]).0@) == Some(s[i].1@)
    &&& forall|n: Seq<char>| #[trigger] task_value(store, vars, task, n) is Some ==> exists|i: int| 0 <= i < s.len()
        && (#[trigger] s[i]).0@ == n
}

/// The names of the task's own rows and of every execution row, ascending.
fn candidate_names(vars: &Variables, task_id: &String) -> (r: Vec<String>)
    ensures
        ascending(string_views(r@)),
        forall|n: Seq<char>| #[trigger] string_views(r@).contains(n) <==> row_names(vars.task_rows@, Some(task_id@)).contains(n)
            || row_names(vars.execution_rows@, None).contains(n),
{
    let mut names = names_of(&vars.task_rows, Some(task_id));
    let others = names_of(&vars.execution_rows, None);
    let mut k: usize = 0;
    while k < others.len()
        invariant
            0 <= k <= others.len(),
            ascending(string_views(names@)),
            forall|n: Seq<char>| #[trigger] string_views(others@).contains(n) <==> row_names(vars.execution_rows@, None).contains(n),
            forall|n: Seq<char>| #[trigger] string_views(names@).contains(n) <==> row_names(vars.task_rows@, Some(task_id@)).contains(n)
                || string_views(others@.take(k as int)).contains(n),
        decreases others.len() - k,
    {
        insert_name(&mut names, &others[k]);
        proof {
            assert(others@.take(k + 1) =~= others@.take(k as int).push(others@[k as int]));
            assert(string_views(others@.take(k + 1)) =~= string_views(others@.take(k as int)).push(others@[k as int]@));
            assert forall|n: Seq<char>| #[trigger] string_views(others@.take(k + 1)).contains(n) <==> string_views(
                others@.take(k as int)).contains(n) || n == others@[k as int]@ by {
                let a = string_views(others@.take(k as int));
                let b = string_views(others@.take(k + 1));
                if b.contains(n) {
                    let i = choose|i: int| 0 <= i < b.len() && b[i] == n;
                    if i < k {
                        assert(a[i] == b[i]);
                    }
                }
                if a.contains(n) {
                    let i = choose|i: int| 0 <= i < a.len() && a[i] == n;
                    assert(b[i] == a[i]);
                }
                if n == others@[k as int]@ {
                    assert(b[k as int] == n);
                }
            }
        }
        k = k + 1;
    }
    proof {
        assert(others@.take(others.len() as int) =~= others@);
    }
    names
}

impl GetTaskVariablesCmd {
    /// Every variable the task sees, by ascending name: its own ones, and
    /// those seen from its execution that it does not hold itself.
    /// `NotFound` for an unknown task.
    pub fn run(&self, store: &RuntimeStore, variables: &Variables) -> (r: Result<Vec<(String, String)>, FlowableError>)
        requires
            store.wf(),
        ensures
            r is Ok <==> store.tasks@.contains_key(self.task_id@),
            r matches Ok(out) ==> lists_task(out@, *store, *variables, store.tasks@[self.task_id@]),
    {
        let task = load_task(store, &self.task_id)?;
        let names = candidate_names(variables, &task.id);
        let ghost ns = string_views(names@);
        let mut out: Vec<(String, String)> = Vec::new();
        let mut k: usize = 0;
        while k < names.len()
            invariant
                0 <= k <= names.len(),
                store.wf(),
                ns == string_views(names@),
                ascending(ns),
                forall|n: Seq<char>| #[trigger] ns.contains(n) <==> row_names(variables.task_rows@, Some(task.id@)).contains(n)
                    || row_names(variables.execution_rows@, None).contains(n),
                forall|i: int| 0 <= i < out@.len() ==> task_value(*store, *variables, task, (#[trigger] out@[i]).0@)
                    == Some(out@[i].1@),
                forall|i: int| 0 <= i < out@.len() ==> exists|j: int| 0 <= j < k && #[trigger] ns[j] == (#[trigger] out@[i]).0@,
                forall|j: int| 0 <= j < k && #[trigger] task_value(*store, *variables, task, ns[j]) is Some
                    ==> exists|i: int| 0 <= i < out@.len() && (#[trigger] out@[i]).0@ == ns[j],
                ascending(pair_names(out@)),
                forall|i: int, j: int| 0 <= i < out@.len() && k <= j < ns.len() ==> name_lt((#[trigger] out@[i]).0@, #[trigger] ns[j]),
            decreases names.len() - k,
        {
            let name = names[k].as_str();
            let found: Option<String> = match scope_value(&variables.task_rows, task.id.as_str(), name) {
                Some(v) => Some(v),
                None => if task.execution_id.unicode_len() == 0 {
                    None
                } else {
                    match find_execution_variable(store, &variables.execution_rows, &task.execution_id, name) {
                        Some((_, v)) => Some(v),
                        None => None,
                    }
                },
            };
            proof {
                assert(ns[k as int] == name@);
                if value_of(variables.task_rows@, task.id@, name@) is None && task.execution_id@.len() > 0 {
                    if variable_owner(*store, variables.execution_rows@, task.execution_id@, name@) is Some {
                        crate::variable_writes::lemma_read_value(variables.execution_rows@, variable_owner(*store,
                            variables.execution_rows@, task.execution_id@, name@)->0, name@);
                    }
                }
                assert(crate::entities::opt_view(found) == task_value(*store, *variables, task, ns[k as int]));
            }
            match found {
                Some(v) => {
                    let ghost prev = out@;
                    out.push((names[k].clone(), v));
                    proof {
                        assert(out@ == prev.push(out@.last()));
                        assert forall|i: int| 0 <= i < out@.len() implies task_value(*store, *variables, task,
                            (#[trigger] out@[i]).0@) == Some(out@[i].1@) by {
                            if i < prev.len() {
                                assert(out@[i] == prev[i]);
                            }
                        }
                        assert forall|i: int| 0 <= i < out@.len() implies exists|j: int| 0 <= j < k + 1 && #[trigger] ns[j]
                            == (#[trigger] out@[i]).0@ by {
                            if i < prev.len() {
                                assert(out@[i] == prev[i]);
                            } else {
                                assert(ns[k as int] == out@[i].0@);
                            }
                        }
                        assert forall|j: int| 0 <= j < k + 1 && #[trigger] task_value(*store, *variables, task, ns[j])
                            is Some implies exists|i: int| 0 <= i < out@.len() && (#[trigger] out@[i]).0@ == ns[j] by {
                            if j < k {
                                let i = choose|i: int| 0 <= i < prev.len() && (#[trigger] prev[i]).0@ == ns[j];
                                assert(out@[i] == prev[i]);
                            } else {
                                assert(out@[prev.len() as int].0@ == ns[j]);
                            }
                        }
                        assert forall|i: int, j: int| 0 <= i < j < pair_names(out@).len() implies name_lt(
                            #[trigger] pair_names(out@)[i], #[trigger] pair_names(out@)[j]) by {
                            if j < prev.len() {
                                assert(pair_names(out@)[i] == pair_names(prev)[i]);
                                assert(pair_names(out@)[j] == pair_names(prev)[j]);
                            } else {
                                assert(out@[i] == prev[i]);
                                assert(name_lt(prev[i].0@, ns[k as int]));
                            }
                        }
                        assert forall|i: int, j: int| 0 <= i < out@.len() && k + 1 <= j < ns.len() implies name_lt(
                            (#[trigger] out@[i]).0@, #[trigger] ns[j]) by {
                            if i < prev.len() {
                                assert(out@[i] == prev[i]);
                            } else {
                                assert(name_lt(ns[k as int], ns[j]));
                            }
                        }
                    }
                },
                None => {
                    proof {
                        assert forall|j: int| 0 <= j < k + 1 && #[trigger] task_value(*store, *variables, task, ns[j])
                            is Some implies exists|i: int| 0 <= i < out@.len() && (#[trigger] out@[i]).0@ == ns[j] by {
                            if j == k {
                                assert(false);
                            }
                        }
                        assert forall|i: int, j: int| 0 <= i < out@.len() && k + 1 <= j < ns.len() implies name_lt(
                            (#[trigger] out@[i]).0@, #[trigger] ns[j]) by {
                            let jj = choose|jj: int| 0 <= jj < k && #[trigger] ns[jj] == out@[i].0@;
                            assert(name_lt(ns[jj], ns[k as int]));
                            assert(name_lt(ns[k as int], ns[j]));
                            lemma_seq_le_transitive(ns[jj], ns[k as int], ns[j]);
                            if ns[jj] == ns[j] {
                                lemma_seq_le_antisymmetric(ns[jj], ns[k as int]);
                            }
                        }
                    }
                },
            }
            k = k + 1;
        }
        proof {
            assert forall|n: Seq<char>| #[trigger] task_value(*store, *variables, task, n) is Some implies exists|i: int|
                0 <= i < out@.len() && (#[trigger] out@[i]).0@ == n by {
                if value_of(variables.task_rows@, task.id@, n) is Some {
                    lemma_held(variables.task_rows@, task.id@, n);
                } else {
                    let chain = crate::execution_tree::ancestry(store.executions@, task.execution_id@, 256);
                    lemma_holder_named(chain, variables.execution_rows@, n, chain.len() as int);
                }
                assert(ns.contains(n));
                let j = choose|j: int| 0 <= j < ns.len() && ns[j] == n;
                assert(task_value(*store, *variables, task, ns[j]) is Some);
            }
        }
        Ok(out)
    }
}

/// The listing of a task's variables agrees with reading them one by one:
/// a listed name reads as its listed value, and a name that is not listed
/// reads as nothing (the single read's value as [`GetTaskVariableCmd`]
/// states it: the task's own value, else the one its execution sees).
pub proof fn law_task_listing_agrees_with_reads(s: Seq<(String, String)>, store: RuntimeStore, vars: Variables,
    task: crate::entities::Task, name: Seq<char>)
    requires
        lists_task(s, store, vars, task),
    ensures
        ({
            let local = value_of(vars.task_rows@, task.id@, name);
            let read = if local is Some {
                local
            } else if task.execution_id@.len() == 0 {
                None
            } else {
                match variable_owner(store, vars.execution_rows@, task.execution_id@, name) {
                    Some(o) => value_of(vars.execution_rows@, o, name),
                    None => None,
                }
            };
            &&& forall|i: int| 0 <= i < s.len() && (#[trigger] s[i]).0@ == name ==> read == Some(s[i].1@)
            &&& read is None <==> forall|i: int| 0 <= i < s.len() ==> (#[trigger] s[i]).0@ != name
        }),
{
    if task_value(store, vars, task, name) is Some {
        let i = choose|i: int| 0 <= i < s.len() && (#[trigger] s[i]).0@ == name;
        assert(s[i].0@ == name);
    }
}

} // verus!
