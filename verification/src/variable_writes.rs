//! Writing variables: one write replaces the owner's copy of a name of one
//! kind, and a batch of writes is checked whole before any of it lands.
use vstd::prelude::*;
use crate::entities::{Execution, Task};
use crate::error::FlowableError;
use crate::execution_tree::{ancestry, string_views};
use crate::store::RuntimeStore;
use crate::variables::{
    without_names, find_execution_variable, first_row, holds, is_variable_present, load_execution, load_task, local_scope_contains,
    present_on_scope, require_active_for_set, resolve_global_target, resolve_variable_owner, scope_target,
    validate_scope_guard, value_of, variable_owner, ExecutionVariableScope, TaskVariableScope, VariableMutationMode,
    VariableRow, Variables,
};

verus! {

/// The value of the first row of `owner` named `name` whose kind (local
/// copy or process copy) is `local`.
pub open spec fn kind_value(rows: Seq<VariableRow>, owner: Seq<char>, name: Seq<char>, local: bool) -> Option<Seq<char>>
    decreases rows.len(),
{
    if rows.len() == 0 {
        None
    } else {
        match kind_value(rows.drop_last(), owner, name, local) {
            Some(v) => Some(v),
            None => {
                let r = rows.last();
                if r.owner_id@ == owner && r.name@ == name && r.local == local {
                    Some(r.value@)
                } else {
                    None
                }
            },
        }
    }
}

/// The value a read of the owner's `name` sees: its local copy, else its
/// process copy.
pub open spec fn read_value(rows: Seq<VariableRow>, owner: Seq<char>, name: Seq<char>) -> Option<Seq<char>> {
    match kind_value(rows, owner, name, true) {
        Some(v) => Some(v),
        None => kind_value(rows, owner, name, false),
    }
}

pub open spec fn row_value(rows: Seq<VariableRow>, i: Option<int>) -> Option<Seq<char>> {
    match i {
        Some(i) => Some(rows[i].value@),
        None => None,
    }
}

proof fn lemma_local_rows(rows: Seq<VariableRow>, owner: Seq<char>, name: Seq<char>)
    ensures
        row_value(rows, first_row(rows, owner, name, true)) == kind_value(rows, owner, name, true),
    decreases rows.len(),
{
    if rows.len() > 0 {
        lemma_local_rows(rows.drop_last(), owner, name);
        if let Some(i) = first_row(rows.drop_last(), owner, name, true) {
            crate::variables::lemma_first_row(rows.drop_last(), owner, name, true);
            assert(rows[i] == rows.drop_last()[i]);
        }
    }
}

proof fn lemma_any_rows(rows: Seq<VariableRow>, owner: Seq<char>, name: Seq<char>)
    requires
        kind_value(rows, owner, name, true) is None,
    ensures
        row_value(rows, first_row(rows, owner, name, false)) == kind_value(rows, owner, name, false),
        holds(rows, owner, name) <==> kind_value(rows, owner, name, false) is Some,
    decreases rows.len(),
{
    crate::variables::lemma_first_row(rows, owner, name, false);
    if rows.len() > 0 {
        lemma_any_rows(rows.drop_last(), owner, name);
        if let Some(i) = first_row(rows.drop_last(), owner, name, false) {
            crate::variables::lemma_first_row(rows.drop_last(), owner, name, false);
            assert(rows[i] == rows.drop_last()[i]);
        }
    }
}

/// What a read sees is decided by the two kinds of copy: the local copy
/// wins, and an owner holds a name exactly when it has a copy of some kind.
pub proof fn lemma_read_value(rows: Seq<VariableRow>, owner: Seq<char>, name: Seq<char>)
    ensures
        value_of(rows, owner, name) == read_value(rows, owner, name),
        holds(rows, owner, name) <==> read_value(rows, owner, name) is Some,
    decreases rows.len(),
{
    lemma_local_rows(rows, owner, name);
    crate::variables::lemma_first_row(rows, owner, name, true);
    crate::variables::lemma_first_row(rows, owner, name, false);
    if kind_value(rows, owner, name, true) is None {
        lemma_any_rows(rows, owner, name);
    } else {
        lemma_holds_of_kind(rows, owner, name, true);
    }
}

proof fn lemma_holds_of_kind(rows: Seq<VariableRow>, owner: Seq<char>, name: Seq<char>, local: bool)
    requires
        kind_value(rows, owner, name, local) is Some,
    ensures
        holds(rows, owner, name),
    decreases rows.len(),
{
    if kind_value(rows.drop_last(), owner, name, local) is Some {
        lemma_holds_of_kind(rows.drop_last(), owner, name, local);
        let i = choose|i: int| 0 <= i < rows.len() - 1 && (#[trigger] rows.drop_last()[i]).owner_id@ == owner
            && rows.drop_last()[i].name@ == name;
        assert(rows[i] == rows.drop_last()[i]);
    } else {
        assert(rows[rows.len() - 1] == rows.last());
    }
}

/// `rows` without the copies of `name` of `owner` of the given kind.
pub open spec fn drop_kind(rows: Seq<VariableRow>, owner: Seq<char>, name: Seq<char>, local: bool) -> Seq<VariableRow>
    decreases rows.len(),
{
    if rows.len() == 0 {
        Seq::empty()
    } else {
        let rest = drop_kind(rows.drop_last(), owner, name, local);
        let r = rows.last();
        if r.owner_id@ == owner && r.name@ == name && r.local == local {
            rest
        } else {
            rest.push(r)
        }
    }
}

proof fn lemma_kind_value_push(rows: Seq<VariableRow>, r: VariableRow, o: Seq<char>, n: Seq<char>, l: bool)
    ensures
        kind_value(rows.push(r), o, n, l) == match kind_value(rows, o, n, l) {
            Some(v) => Some(v),
            None => if r.owner_id@ == o && r.name@ == n && r.local == l { Some(r.value@) } else { None },
        },
{
    assert(rows.push(r).drop_last() =~= rows);
}

proof fn lemma_kind_value_drop(rows: Seq<VariableRow>, owner: Seq<char>, name: Seq<char>, local: bool,
    o: Seq<char>, n: Seq<char>, l: bool)
    ensures
        kind_value(drop_kind(rows, owner, name, local), o, n, l) == if o == owner && n == name && l == local {
            None
        } else {
            kind_value(rows, o, n, l)
        },
    decreases rows.len(),
{
    if rows.len() > 0 {
        lemma_kind_value_drop(rows.drop_last(), owner, name, local, o, n, l);
        let rest = drop_kind(rows.drop_last(), owner, name, local);
        lemma_kind_value_push(rest, rows.last(), o, n, l);
    }
}

fn copy_row(r: &VariableRow) -> (c: VariableRow)
    ensures
        c == *r,
{
    VariableRow { owner_id: r.owner_id.clone(), name: r.name.clone(), value: r.value.clone(), local: r.local }
}

/// Writes `value` as the owner's copy of `name` of the given kind: that copy
/// reads back as `value`, and every other copy is left as it was.
pub fn write_row(rows: &mut Vec<VariableRow>, owner: &String, name: &String, value: &String, local: bool)
    ensures
        forall|o: Seq<char>, n: Seq<char>, l: bool| #[trigger] kind_value(final(rows)@, o, n, l)
            == if o == owner@ && n == name@ && l == local {
                Some(value@)
            } else {
                kind_value(old(rows)@, o, n, l)
            },
{
    let ghost all = rows@;
    let mut kept: Vec<VariableRow> = Vec::new();
    let mut i: usize = 0;
    while i < rows.len()
        invariant
            0 <= i <= rows.len(),
            rows@ == all,
            kept@ == drop_kind(all.take(i as int), owner@, name@, local),
        decreases rows.len() - i,
    {
        proof {
            assert(all.take(i + 1).drop_last() =~= all.take(i as int));
            assert(all.take(i + 1).last() == all[i as int]);
        }
        let r = &rows[i];
        let matching = r.owner_id.eq(owner) && r.name.eq(name) && r.local == local;
        if !matching {
            kept.push(copy_row(r));
        }
        i = i + 1;
    }
    proof {
        assert(all.take(all.len() as int) =~= all);
    }
    let ghost dropped = kept@;
    kept.push(VariableRow { owner_id: owner.clone(), name: name.clone(), value: value.clone(), local });
    *rows = kept;
    proof {
        assert forall|o: Seq<char>, n: Seq<char>, l: bool| #[trigger] kind_value(rows@, o, n, l)
            == if o == owner@ && n == name@ && l == local {
                Some(value@)
            } else {
                kind_value(all, o, n, l)
            } by {
            lemma_kind_value_drop(all, owner@, name@, local, o, n, l);
            lemma_kind_value_push(dropped, rows@.last(), o, n, l);
            assert(dropped.push(rows@.last()) =~= rows@);
        }
    }
}

/// The value the last write of `name` in `writes` carries.
pub open spec fn last_value(writes: Seq<(Seq<char>, Seq<char>)>, name: Seq<char>) -> Option<Seq<char>>
    decreases writes.len(),
{
    if writes.len() == 0 {
        None
    } else if writes.last().0 == name {
        Some(writes.last().1)
    } else {
        last_value(writes.drop_last(), name)
    }
}

pub open spec fn write_views(writes: Seq<(String, String)>) -> Seq<(Seq<char>, Seq<char>)> {
    writes.map_values(|w: (String, String)| (w.0@, w.1@))
}

/// Whether some write of `name` goes to `owner`'s copy of kind `local`.
pub open spec fn writes_copy(writes: Seq<(Seq<char>, Seq<char>)>, owners: Seq<Seq<char>>, kinds: Seq<bool>,
    owner: Seq<char>, name: Seq<char>, local: bool) -> bool {
    exists|i: int| 0 <= i < writes.len() && (#[trigger] writes[i]).0 == name && owners[i] == owner && kinds[i] == local
}

/// Whether the copy each write goes to depends on its name alone.
pub open spec fn targets_by_name(writes: Seq<(Seq<char>, Seq<char>)>, owners: Seq<Seq<char>>, kinds: Seq<bool>) -> bool {
    forall|i: int, j: int| 0 <= i < writes.len() && 0 <= j < writes.len() && (#[trigger] writes[i]).0
        == (#[trigger] writes[j]).0 ==> owners[i] == owners[j] && kinds[i] == kinds[j]
}

/// The copies after a batch of writes: a copy some write went to holds the
/// last value written for its name; every other copy is unchanged.
pub open spec fn after_writes(before: Seq<VariableRow>, writes: Seq<(Seq<char>, Seq<char>)>, owners: Seq<Seq<char>>,
    kinds: Seq<bool>, o: Seq<char>, n: Seq<char>, l: bool) -> Option<Seq<char>> {
    if writes_copy(writes, owners, kinds, o, n, l) {
        last_value(writes, n)
    } else {
        kind_value(before, o, n, l)
    }
}

proof fn lemma_after_writes_step(before: Seq<VariableRow>, writes: Seq<(Seq<char>, Seq<char>)>, owners: Seq<Seq<char>>,
    kinds: Seq<bool>, k: int, o: Seq<char>, n: Seq<char>, l: bool)
    requires
        0 <= k < writes.len(),
        writes.len() == owners.len(),
        writes.len() == kinds.len(),
        targets_by_name(writes, owners, kinds),
    ensures
        after_writes(before, writes.take(k + 1), owners.take(k + 1), kinds.take(k + 1), o, n, l) == if o
            == owners[k] && n == writes[k].0 && l == kinds[k] {
            Some(writes[k].1)
        } else {
            after_writes(before, writes.take(k), owners.take(k), kinds.take(k), o, n, l)
        },
{
    let w1 = writes.take(k + 1);
    let w0 = writes.take(k);
    assert(w1.drop_last() =~= w0);
    assert(w1.last() == writes[k]);
    if o == owners[k] && n == writes[k].0 && l == kinds[k] {
        assert(w1[k] == writes[k]);
        assert(writes_copy(w1, owners.take(k + 1), kinds.take(k + 1), o, n, l));
    } else if n == writes[k].0 {
        assert(!writes_copy(w1, owners.take(k + 1), kinds.take(k + 1), o, n, l)) by {
            if writes_copy(w1, owners.take(k + 1), kinds.take(k + 1), o, n, l) {
                let i = choose|i: int| 0 <= i < w1.len() && (#[trigger] w1[i]).0 == n && owners.take(k + 1)[i] == o
                    && kinds.take(k + 1)[i] == l;
                assert(writes[i] == w1[i]);
                assert(writes[i].0 == writes[k].0);
            }
        }
        assert(!writes_copy(w0, owners.take(k), kinds.take(k), o, n, l)) by {
            if writes_copy(w0, owners.take(k), kinds.take(k), o, n, l) {
                let i = choose|i: int| 0 <= i < w0.len() && (#[trigger] w0[i]).0 == n && owners.take(k)[i] == o
                    && kinds.take(k)[i] == l;
                assert(writes[i] == w0[i]);
                assert(writes[i].0 == writes[k].0);
            }
        }
    } else {
        assert(writes_copy(w1, owners.take(k + 1), kinds.take(k + 1), o, n, l) == writes_copy(w0, owners.take(k),
            kinds.take(k), o, n, l)) by {
            if writes_copy(w1, owners.take(k + 1), kinds.take(k + 1), o, n, l) {
                let i = choose|i: int| 0 <= i < w1.len() && (#[trigger] w1[i]).0 == n && owners.take(k + 1)[i] == o
                    && kinds.take(k + 1)[i] == l;
                assert(i != k);
                assert(w0[i] == w1[i]);
            }
            if writes_copy(w0, owners.take(k), kinds.take(k), o, n, l) {
                let i = choose|i: int| 0 <= i < w0.len() && (#[trigger] w0[i]).0 == n && owners.take(k)[i] == o
                    && kinds.take(k)[i] == l;
                assert(w0[i] == w1[i]);
            }
        }
    }
}

/// Applies the writes in order, write `i` to the copy of kind `kinds[i]` of
/// `owners[i]`.
pub fn apply_writes(rows: &mut Vec<VariableRow>, writes: &Vec<(String, String)>, owners: &Vec<String>, kinds: &Vec<bool>)
    requires
        writes@.len() == owners@.len(),
        writes@.len() == kinds@.len(),
        targets_by_name(write_views(writes@), crate::execution_tree::string_views(owners@), kinds@),
    ensures
        forall|o: Seq<char>, n: Seq<char>, l: bool| #[trigger] kind_value(final(rows)@, o, n, l)
            == after_writes(old(rows)@, write_views(writes@), crate::execution_tree::string_views(owners@), kinds@, o, n, l),
{
    let ghost before = rows@;
    let ghost ws = write_views(writes@);
    let ghost os = crate::execution_tree::string_views(owners@);
    let mut k: usize = 0;
    proof {
        assert forall|o: Seq<char>, n: Seq<char>, l: bool| #[trigger] kind_value(rows@, o, n, l)
            == after_writes(before, ws.take(0), os.take(0), kinds@.take(0), o, n, l) by {}
    }
    while k < writes.len()
        invariant
            0 <= k <= writes.len(),
            writes@.len() == owners@.len(),
            writes@.len() == kinds@.len(),
            ws == write_views(writes@),
            os == crate::execution_tree::string_views(owners@),
            targets_by_name(ws, os, kinds@),
            forall|o: Seq<char>, n: Seq<char>, l: bool| #[trigger] kind_value(rows@, o, n, l)
                == after_writes(before, ws.take(k as int), os.take(k as int), kinds@.take(k as int), o, n, l),
        decreases writes.len() - k,
    {
        let ghost prev = rows@;
        write_row(rows, &owners[k], &writes[k].0, &writes[k].1, kinds[k]);
        proof {
            assert forall|o: Seq<char>, n: Seq<char>, l: bool| #[trigger] kind_value(rows@, o, n, l)
                == after_writes(before, ws.take(k + 1), os.take(k + 1), kinds@.take(k + 1), o, n, l) by {
                lemma_after_writes_step(before, ws, os, kinds@, k as int, o, n, l);
                assert(kind_value(prev, o, n, l) == after_writes(before, ws.take(k as int), os.take(k as int),
                    kinds@.take(k as int), o, n, l));
            }
        }
        k = k + 1;
    }
    proof {
        assert(ws.take(writes.len() as int) =~= ws);
        assert(os.take(writes.len() as int) =~= os);
        assert(kinds@.take(writes.len() as int) =~= kinds@);
    }
}

/// Whether a batch mode refuses a write, given whether its name is present.
pub open spec fn refuses(mode: VariableMutationMode, present: bool) -> bool {
    match mode {
        VariableMutationMode::CreateOnly => present,
        VariableMutationMode::UpdateOnly => !present,
        VariableMutationMode::Upsert => false,
    }
}

/// The first write the mode refuses.
pub fn first_refused(mode: VariableMutationMode, present: &Vec<bool>) -> (r: Option<usize>)
    ensures
        match r {
            Some(k) => k < present@.len() && refuses(mode, present@[k as int])
                && forall|j: int| 0 <= j < k ==> !refuses(mode, #[trigger] present@[j]),
            None => forall|j: int| 0 <= j < present@.len() ==> !refuses(mode, #[trigger] present@[j]),
        },
{
    let mut k: usize = 0;
    while k < present.len()
        invariant
            0 <= k <= present.len(),
            forall|j: int| 0 <= j < k ==> !refuses(mode, #[trigger] present@[j]),
        decreases present.len() - k,
    {
        let refused = match mode {
            VariableMutationMode::CreateOnly => present[k],
            VariableMutationMode::UpdateOnly => !present[k],
            VariableMutationMode::Upsert => false,
        };
        if refused {
            return Some(k);
        }
        k = k + 1;
    }
    None
}

/// Whether some write has an empty name.
pub fn has_unnamed(writes: &Vec<(String, String)>) -> (r: bool)
    ensures
        r == exists|i: int| 0 <= i < writes@.len() && (#[trigger] write_views(writes@)[i]).0.len() == 0,
{
    let mut k: usize = 0;
    while k < writes.len()
        invariant
            0 <= k <= writes.len(),
            forall|i: int| 0 <= i < k ==> (#[trigger] write_views(writes@)[i]).0.len() != 0,
        decreases writes.len() - k,
    {
        if writes[k].0.unicode_len() == 0 {
            proof {
                assert(write_views(writes@)[k as int].0 == writes@[k as int].0@);
            }
            return true;
        }
        proof {
            assert(write_views(writes@)[k as int].0 == writes@[k as int].0@);
        }
        k = k + 1;
    }
    false
}

proof fn lemma_string_views_push(v: Seq<String>, s: String)
    ensures
        string_views(v.push(s)) == string_views(v).push(s@),
{
    assert(string_views(v.push(s)) =~= string_views(v).push(s@));
}

proof fn lemma_write_views_push(v: Seq<(String, String)>, w: (String, String))
    ensures
        write_views(v.push(w)) == write_views(v).push((w.0@, w.1@)),
{
    assert(write_views(v.push(w)) =~= write_views(v).push((w.0@, w.1@)));
}

/// `n` copies of `owner`.
fn repeated_owner(owner: &String, n: usize) -> (r: Vec<String>)
    ensures
        r@.len() == n,
        string_views(r@) == Seq::new(n as nat, |i: int| owner@),
{
    let mut r: Vec<String> = Vec::new();
    while r.len() < n
        invariant
            r@.len() <= n,
            string_views(r@) == Seq::new(r@.len(), |i: int| owner@),
        decreases n - r@.len(),
    {
        let ghost prev = r@;
        let c = owner.clone();
        r.push(c);
        proof {
            lemma_string_views_push(prev, c);
            assert(string_views(r@) =~= Seq::new(r@.len(), |i: int| owner@));
        }
    }
    r
}

/// `n` copies of `kind`.
fn repeated_kind(kind: bool, n: usize) -> (r: Vec<bool>)
    ensures
        r@ == Seq::new(n as nat, |i: int| kind),
{
    let mut r: Vec<bool> = Vec::new();
    while r.len() < n
        invariant
            r@.len() <= n,
            r@ == Seq::new(r@.len(), |i: int| kind),
        decreases n - r@.len(),
    {
        r.push(kind);
    }
    r
}

/// One variable a batch writes: its name and its value's JSON text.
#[derive(Debug)]
pub struct TaskVariableMutation {
    pub name: String,
    pub value: String,
}

pub open spec fn task_writes(m: Seq<TaskVariableMutation>) -> Seq<(Seq<char>, Seq<char>)> {
    m.map_values(|x: TaskVariableMutation| (x.name@, x.value@))
}

fn task_write_pairs(m: &Vec<TaskVariableMutation>) -> (r: Vec<(String, String)>)
    ensures
        write_views(r@) == task_writes(m@),
{
    let mut r: Vec<(String, String)> = Vec::new();
    let mut k: usize = 0;
    while k < m.len()
        invariant
            0 <= k <= m.len(),
            write_views(r@) == task_writes(m@).take(k as int),
        decreases m.len() - k,
    {
        let ghost prev = r@;
        let w = (m[k].name.clone(), m[k].value.clone());
        r.push(w);
        proof {
            lemma_write_views_push(prev, w);
            assert(task_writes(m@).take(k + 1) =~= task_writes(m@).take(k as int).push(task_writes(m@)[k as int]));
            assert(write_views(r@) =~= task_writes(m@).take(k + 1));
        }
        k = k + 1;
    }
    proof {
        assert(task_writes(m@).take(m@.len() as int) =~= task_writes(m@));
    }
    r
}

/// The execution a task's global write of `name` lands on: the nearest
/// execution up from the task's execution that holds it, else the root.
pub open spec fn global_owner(store: RuntimeStore, rows: Seq<VariableRow>, execution_id: Seq<char>, name: Seq<char>) -> Seq<char> {
    match variable_owner(store, rows, execution_id, name) {
        Some(o) => o,
        None => {
            let chain = ancestry(store.executions@, execution_id, 256);
            if chain.len() > 0 {
                chain.last()
            } else {
                execution_id
            }
        },
    }
}

/// Whether `name` is present on the scope of the task a batch addresses.
pub open spec fn task_present(store: RuntimeStore, vars: Variables, task: Task, scope: TaskVariableScope, name: Seq<char>) -> bool {
    match scope {
        TaskVariableScope::Local => holds(vars.task_rows@, task.id@, name),
        TaskVariableScope::Global => variable_owner(store, vars.execution_rows@, task.execution_id@, name) is Some,
    }
}

/// Whether a write to a scope of `task` may start: the task is active, and
/// the global scope has an active execution to write to.
pub open spec fn task_guard_ok(store: RuntimeStore, task: Task, scope: TaskVariableScope) -> bool {
    &&& !task.suspended
    &&& scope == TaskVariableScope::Global ==> task.execution_id@.len() > 0 && store.executions@.contains_key(
        task.execution_id@) && !store.executions@[task.execution_id@].is_suspended
}

/// The error a refused task write ends with.
pub open spec fn task_refusal(mode: VariableMutationMode, task_id: Seq<char>, name: Seq<char>, e: FlowableError) -> bool {
    match mode {
        VariableMutationMode::CreateOnly => e is Conflict && e->Conflict_0@ == "Variable '"@ + name
            + "' is already present on task '"@ + task_id + "'."@,
        _ => e is NotFound && e->NotFound_0@ == "Task '"@ + task_id + "' does not have a variable with name: '"@ + name
            + "'."@,
    }
}

/// Writes a batch of variables to one scope of a task, checking the whole
/// batch before writing any of it.
#[derive(Debug)]
pub struct MutateTaskVariablesCmd {
    pub task_id: String,
    pub scope: TaskVariableScope,
    pub mode: VariableMutationMode,
    pub mutations: Vec<TaskVariableMutation>,
}

impl MutateTaskVariablesCmd {
    pub fn new(task_id: String, scope: TaskVariableScope, mode: VariableMutationMode, mutations: Vec<TaskVariableMutation>)
        -> (r: Self)
        ensures
            r == (MutateTaskVariablesCmd { task_id, scope, mode, mutations }),
    {
        MutateTaskVariablesCmd { task_id, scope, mode, mutations }
    }

    /// The task must exist and pass its scope guard, every name must be
    /// non-empty and the mode must accept every write (judged on the
    /// variables before the batch); then each write lands, in order: on the
    /// task's own copy (local scope), or as the process copy on the
    /// execution that already holds the name up from the task's execution,
    /// else on the root execution (global scope).
    pub fn run(&self, store: &RuntimeStore, variables: &mut Variables) -> (r: Result<(), FlowableError>)
        requires
            store.wf(),
        ensures
            ({
                let t = store.tasks@[self.task_id@];
                let ws = task_writes(self.mutations@);
                let present = Seq::new(ws.len(), |i: int| task_present(*store, *old(variables), t, self.scope, ws[i].0));
                &&& r is Ok <==> {
                    &&& store.tasks@.contains_key(self.task_id@)
                    &&& task_guard_ok(*store, t, self.scope)
                    &&& forall|i: int| 0 <= i < ws.len() ==> (#[trigger] ws[i]).0.len() > 0
                    &&& forall|i: int| 0 <= i < ws.len() ==> !refuses(self.mode, #[trigger] present[i])
                }
                &&& r matches Err(e) ==> {
                    &&& *final(variables) == *old(variables)
                    &&& if !store.tasks@.contains_key(self.task_id@) {
                        e is NotFound && e->NotFound_0@ == "Cannot find task with id "@ + self.task_id@
                    } else if t.suspended {
                        e is ExecutionError
                    } else if !task_guard_ok(*store, t, self.scope) {
                        if t.execution_id@.len() == 0 {
                            e is BadRequest
                        } else if !store.executions@.contains_key(t.execution_id@) {
                            e is NotFound
                        } else {
                            e is ExecutionError
                        }
                    } else if exists|i: int| 0 <= i < ws.len() && (#[trigger] ws[i]).0.len() == 0 {
                        e is BadRequest && e->BadRequest_0@ == "Variable name is required"@
                    } else {
                        exists|k: int| 0 <= k < ws.len() && refuses(self.mode, #[trigger] present[k])
                            && (forall|j: int| 0 <= j < k ==> !refuses(self.mode, #[trigger] present[j]))
                            && task_refusal(self.mode, t.id@, ws[k].0, e)
                    }
                }
                &&& r is Ok ==> match self.scope {
                    TaskVariableScope::Local => {
                        &&& final(variables).execution_rows == old(variables).execution_rows
                        &&& forall|o: Seq<char>, n: Seq<char>, l: bool| #[trigger] kind_value(final(variables).task_rows@, o, n, l)
                            == after_writes(old(variables).task_rows@, ws, Seq::new(ws.len(), |i: int| t.id@),
                            Seq::new(ws.len(), |i: int| true), o, n, l)
                    },
                    TaskVariableScope::Global => {
                        &&& final(variables).task_rows == old(variables).task_rows
                        &&& forall|o: Seq<char>, n: Seq<char>, l: bool| #[trigger] kind_value(final(variables).execution_rows@, o, n, l)
                            == after_writes(old(variables).execution_rows@, ws, Seq::new(ws.len(), |i: int| global_owner(
                            *store, old(variables).execution_rows@, t.execution_id@, ws[i].0)), Seq::new(ws.len(), |i: int| false),
                            o, n, l)
                    },
                }
            }),
    {
        let task = load_task(store, &self.task_id)?;
        let _ = validate_scope_guard(store, &task, self.scope, "set")?;
        let writes = task_write_pairs(&self.mutations);
        let ghost ws = write_views(writes@);
        if has_unnamed(&writes) {
            return Err(FlowableError::BadRequest(String::from_str("Variable name is required")));
        }
        let ghost present_spec = Seq::new(ws.len(), |i: int| task_present(*store, *variables, task, self.scope, ws[i].0));
        let mut present: Vec<bool> = Vec::new();
        let mut k: usize = 0;
        while k < writes.len()
            invariant
                0 <= k <= writes.len(),
                store.wf(),
                ws == write_views(writes@),
                present_spec == Seq::new(ws.len(), |i: int| task_present(*store, *variables, task, self.scope, ws[i].0)),
                present@ == present_spec.take(k as int),
            decreases writes.len() - k,
        {
            let name = writes[k].0.as_str();
            let p = match self.scope {
                TaskVariableScope::Local => local_scope_contains(&variables.task_rows, task.id.as_str(), name),
                TaskVariableScope::Global => find_execution_variable(store, &variables.execution_rows,
                    &task.execution_id, name).is_some(),
            };
            present.push(p);
            proof {
                assert(ws[k as int].0 == name@);
                assert(present@ =~= present_spec.take(k + 1));
            }
            k = k + 1;
        }
        proof {
            assert(present@ =~= present_spec);
        }
        if let Some(k) = first_refused(self.mode, &present) {
            let name = writes[k].0.as_str();
            proof {
                assert(ws[k as int].0 == name@);
                reveal_strlit("Variable '");
                reveal_strlit("' is already present on task '");
                reveal_strlit("'.");
                reveal_strlit("Task '");
                reveal_strlit("' does not have a variable with name: '");
            }
            let e = match self.mode {
                VariableMutationMode::CreateOnly => {
                    let mut m = crate::text::cat3("Variable '", name, "' is already present on task '");
                    m.append(task.id.as_str());
                    m.append("'.");
                    FlowableError::Conflict(m)
                },
                _ => {
                    let mut m = crate::text::cat3("Task '", task.id.as_str(), "' does not have a variable with name: '");
                    m.append(name);
                    m.append("'.");
                    FlowableError::NotFound(m)
                },
            };
            return Err(e);
        }
        match self.scope {
            TaskVariableScope::Local => {
                let owners = repeated_owner(&task.id, writes.len());
                let kinds = repeated_kind(true, writes.len());
                proof {
                    assert(string_views(owners@) =~= Seq::new(ws.len(), |i: int| task.id@));
                }
                apply_writes(&mut variables.task_rows, &writes, &owners, &kinds);
            },
            TaskVariableScope::Global => {
                let ghost before = variables.execution_rows@;
                let ghost want = Seq::new(ws.len(), |i: int| global_owner(*store, before, task.execution_id@, ws[i].0));
                let mut owners: Vec<String> = Vec::new();
                let mut k: usize = 0;
                while k < writes.len()
                    invariant
                        0 <= k <= writes.len(),
                        store.wf(),
                        ws == write_views(writes@),
                        variables.execution_rows@ == before,
                        want == Seq::new(ws.len(), |i: int| global_owner(*store, before, task.execution_id@, ws[i].0)),
                        string_views(owners@) == want.take(k as int),
                    decreases writes.len() - k,
                {
                    let o = resolve_variable_owner(store, &variables.execution_rows, &task.execution_id, writes[k].0.as_str());
                    let ghost prev = owners@;
                    owners.push(o);
                    proof {
                        lemma_string_views_push(prev, o);
                        assert(want.take(k + 1) =~= want.take(k as int).push(want[k as int]));
                        assert(ws[k as int].0 == writes@[k as int].0@);
                        assert(string_views(owners@) =~= want.take(k + 1));
                    }
                    k = k + 1;
                }
                let kinds = repeated_kind(false, writes.len());
                proof {
                    assert(string_views(owners@) =~= want);
                }
                apply_writes(&mut variables.execution_rows, &writes, &owners, &kinds);
            },
        }
        Ok(())
    }
}

/// Whether `owner` has a copy of `name` of the given kind.
pub fn has_copy(rows: &Vec<VariableRow>, owner: &str, name: &str, local: bool) -> (r: bool)
    ensures
        r == kind_value(rows@, owner@, name@, local) is Some,
{
    let mut i: usize = 0;
    while i < rows.len()
        invariant
            0 <= i <= rows.len(),
            kind_value(rows@.take(i as int), owner@, name@, local) is None,
        decreases rows.len() - i,
    {
        proof {
            assert(rows@.take(i + 1).drop_last() =~= rows@.take(i as int));
            assert(rows@.take(i + 1).last() == rows@[i as int]);
        }
        let row = &rows[i];
        if crate::ordering::str_eq(row.owner_id.as_str(), owner) && crate::ordering::str_eq(row.name.as_str(), name)
            && row.local == local {
            proof {
                lemma_kind_value_prefix(rows@, owner@, name@, local, i + 1);
            }
            return true;
        }
        i = i + 1;
    }
    proof {
        assert(rows@.take(rows.len() as int) =~= rows@);
    }
    false
}

proof fn lemma_kind_value_prefix(rows: Seq<VariableRow>, owner: Seq<char>, name: Seq<char>, local: bool, n: int)
    requires
        0 <= n <= rows.len(),
        kind_value(rows.take(n), owner, name, local) is Some,
    ensures
        kind_value(rows, owner, name, local) is Some,
    decreases rows.len() - n,
{
    if n < rows.len() {
        assert(rows.take(n + 1).drop_last() =~= rows.take(n));
        lemma_kind_value_prefix(rows, owner, name, local, n + 1);
    } else {
        assert(rows.take(n) =~= rows);
    }
}

/// The kind of copy a write to an execution's own scope lands in: the
/// process copy when the execution holds the name only as a process copy,
/// else its local copy.
pub open spec fn local_write_kind(rows: Seq<VariableRow>, owner: Seq<char>, name: Seq<char>) -> bool {
    !(kind_value(rows, owner, name, true) is None && kind_value(rows, owner, name, false) is Some)
}

/// One variable an execution batch writes: its name and its value's JSON text.
#[derive(Debug)]
pub struct ExecutionVariableMutation {
    pub name: String,
    pub value: String,
}

pub open spec fn execution_writes(m: Seq<ExecutionVariableMutation>) -> Seq<(Seq<char>, Seq<char>)> {
    m.map_values(|x: ExecutionVariableMutation| (x.name@, x.value@))
}

fn execution_write_pairs(m: &Vec<ExecutionVariableMutation>) -> (r: Vec<(String, String)>)
    ensures
        write_views(r@) == execution_writes(m@),
{
    let mut r: Vec<(String, String)> = Vec::new();
    let mut k: usize = 0;
    while k < m.len()
        invariant
            0 <= k <= m.len(),
            write_views(r@) == execution_writes(m@).take(k as int),
        decreases m.len() - k,
    {
        let ghost prev = r@;
        let w = (m[k].name.clone(), m[k].value.clone());
        r.push(w);
        proof {
            lemma_write_views_push(prev, w);
            assert(execution_writes(m@).take(k + 1) =~= execution_writes(m@).take(k as int).push(
                execution_writes(m@)[k as int]));
            assert(write_views(r@) =~= execution_writes(m@).take(k + 1));
        }
        k = k + 1;
    }
    proof {
        assert(execution_writes(m@).take(m@.len() as int) =~= execution_writes(m@));
    }
    r
}

/// Whether each write's name is present on the addressed scope of `e`.
pub open spec fn execution_presence(store: RuntimeStore, rows: Seq<VariableRow>, e: Execution, scope: ExecutionVariableScope,
    ws: Seq<(Seq<char>, Seq<char>)>) -> Seq<bool> {
    Seq::new(ws.len(), |i: int| present_on_scope(store, rows, e, scope, ws[i].0))
}

/// Whether a batch for a scope of execution `id` passes its checks.
pub open spec fn execution_batch_ok(store: RuntimeStore, rows: Seq<VariableRow>, id: Seq<char>, scope: ExecutionVariableScope,
    mode: VariableMutationMode, ws: Seq<(Seq<char>, Seq<char>)>) -> bool {
    let e = store.executions@[id];
    let present = execution_presence(store, rows, e, scope, ws);
    &&& store.executions@.contains_key(id)
    &&& forall|i: int| 0 <= i < ws.len() ==> (#[trigger] ws[i]).0.len() > 0
    &&& forall|i: int| 0 <= i < ws.len() ==> !refuses(mode, #[trigger] present[i])
    &&& scope_target(store, e, scope) matches Some(t) && !t.is_suspended
}

/// The error a refused execution write ends with.
pub open spec fn execution_refusal(mode: VariableMutationMode, id: Seq<char>, name: Seq<char>, e: FlowableError) -> bool {
    match mode {
        VariableMutationMode::CreateOnly => e is Conflict && e->Conflict_0@ == "Variable '"@ + name
            + "' is already present on execution '"@ + id + "'."@,
        _ => e is NotFound && e->NotFound_0@ == "Execution '"@ + id + "' does not have a variable with name: '"@ + name
            + "'."@,
    }
}

/// The error a batch for a scope of execution `id` ends with, by the first
/// check it fails.
pub open spec fn execution_batch_error(store: RuntimeStore, rows: Seq<VariableRow>, id: Seq<char>,
    scope: ExecutionVariableScope, mode: VariableMutationMode, ws: Seq<(Seq<char>, Seq<char>)>, err: FlowableError) -> bool {
    let e = store.executions@[id];
    let present = execution_presence(store, rows, e, scope, ws);
    if !store.executions@.contains_key(id) {
        err is NotFound && err->NotFound_0@ == "Execution '"@ + id + "' was not found"@
    } else if exists|i: int| 0 <= i < ws.len() && (#[trigger] ws[i]).0.len() == 0 {
        err is BadRequest && err->BadRequest_0@ == "Variable name is required"@
    } else if exists|i: int| 0 <= i < ws.len() && refuses(mode, #[trigger] present[i]) {
        exists|k: int| 0 <= k < ws.len() && refuses(mode, #[trigger] present[k])
            && (forall|j: int| 0 <= j < k ==> !refuses(mode, #[trigger] present[j]))
            && execution_refusal(mode, id, ws[k].0, err)
    } else if scope == ExecutionVariableScope::Global && e.parent_id is None {
        err is BadRequest
    } else if scope_target(store, e, scope) is None {
        err is NotFound
    } else {
        err is ExecutionError && err->ExecutionError_0@ == "Cannot set variables to a suspended execution '"@
            + scope_target(store, e, scope)->0.id@ + "'"@
    }
}

/// Checks a batch for a scope of execution `id` and gives the execution
/// the batch writes to.
pub fn check_execution_batch(store: &RuntimeStore, rows: &Vec<VariableRow>, id: &String, scope: ExecutionVariableScope,
    mode: VariableMutationMode, writes: &Vec<(String, String)>) -> (r: Result<Execution, FlowableError>)
    requires
        store.wf(),
    ensures
        r is Ok <==> execution_batch_ok(*store, rows@, id@, scope, mode, write_views(writes@)),
        r matches Ok(t) ==> scope_target(*store, store.executions@[id@], scope) == Some(t),
        r matches Err(e) ==> execution_batch_error(*store, rows@, id@, scope, mode, write_views(writes@), e),
{
    let ghost ws = write_views(writes@);
    let execution = load_execution(store, id)?;
    if has_unnamed(writes) {
        return Err(FlowableError::BadRequest(String::from_str("Variable name is required")));
    }
    let ghost present_spec = execution_presence(*store, rows@, execution, scope, ws);
    let mut present: Vec<bool> = Vec::new();
    let mut k: usize = 0;
    while k < writes.len()
        invariant
            0 <= k <= writes.len(),
            store.wf(),
            ws == write_views(writes@),
            present_spec == execution_presence(*store, rows@, execution, scope, ws),
            present@ == present_spec.take(k as int),
        decreases writes.len() - k,
    {
        let p = is_variable_present(store, rows, &execution, scope, writes[k].0.as_str());
        present.push(p);
        proof {
            assert(ws[k as int].0 == writes@[k as int].0@);
            assert(present@ =~= present_spec.take(k + 1));
        }
        k = k + 1;
    }
    proof {
        assert(present@ =~= present_spec);
    }
    if let Some(k) = first_refused(mode, &present) {
        let name = writes[k].0.as_str();
        proof {
            assert(ws[k as int].0 == name@);
        }
        let e = match mode {
            VariableMutationMode::CreateOnly => {
                let mut m = crate::text::cat3("Variable '", name, "' is already present on execution '");
                m.append(execution.id.as_str());
                m.append("'.");
                FlowableError::Conflict(m)
            },
            _ => {
                let mut m = crate::text::cat3("Execution '", execution.id.as_str(), "' does not have a variable with name: '");
                m.append(name);
                m.append("'.");
                FlowableError::NotFound(m)
            },
        };
        return Err(e);
    }
    let target = match scope {
        ExecutionVariableScope::Local => execution,
        ExecutionVariableScope::Global => resolve_global_target(store, &execution, "set")?,
    };
    require_active_for_set(&target)?;
    Ok(target)
}

/// Writes a batch of variables to one scope of an execution, checking the
/// whole batch before writing any of it.
#[derive(Debug)]
pub struct MutateExecutionVariablesCmd {
    pub execution_id: String,
    pub scope: ExecutionVariableScope,
    pub mode: VariableMutationMode,
    pub mutations: Vec<ExecutionVariableMutation>,
}

impl MutateExecutionVariablesCmd {
    pub fn new(execution_id: String, scope: ExecutionVariableScope, mode: VariableMutationMode,
        mutations: Vec<ExecutionVariableMutation>) -> (r: Self)
        ensures
            r == (MutateExecutionVariablesCmd { execution_id, scope, mode, mutations }),
    {
        MutateExecutionVariablesCmd { execution_id, scope, mode, mutations }
    }

    /// After the checks of [`check_execution_batch`], each write lands on
    /// the target execution in order: the local scope keeps a name the
    /// execution holds only as a process copy in that copy and puts any
    /// other name in its local copy; the global scope writes the parent's
    /// process copy.
    pub fn run(&self, store: &RuntimeStore, variables: &mut Variables) -> (r: Result<(), FlowableError>)
        requires
            store.wf(),
        ensures
            ({
                let ws = execution_writes(self.mutations@);
                let before = old(variables).execution_rows@;
                let e = store.executions@[self.execution_id@];
                &&& r is Ok <==> execution_batch_ok(*store, before, self.execution_id@, self.scope, self.mode, ws)
                &&& r matches Err(err) ==> *final(variables) == *old(variables) && execution_batch_error(*store, before,
                    self.execution_id@, self.scope, self.mode, ws, err)
                &&& r is Ok ==> {
                    let t = scope_target(*store, e, self.scope)->0;
                    let kinds = match self.scope {
                        ExecutionVariableScope::Local => Seq::new(ws.len(), |i: int| local_write_kind(before, t.id@, ws[i].0)),
                        ExecutionVariableScope::Global => Seq::new(ws.len(), |i: int| false),
                    };
                    &&& final(variables).task_rows == old(variables).task_rows
                    &&& forall|o: Seq<char>, n: Seq<char>, l: bool| #[trigger] kind_value(final(variables).execution_rows@, o, n, l)
                        == after_writes(before, ws, Seq::new(ws.len(), |i: int| t.id@), kinds, o, n, l)
                }
            }),
    {
        let writes = execution_write_pairs(&self.mutations);
        let ghost ws = write_views(writes@);
        let target = check_execution_batch(store, &variables.execution_rows, &self.execution_id, self.scope, self.mode,
            &writes)?;
        let owners = repeated_owner(&target.id, writes.len());
        let kinds: Vec<bool> = match self.scope {
            ExecutionVariableScope::Local => {
                let ghost want = Seq::new(ws.len(), |i: int| local_write_kind(variables.execution_rows@, target.id@, ws[i].0));
                let mut kinds: Vec<bool> = Vec::new();
                let mut k: usize = 0;
                while k < writes.len()
                    invariant
                        0 <= k <= writes.len(),
                        ws == write_views(writes@),
                        want == Seq::new(ws.len(), |i: int| local_write_kind(variables.execution_rows@, target.id@, ws[i].0)),
                        kinds@ == want.take(k as int),
                    decreases writes.len() - k,
                {
                    let name = writes[k].0.as_str();
                    let local = has_copy(&variables.execution_rows, target.id.as_str(), name, true);
                    let process = has_copy(&variables.execution_rows, target.id.as_str(), name, false);
                    kinds.push(!(!local && process));
                    proof {
                        assert(ws[k as int].0 == name@);
                        assert(kinds@ =~= want.take(k + 1));
                    }
                    k = k + 1;
                }
                proof {
                    assert(kinds@ =~= want);
                }
                kinds
            },
            ExecutionVariableScope::Global => repeated_kind(false, writes.len()),
        };
        proof {
            assert(string_views(owners@) =~= Seq::new(ws.len(), |i: int| target.id@));
        }
        apply_writes(&mut variables.execution_rows, &writes, &owners, &kinds);
        Ok(())
    }
}

/// The job that writes a batch later: its target execution, the writes
/// (the last write of a name wins) and whether they go to the local scope.
#[derive(Debug)]
pub struct SetAsyncVariablesJob {
    pub execution_id: String,
    pub writes: Vec<(String, String)>,
    pub local: bool,
}

/// Checks a batch now and hands its writes to a job that applies them later.
#[derive(Debug)]
pub struct MutateExecutionVariablesAsyncCmd {
    pub execution_id: String,
    pub scope: ExecutionVariableScope,
    pub mode: VariableMutationMode,
    pub mutations: Vec<ExecutionVariableMutation>,
}

impl MutateExecutionVariablesAsyncCmd {
    pub fn new(execution_id: String, scope: ExecutionVariableScope, mode: VariableMutationMode,
        mutations: Vec<ExecutionVariableMutation>) -> (r: Self)
        ensures
            r == (MutateExecutionVariablesAsyncCmd { execution_id, scope, mode, mutations }),
    {
        MutateExecutionVariablesAsyncCmd { execution_id, scope, mode, mutations }
    }

    /// The same checks as the synchronous batch; an empty batch schedules
    /// nothing, any other schedules one job on the target execution.
    pub fn run(&self, store: &RuntimeStore, variables: &Variables) -> (r: Result<Option<SetAsyncVariablesJob>, FlowableError>)
        requires
            store.wf(),
        ensures
            ({
                let ws = execution_writes(self.mutations@);
                let rows = variables.execution_rows@;
                &&& r is Ok <==> execution_batch_ok(*store, rows, self.execution_id@, self.scope, self.mode, ws)
                &&& r matches Err(err) ==> execution_batch_error(*store, rows, self.execution_id@, self.scope, self.mode,
                    ws, err)
                &&& r matches Ok(job) ==> if ws.len() == 0 {
                    job is None
                } else {
                    job matches Some(j) && j.execution_id@ == scope_target(*store, store.executions@[self.execution_id@],
                        self.scope)->0.id@ && write_views(j.writes@) == ws && j.local == (self.scope
                        == ExecutionVariableScope::Local)
                }
            }),
    {
        let writes = execution_write_pairs(&self.mutations);
        let target = check_execution_batch(store, &variables.execution_rows, &self.execution_id, self.scope, self.mode,
            &writes)?;
        if writes.len() == 0 {
            return Ok(None);
        }
        Ok(Some(SetAsyncVariablesJob {
            execution_id: target.id,
            writes,
            local: self.scope == ExecutionVariableScope::Local,
        }))
    }
}

proof fn lemma_last_value_written(ws: Seq<(Seq<char>, Seq<char>)>, i: int)
    requires
        0 <= i < ws.len(),
    ensures
        last_value(ws, ws[i].0) is Some,
    decreases ws.len(),
{
    if ws.last().0 != ws[i].0 {
        assert(i != ws.len() - 1);
        assert(ws.drop_last()[i] == ws[i]);
        lemma_last_value_written(ws.drop_last(), i);
    }
}

/// A write reads back: after a batch has landed on a task's own scope, each
/// name it wrote reads as the last value the batch wrote for it, and every
/// other variable of every task reads as before.
pub proof fn law_task_batch_reads_back(before: Seq<VariableRow>, after: Seq<VariableRow>, task_id: Seq<char>,
    ws: Seq<(Seq<char>, Seq<char>)>)
    requires
        forall|o: Seq<char>, n: Seq<char>, l: bool| #[trigger] kind_value(after, o, n, l) == after_writes(before, ws,
            Seq::new(ws.len(), |j: int| task_id), Seq::new(ws.len(), |j: int| true), o, n, l),
    ensures
        forall|i: int| 0 <= i < ws.len() ==> value_of(after, task_id, (#[trigger] ws[i]).0) == last_value(ws, ws[i].0)
            && last_value(ws, ws[i].0) is Some,
        forall|o: Seq<char>, n: Seq<char>| !(o == task_id && exists|i: int| 0 <= i < ws.len() && (#[trigger] ws[i]).0 == n)
            ==> #[trigger] value_of(after, o, n) == value_of(before, o, n),
{
    let owners = Seq::new(ws.len(), |j: int| task_id);
    let kinds = Seq::new(ws.len(), |j: int| true);
    assert forall|i: int| 0 <= i < ws.len() implies value_of(after, task_id, (#[trigger] ws[i]).0) == last_value(ws, ws[i].0)
        && last_value(ws, ws[i].0) is Some by {
        lemma_read_value(after, task_id, ws[i].0);
        lemma_last_value_written(ws, i);
        assert(writes_copy(ws, owners, kinds, task_id, ws[i].0, true));
        assert(kind_value(after, task_id, ws[i].0, true) == after_writes(before, ws, owners, kinds, task_id, ws[i].0, true));
    }
    assert forall|o: Seq<char>, n: Seq<char>| !(o == task_id && exists|i: int| 0 <= i < ws.len() && (#[trigger] ws[i]).0 == n)
        implies #[trigger] value_of(after, o, n) == value_of(before, o, n) by {
        lemma_read_value(after, o, n);
        lemma_read_value(before, o, n);
        assert(kind_value(after, o, n, true) == after_writes(before, ws, owners, kinds, o, n, true));
        assert(kind_value(after, o, n, false) == after_writes(before, ws, owners, kinds, o, n, false));
        if writes_copy(ws, owners, kinds, o, n, true) {
            let i = choose|i: int| 0 <= i < ws.len() && (#[trigger] ws[i]).0 == n && owners[i] == o && kinds[i] == true;
            assert(false);
        }
        if writes_copy(ws, owners, kinds, o, n, false) {
            let i = choose|i: int| 0 <= i < ws.len() && (#[trigger] ws[i]).0 == n && owners[i] == o && kinds[i] == false;
            assert(false);
        }
    }
}

/// A write to an execution's own scope reads back: after such a batch has
/// landed on execution `target`, each name it wrote reads (local copy
/// first) as the last value the batch wrote for it.
pub proof fn law_execution_local_batch_reads_back(before: Seq<VariableRow>, after: Seq<VariableRow>, target: Seq<char>,
    ws: Seq<(Seq<char>, Seq<char>)>)
    requires
        forall|o: Seq<char>, n: Seq<char>, l: bool| #[trigger] kind_value(after, o, n, l) == after_writes(before, ws,
            Seq::new(ws.len(), |j: int| target), Seq::new(ws.len(), |j: int| local_write_kind(before, target, ws[j].0)),
            o, n, l),
    ensures
        forall|i: int| 0 <= i < ws.len() ==> value_of(after, target, (#[trigger] ws[i]).0) == last_value(ws, ws[i].0)
            && last_value(ws, ws[i].0) is Some,
{
    let owners = Seq::new(ws.len(), |j: int| target);
    let kinds = Seq::new(ws.len(), |j: int| local_write_kind(before, target, ws[j].0));
    assert forall|i: int| 0 <= i < ws.len() implies value_of(after, target, (#[trigger] ws[i]).0) == last_value(ws, ws[i].0)
        && last_value(ws, ws[i].0) is Some by {
        let n = ws[i].0;
        lemma_read_value(after, target, n);
        lemma_last_value_written(ws, i);
        assert(writes_copy(ws, owners, kinds, target, n, kinds[i]));
        assert(kind_value(after, target, n, kinds[i]) == after_writes(before, ws, owners, kinds, target, n, kinds[i]));
        assert(kind_value(after, target, n, true) == after_writes(before, ws, owners, kinds, target, n, true));
        if !kinds[i] {
            if writes_copy(ws, owners, kinds, target, n, true) {
                let j = choose|j: int| 0 <= j < ws.len() && (#[trigger] ws[j]).0 == n && owners[j] == target && kinds[j] == true;
                assert(kinds[j] == local_write_kind(before, target, n));
                assert(false);
            }
        }
    }
}

proof fn lemma_without_names_holds(rows: Seq<VariableRow>, owner: Seq<char>, names: Option<Seq<Seq<char>>>, o: Seq<char>,
    n: Seq<char>)
    ensures
        holds(without_names(rows, owner, names), o, n) <==> holds(rows, o, n) && !(o == owner && (names is None
            || names->0.contains(n))),
    decreases rows.len(),
{
    if rows.len() > 0 {
        let rest = without_names(rows.drop_last(), owner, names);
        lemma_without_names_holds(rows.drop_last(), owner, names, o, n);
        let r = rows.last();
        let w = without_names(rows, owner, names);
        if holds(rows, o, n) && !(o == owner && (names is None || names->0.contains(n))) {
            let i = choose|i: int| 0 <= i < rows.len() && (#[trigger] rows[i]).owner_id@ == o && rows[i].name@ == n;
            if i < rows.len() - 1 {
                assert(rows.drop_last()[i] == rows[i]);
                let k = choose|k: int| 0 <= k < rest.len() && (#[trigger] rest[k]).owner_id@ == o && rest[k].name@ == n;
                if !(r.owner_id@ == owner && (names is None || names->0.contains(r.name@))) {
                    assert(w[k] == rest.push(r)[k]);
                }
            } else {
                assert(w.last() == r);
                assert(w[w.len() - 1] == r);
            }
        }
        if holds(w, o, n) {
            let k = choose|k: int| 0 <= k < w.len() && (#[trigger] w[k]).owner_id@ == o && w[k].name@ == n;
            if r.owner_id@ == owner && (names is None || names->0.contains(r.name@)) {
                assert(rest[k] == w[k]);
            } else if k < rest.len() {
                assert(rest[k] == w[k]);
            } else {
                assert(w[k] == r);
                assert(rows[rows.len() - 1] == r);
            }
            if holds(rest, o, n) {
                let j = choose|j: int| 0 <= j < rows.len() - 1 && (#[trigger] rows.drop_last()[j]).owner_id@ == o
                    && rows.drop_last()[j].name@ == n;
                assert(rows[j] == rows.drop_last()[j]);
            }
        }
    }
}

/// A removal reads back: after the selected variables of `owner` are
/// removed, none of them is held any more, and every other variable is held
/// exactly as before.
pub proof fn law_removed_variables_are_gone(rows: Seq<VariableRow>, owner: Seq<char>, names: Option<Seq<Seq<char>>>)
    ensures
        forall|o: Seq<char>, n: Seq<char>| #[trigger] holds(without_names(rows, owner, names), o, n) <==> holds(rows, o, n)
            && !(o == owner && (names is None || names->0.contains(n))),
{
    assert forall|o: Seq<char>, n: Seq<char>| #[trigger] holds(without_names(rows, owner, names), o, n) <==> holds(rows, o, n)
        && !(o == owner && (names is None || names->0.contains(n))) by {
        lemma_without_names_holds(rows, owner, names, o, n);
    }
}

} // verus!
