//! Execution and task variables: where a variable lives (an execution's own
//! scope, or the nearest ancestor holding it), and the guarded commands that
//! read and remove them.
use vstd::prelude::*;
use crate::entities::{opt_view, Execution, Task};
use crate::error::FlowableError;
use crate::execution_tree::{ancestry, execution_ancestry, string_views};
use crate::store::RuntimeStore;

verus! {

/// One stored variable of an execution or a task; `local` marks an
/// execution's own local copy (which wins over a process copy of the same
/// name on that execution). Values are kept as their JSON text.
#[derive(Debug)]
pub struct VariableRow {
    pub owner_id: String,
    pub name: String,
    pub value: String,
    pub local: bool,
}

/// All stored variables: those of executions and those local to tasks.
#[derive(Debug)]
pub struct Variables {
    pub execution_rows: Vec<VariableRow>,
    pub task_rows: Vec<VariableRow>,
}

/// Which scope of an execution a variable command addresses.
#[derive(Clone, Copy, Debug, PartialEq, Eq, Structural)]
pub enum ExecutionVariableScope {
    /// The execution's own scope.
    Local,
    /// The parent execution's scope.
    Global,
}

/// Which scope of a task a variable command addresses.
#[derive(Clone, Copy, Debug, PartialEq, Eq, Structural)]
pub enum TaskVariableScope {
    /// Stored on the task itself.
    Local,
    /// Stored on the executions of the task's process.
    Global,
}

/// How a batch of variable writes treats existing variables.
#[derive(Clone, Copy, Debug, PartialEq, Eq, Structural)]
pub enum VariableMutationMode {
    /// Fails when a variable is already present.
    CreateOnly,
    /// Fails when a variable is absent.
    UpdateOnly,
    /// Creates absent variables and updates present ones.
    Upsert,
}

/// Whether `owner` holds a variable `name`.
pub open spec fn holds(rows: Seq<VariableRow>, owner: Seq<char>, name: Seq<char>) -> bool {
    exists|i: int| 0 <= i < rows.len() && (#[trigger] rows[i]).owner_id@ == owner && rows[i].name@ == name
}

/// The first row of `owner` named `name` that is `local` (or any, when `any`).
pub open spec fn first_row(rows: Seq<VariableRow>, owner: Seq<char>, name: Seq<char>, local_only: bool) -> Option<int>
    decreases rows.len(),
{
    if rows.len() == 0 {
        None
    } else {
        match first_row(rows.drop_last(), owner, name, local_only) {
            Some(i) => Some(i),
            None => {
                let r = rows.last();
                if r.owner_id@ == owner && r.name@ == name && (!local_only || r.local) {
                    Some(rows.len() - 1)
                } else {
                    None
                }
            },
        }
    }
}

/// The value `owner` holds for `name`: its local copy, else its other copy.
pub open spec fn value_of(rows: Seq<VariableRow>, owner: Seq<char>, name: Seq<char>) -> Option<Seq<char>> {
    match first_row(rows, owner, name, true) {
        Some(i) => Some(rows[i].value@),
        None => match first_row(rows, owner, name, false) {
            Some(i) => Some(rows[i].value@),
            None => None,
        },
    }
}

pub proof fn lemma_first_row(rows: Seq<VariableRow>, owner: Seq<char>, name: Seq<char>, local_only: bool)
    ensures
        first_row(rows, owner, name, local_only) matches Some(i) ==> 0 <= i < rows.len() && rows[i].owner_id@ == owner
            && rows[i].name@ == name,
        !local_only ==> (first_row(rows, owner, name, local_only) is Some <==> holds(rows, owner, name)),
    decreases rows.len(),
{
    if rows.len() > 0 {
        lemma_first_row(rows.drop_last(), owner, name, local_only);
        if !local_only {
            if holds(rows, owner, name) {
                let i = choose|i: int| 0 <= i < rows.len() && (#[trigger] rows[i]).owner_id@ == owner && rows[i].name@ == name;
                if i < rows.len() - 1 {
                    assert(rows.drop_last()[i] == rows[i]);
                }
            }
            if holds(rows.drop_last(), owner, name) {
                let i = choose|i: int| 0 <= i < rows.len() - 1 && (#[trigger] rows.drop_last()[i]).owner_id@ == owner
                    && rows.drop_last()[i].name@ == name;
                assert(rows[i] == rows.drop_last()[i]);
            }
        }
    }
}

fn find_row(rows: &Vec<VariableRow>, owner: &str, name: &str, local_only: bool) -> (r: Option<usize>)
    ensures
        match r {
            Some(i) => first_row(rows@, owner@, name@, local_only) == Some(i as int),
            None => first_row(rows@, owner@, name@, local_only) is None,
        },
{
    let mut i: usize = 0;
    while i < rows.len()
        invariant
            0 <= i <= rows.len(),
            first_row(rows@.take(i as int), owner@, name@, local_only) is None,
        decreases rows.len() - i,
    {
        proof {
            assert(rows@.take(i + 1).drop_last() =~= rows@.take(i as int));
            assert(rows@.take(i + 1).last() == rows@[i as int]);
        }
        let row = &rows[i];
        if crate::ordering::str_eq(row.owner_id.as_str(), owner) && crate::ordering::str_eq(row.name.as_str(), name)
            && (!local_only || row.local) {
            proof {
                lemma_first_row_extend(rows@, owner@, name@, local_only, i + 1);
            }
            return Some(i);
        }
        i = i + 1;
    }
    proof {
        assert(rows@.take(rows.len() as int) =~= rows@);
    }
    None
}

proof fn lemma_first_row_extend(rows: Seq<VariableRow>, owner: Seq<char>, name: Seq<char>, local_only: bool, n: int)
    requires
        0 <= n <= rows.len(),
        first_row(rows.take(n), owner, name, local_only) is Some,
    ensures
        first_row(rows, owner, name, local_only) == first_row(rows.take(n), owner, name, local_only),
    decreases rows.len() - n,
{
    if n < rows.len() {
        assert(rows.take(n + 1).drop_last() =~= rows.take(n));
        lemma_first_row_extend(rows, owner, name, local_only, n + 1);
    } else {
        assert(rows.take(n) =~= rows);
    }
}

/// The value `owner` holds for `name`, if any.
pub fn scope_value(rows: &Vec<VariableRow>, owner: &str, name: &str) -> (r: Option<String>)
    ensures
        opt_view(r) == value_of(rows@, owner@, name@),
{
    proof {
        lemma_first_row(rows@, owner@, name@, true);
        lemma_first_row(rows@, owner@, name@, false);
    }
    match find_row(rows, owner, name, true) {
        Some(i) => Some(rows[i].value.clone()),
        None => match find_row(rows, owner, name, false) {
            Some(i) => Some(rows[i].value.clone()),
            None => None,
        },
    }
}

/// Whether `owner` holds a variable `name`.
pub fn local_scope_contains(rows: &Vec<VariableRow>, owner: &str, name: &str) -> (r: bool)
    ensures
        r == holds(rows@, owner@, name@),
{
    proof {
        lemma_first_row(rows@, owner@, name@, false);
    }
    find_row(rows, owner, name, false).is_some()
}

/// The nearest execution, walking up from `id` (itself first, at most 256
/// steps), that holds `name`.
pub open spec fn variable_owner(store: RuntimeStore, rows: Seq<VariableRow>, id: Seq<char>, name: Seq<char>) -> Option<Seq<char>> {
    let chain = ancestry(store.executions@, id, 256);
    match first_holder(chain, rows, name, chain.len() as int) {
        Some(k) => Some(chain[k]),
        None => None,
    }
}

pub open spec fn first_holder(chain: Seq<Seq<char>>, rows: Seq<VariableRow>, name: Seq<char>, n: int) -> Option<int>
    decreases n,
{
    if n <= 0 {
        None
    } else {
        match first_holder(chain, rows, name, n - 1) {
            Some(k) => Some(k),
            None => if holds(rows, chain[n - 1], name) { Some(n - 1) } else { None },
        }
    }
}

proof fn lemma_first_holder_extend(chain: Seq<Seq<char>>, rows: Seq<VariableRow>, name: Seq<char>, n: int, m: int)
    requires
        0 <= n <= m,
        first_holder(chain, rows, name, n) is Some,
    ensures
        first_holder(chain, rows, name, m) == first_holder(chain, rows, name, n),
    decreases m - n,
{
    if m > n {
        lemma_first_holder_extend(chain, rows, name, n, m - 1);
    }
}

/// The execution that owns variable `name` as seen from `execution_id`, and
/// its value there.
pub fn find_execution_variable(store: &RuntimeStore, rows: &Vec<VariableRow>, execution_id: &String, name: &str)
    -> (r: Option<(String, String)>)
    requires
        store.wf(),
    ensures
        match r {
            Some((o, v)) => variable_owner(*store, rows@, execution_id@, name@) == Some(o@)
                && value_of(rows@, o@, name@) == Some(v@),
            None => variable_owner(*store, rows@, execution_id@, name@) is None,
        },
{
    let chain = execution_ancestry(store, execution_id);
    let ghost c = string_views(chain@);
    let mut k: usize = 0;
    while k < chain.len()
        invariant
            0 <= k <= chain.len(),
            c == string_views(chain@),
            c == ancestry(store.executions@, execution_id@, 256),
            first_holder(c, rows@, name@, k as int) is None,
        decreases chain.len() - k,
    {
        let owner = chain[k].as_str();
        if local_scope_contains(rows, owner, name) {
            proof {
                assert(c[k as int] == owner@);
                lemma_first_holder_extend(c, rows@, name@, k + 1, c.len() as int);
            }
            let v = scope_value(rows, owner, name);
            proof {
                lemma_first_row(rows@, owner@, name@, false);
            }
            return match v {
                Some(v) => Some((chain[k].clone(), v)),
                None => None,
            };
        }
        proof {
            assert(c[k as int] == owner@);
        }
        k = k + 1;
    }
    None
}

/// The stored execution, or `NotFound`.
pub fn load_execution(store: &RuntimeStore, execution_id: &String) -> (r: Result<Execution, FlowableError>)
    requires
        store.wf(),
    ensures
        r is Ok <==> store.executions@.contains_key(execution_id@),
        r matches Ok(e) ==> e == store.executions@[execution_id@],
        r matches Err(e) ==> e is NotFound && e->NotFound_0@ == "Execution '"@ + execution_id@ + "' was not found"@,
{
    match store.find_execution(execution_id) {
        Some(e) => Ok(e),
        None => Err(FlowableError::NotFound(crate::text::cat3("Execution '", execution_id.as_str(), "' was not found"))),
    }
}

/// Setting variables on a suspended execution is refused.
pub fn require_active_for_set(execution: &Execution) -> (r: Result<(), FlowableError>)
    ensures
        r is Ok <==> !execution.is_suspended,
        r matches Err(e) ==> e is ExecutionError && e->ExecutionError_0@
            == "Cannot set variables to a suspended execution '"@ + execution.id@ + "'"@,
{
    if execution.is_suspended {
        return Err(FlowableError::ExecutionError(crate::text::cat3(
            "Cannot set variables to a suspended execution '",
            execution.id.as_str(),
            "'",
        )));
    }
    Ok(())
}

/// Removing variables from a suspended execution is refused.
pub fn require_active_for_remove(execution: &Execution) -> (r: Result<(), FlowableError>)
    ensures
        r is Ok <==> !execution.is_suspended,
        r matches Err(e) ==> e is ExecutionError && e->ExecutionError_0@
            == "Cannot remove variables from a suspended execution '"@ + execution.id@ + "'"@,
{
    if execution.is_suspended {
        return Err(FlowableError::ExecutionError(crate::text::cat3(
            "Cannot remove variables from a suspended execution '",
            execution.id.as_str(),
            "'",
        )));
    }
    Ok(())
}

/// The execution the global scope of `execution` writes to: its parent; a
/// root execution has none (`BadRequest`), an unknown parent is `NotFound`.
pub fn resolve_global_target(store: &RuntimeStore, execution: &Execution, verb: &str) -> (r: Result<Execution, FlowableError>)
    requires
        store.wf(),
    ensures
        execution.parent_id is None ==> (r matches Err(e) && e is BadRequest),
        execution.parent_id matches Some(p) ==> (r is Ok <==> store.executions@.contains_key(p@))
            && (r matches Ok(t) ==> t == store.executions@[p@])
            && (r matches Err(e) ==> e is NotFound),
{
    match &execution.parent_id {
        None => {
            let mut m = crate::text::cat3("Cannot ", verb, " global variables on execution '");
            m.append(execution.id.as_str());
            m.append("', task is not part of process.");
            Err(FlowableError::BadRequest(m))
        },
        Some(p) => load_execution(store, p),
    }
}

/// Whether a variable is present on a scope of `execution`: its own scope,
/// or (global) the scope resolved from its parent.
pub open spec fn present_on_scope(store: RuntimeStore, rows: Seq<VariableRow>, execution: Execution,
    scope: ExecutionVariableScope, name: Seq<char>) -> bool {
    match scope {
        ExecutionVariableScope::Local => holds(rows, execution.id@, name),
        ExecutionVariableScope::Global => match execution.parent_id {
            None => false,
            Some(p) => variable_owner(store, rows, p@, name) is Some,
        },
    }
}

pub fn is_variable_present(store: &RuntimeStore, rows: &Vec<VariableRow>, execution: &Execution,
    scope: ExecutionVariableScope, name: &str) -> (r: bool)
    requires
        store.wf(),
    ensures
        r == present_on_scope(*store, rows@, *execution, scope, name@),
{
    match scope {
        ExecutionVariableScope::Local => local_scope_contains(rows, execution.id.as_str(), name),
        ExecutionVariableScope::Global => match &execution.parent_id {
            None => false,
            Some(p) => find_execution_variable(store, rows, p, name).is_some(),
        },
    }
}

/// `rows` without the rows of `owner` whose name is selected: every name
/// when `names` is `None`, else the listed ones.
pub open spec fn without_names(rows: Seq<VariableRow>, owner: Seq<char>, names: Option<Seq<Seq<char>>>) -> Seq<VariableRow>
    decreases rows.len(),
{
    if rows.len() == 0 {
        Seq::empty()
    } else {
        let rest = without_names(rows.drop_last(), owner, names);
        let r = rows.last();
        if r.owner_id@ == owner && (names is None || names->0.contains(r.name@)) {
            rest
        } else {
            rest.push(r)
        }
    }
}

pub open spec fn opt_names(o: Option<Vec<String>>) -> Option<Seq<Seq<char>>> {
    match o {
        Some(v) => Some(string_views(v@)),
        None => None,
    }
}

fn copy_row(r: &VariableRow) -> (c: VariableRow)
    ensures
        c == *r,
{
    VariableRow { owner_id: r.owner_id.clone(), name: r.name.clone(), value: r.value.clone(), local: r.local }
}

fn listed(names: &Vec<String>, name: &String) -> (r: bool)
    ensures
        r == string_views(names@).contains(name@),
{
    let r = crate::command::contains_string(names, name);
    proof {
        if r {
            let j = choose|j: int| 0 <= j < names@.len() && (#[trigger] names@[j])@ == name@;
            assert(string_views(names@)[j] == name@);
        }
        if string_views(names@).contains(name@) {
            let j = choose|j: int| 0 <= j < names@.len() && string_views(names@)[j] == name@;
            assert(names@[j]@ == name@);
        }
    }
    r
}

/// Removes the selected variables of `owner` from `rows`.
pub fn remove_owner_variables(rows: &mut Vec<VariableRow>, owner: &String, names: &Option<Vec<String>>)
    ensures
        final(rows)@ == without_names(old(rows)@, owner@, opt_names(*names)),
{
    let ghost all = rows@;
    let mut kept: Vec<VariableRow> = Vec::new();
    let mut i: usize = 0;
    while i < rows.len()
        invariant
            0 <= i <= rows.len(),
            rows@ == all,
            kept@ == without_names(all.take(i as int), owner@, opt_names(*names)),
        decreases rows.len() - i,
    {
        proof {
            assert(all.take(i + 1).drop_last() =~= all.take(i as int));
            assert(all.take(i + 1).last() == all[i as int]);
        }
        let r = &rows[i];
        let selected = r.owner_id.eq(owner) && match names {
            None => true,
            Some(ns) => listed(ns, &r.name),
        };
        if !selected {
            kept.push(copy_row(r));
        }
        i = i + 1;
    }
    proof {
        assert(all.take(all.len() as int) =~= all);
    }
    *rows = kept;
}

fn scope_word(scope: ExecutionVariableScope) -> (r: &'static str)
    ensures
        r@ == (match scope {
            ExecutionVariableScope::Local => "local"@,
            ExecutionVariableScope::Global => "global"@,
        }),
{
    match scope {
        ExecutionVariableScope::Local => "local",
        ExecutionVariableScope::Global => "global",
    }
}

/// Removes variables from one scope of an execution.
#[derive(Debug)]
pub struct RemoveExecutionVariablesCmd {
    pub execution_id: String,
    pub scope: ExecutionVariableScope,
    /// The names to remove; `None`: all of the local scope.
    pub names: Option<Vec<String>>,
    /// Whether every named variable must be present (else `NotFound`).
    pub require_exists: bool,
}

/// The execution a write or removal on a scope of `e` goes to: `e` itself, or
/// its stored parent.
pub open spec fn scope_target(store: RuntimeStore, e: Execution, scope: ExecutionVariableScope) -> Option<Execution> {
    match scope {
        ExecutionVariableScope::Local => Some(e),
        ExecutionVariableScope::Global => match e.parent_id {
            Some(p) => if store.executions@.contains_key(p@) { Some(store.executions@[p@]) } else { None },
            None => None,
        },
    }
}

impl RemoveExecutionVariablesCmd {
    pub fn new(execution_id: String, scope: ExecutionVariableScope, names: Option<Vec<String>>, require_exists: bool) -> (r: Self)
        ensures
            r == (RemoveExecutionVariablesCmd { execution_id, scope, names, require_exists }),
    {
        RemoveExecutionVariablesCmd { execution_id, scope, names, require_exists }
    }

    /// Checks the request and removes the variables: the execution must
    /// exist; removing all is only for the local scope; with
    /// `require_exists` every name must be present on the scope; the write
    /// target (the execution, or its parent for the global scope) must exist
    /// and not be suspended. Then the target's variables of those names (all
    /// of them when no names are given) are removed.
    pub fn run(&self, store: &RuntimeStore, variables: &mut Variables) -> (r: Result<(), FlowableError>)
        requires
            store.wf(),
        ensures
            r is Ok <==> {
                &&& store.executions@.contains_key(self.execution_id@)
                &&& !(self.names is None && self.scope == ExecutionVariableScope::Global)
                &&& (self.require_exists && self.names is Some ==> forall|i: int| 0 <= i < self.names->0@.len()
                    ==> present_on_scope(*store, old(variables).execution_rows@, store.executions@[self.execution_id@],
                    self.scope, (#[trigger] self.names->0@[i])@))
                &&& scope_target(*store, store.executions@[self.execution_id@], self.scope) matches Some(t) && !t.is_suspended
            },
            r is Ok ==> final(variables).execution_rows@ == without_names(old(variables).execution_rows@,
                scope_target(*store, store.executions@[self.execution_id@], self.scope)->0.id@, opt_names(self.names))
                && final(variables).task_rows == old(variables).task_rows,
            r is Err ==> *final(variables) == *old(variables),
    {
        let execution = load_execution(store, &self.execution_id)?;
        if self.names.is_none() && self.scope == ExecutionVariableScope::Global {
            return Err(FlowableError::BadRequest(String::from_str(
                "Removing all variables is only supported for execution-local variables",
            )));
        }
        if self.require_exists {
            if let Some(names) = &self.names {
                let mut i: usize = 0;
                while i < names.len()
                    invariant
                        0 <= i <= names.len(),
                        store.wf(),
                        self.names == Some(*names),
                        *variables == *old(variables),
                        store.executions@.contains_key(self.execution_id@),
                        execution == store.executions@[self.execution_id@],
                        self.require_exists,
                        forall|j: int| 0 <= j < i ==> present_on_scope(*store, variables.execution_rows@, execution,
                            self.scope, (#[trigger] names@[j])@),
                    decreases names.len() - i,
                {
                    if !is_variable_present(store, &variables.execution_rows, &execution, self.scope, names[i].as_str()) {
                        proof {
                            assert(!present_on_scope(*store, old(variables).execution_rows@, execution, self.scope,
                                self.names->0@[i as int]@));
                        }
                        let mut m = crate::text::cat3("Execution '", execution.id.as_str(), "' does not have a variable '");
                        m.append(names[i].as_str());
                        m.append("' in scope ");
                        m.append(scope_word(self.scope));
                        return Err(FlowableError::NotFound(m));
                    }
                    i = i + 1;
                }
            }
        }
        let target = match self.scope {
            ExecutionVariableScope::Local => execution,
            ExecutionVariableScope::Global => resolve_global_target(store, &execution, "remove")?,
        };
        require_active_for_remove(&target)?;
        remove_owner_variables(&mut variables.execution_rows, &target.id, &self.names);
        Ok(())
    }
}

/// Reads one execution variable: without a scope the local value wins and
/// the parent chain is the fallback; a scope reads only that scope.
#[derive(Debug)]
pub struct GetScopedExecutionVariableCmd {
    pub execution_id: String,
    pub name: String,
    pub scope: Option<ExecutionVariableScope>,
}

impl GetScopedExecutionVariableCmd {
    pub fn new(execution_id: String, name: String, scope: Option<ExecutionVariableScope>) -> (r: Self)
        ensures
            r == (GetScopedExecutionVariableCmd { execution_id, name, scope }),
    {
        GetScopedExecutionVariableCmd { execution_id, name, scope }
    }

    /// The value and the scope it was found in; `NotFound` for an unknown execution.
    pub fn run(&self, store: &RuntimeStore, variables: &Variables) -> (r: Result<Option<(String, ExecutionVariableScope)>, FlowableError>)
        requires
            store.wf(),
        ensures
            r is Ok <==> store.executions@.contains_key(self.execution_id@),
            r matches Ok(found) ==> {
                let e = store.executions@[self.execution_id@];
                let local = if self.scope != Some(ExecutionVariableScope::Global) {
                    value_of(variables.execution_rows@, e.id@, self.name@)
                } else {
                    None
                };
                let global = if self.scope != Some(ExecutionVariableScope::Local) && e.parent_id is Some {
                    match variable_owner(*store, variables.execution_rows@, e.parent_id->0@, self.name@) {
                        Some(o) => value_of(variables.execution_rows@, o, self.name@),
                        None => None,
                    }
                } else {
                    None
                };
                match found {
                    Some((v, s)) => if local is Some {
                        v@ == local->0 && s == ExecutionVariableScope::Local
                    } else {
                        global == Some(v@) && s == ExecutionVariableScope::Global
                    },
                    None => local is None && global is None,
                }
            },
    {
        let execution = load_execution(store, &self.execution_id)?;
        if self.scope != Some(ExecutionVariableScope::Global) {
            if let Some(v) = scope_value(&variables.execution_rows, execution.id.as_str(), self.name.as_str()) {
                return Ok(Some((v, ExecutionVariableScope::Local)));
            }
        }
        if self.scope != Some(ExecutionVariableScope::Local) {
            if let Some(p) = &execution.parent_id {
                if let Some((_, v)) = find_execution_variable(store, &variables.execution_rows, p, self.name.as_str()) {
                    return Ok(Some((v, ExecutionVariableScope::Global)));
                }
            }
        }
        Ok(None)
    }
}

/// Reads all variables of an execution's scopes.
#[derive(Debug)]
pub struct GetScopedExecutionVariablesCmd {
    pub execution_id: String,
    pub scope: Option<ExecutionVariableScope>,
}

impl GetScopedExecutionVariablesCmd {
    pub fn new(execution_id: String, scope: Option<ExecutionVariableScope>) -> (r: Self)
        ensures
            r == (GetScopedExecutionVariablesCmd { execution_id, scope }),
    {
        GetScopedExecutionVariablesCmd { execution_id, scope }
    }
}

/// The task, or `NotFound`.
pub fn load_task(store: &RuntimeStore, task_id: &String) -> (r: Result<Task, FlowableError>)
    requires
        store.wf(),
    ensures
        r is Ok <==> store.tasks@.contains_key(task_id@),
        r matches Ok(t) ==> t == store.tasks@[task_id@],
        r matches Err(e) ==> e is NotFound && e->NotFound_0@ == "Cannot find task with id "@ + task_id@,
{
    match store.find_task(task_id) {
        Some(t) => Ok(t),
        None => Err(FlowableError::NotFound(crate::text::cat("Cannot find task with id ", task_id.as_str()))),
    }
}

/// The words a refusal on a suspended task starts with.
pub fn suspended_task_prefix(verb: &str) -> (r: &'static str)
    ensures
        verb@ == "remove"@ ==> r@ == "Cannot remove variables from"@,
        verb@ != "remove"@ ==> r@ == "Cannot add variables to"@,
{
    if crate::ordering::str_eq(verb, "remove") {
        "Cannot remove variables from"
    } else {
        "Cannot add variables to"
    }
}

/// The execution holding a task's global variables: the task must belong
/// to a process (`BadRequest`), its execution must exist (`NotFound`) and
/// not be suspended (`ExecutionError`).
pub fn require_active_task_execution(store: &RuntimeStore, task: &Task, verb: &str) -> (r: Result<Execution, FlowableError>)
    requires
        store.wf(),
    ensures
        task.execution_id@.len() == 0 ==> (r matches Err(e) && e is BadRequest),
        task.execution_id@.len() > 0 ==> {
            &&& (r is Ok <==> store.executions@.contains_key(task.execution_id@)
                && !store.executions@[task.execution_id@].is_suspended)
            &&& (r matches Ok(e) ==> e == store.executions@[task.execution_id@])
            &&& (r matches Err(e) ==> if store.executions@.contains_key(task.execution_id@) {
                e is ExecutionError
            } else {
                e is NotFound
            })
        },
{
    if task.execution_id.unicode_len() == 0 {
        let mut m = crate::text::cat3("Cannot ", verb, " global variables on task '");
        m.append(task.id.as_str());
        m.append("', task is not part of process.");
        return Err(FlowableError::BadRequest(m));
    }
    let execution = load_execution(store, &task.execution_id)?;
    if execution.is_suspended {
        let prefix: &str = if crate::ordering::str_eq(verb, "remove") {
            "Cannot remove variables from"
        } else {
            "Cannot set variables to"
        };
        let mut m = crate::text::cat(prefix, " a suspended execution '");
        m.append(execution.id.as_str());
        m.append("'");
        return Err(FlowableError::ExecutionError(m));
    }
    Ok(execution)
}

/// The checks before a task variable write: the task must not be suspended;
/// the global scope also needs the task's execution (see
/// [`require_active_task_execution`]), whose id is returned.
pub fn validate_scope_guard(store: &RuntimeStore, task: &Task, scope: TaskVariableScope, verb: &str) -> (r: Result<Option<String>, FlowableError>)
    requires
        store.wf(),
    ensures
        task.suspended ==> (r matches Err(e) && e is ExecutionError),
        !task.suspended && scope == TaskVariableScope::Local ==> r == Ok::<Option<String>, FlowableError>(None),
        !task.suspended && scope == TaskVariableScope::Global ==> (r is Ok <==> task.execution_id@.len() > 0
            && store.executions@.contains_key(task.execution_id@) && !store.executions@[task.execution_id@].is_suspended)
            && (r matches Ok(id) ==> id matches Some(i) && i@ == task.execution_id@),
        !task.suspended && scope == TaskVariableScope::Global ==> (r matches Err(e) ==> if task.execution_id@.len() == 0 {
            e is BadRequest
        } else if !store.executions@.contains_key(task.execution_id@) {
            e is NotFound
        } else {
            e is ExecutionError
        }),
{
    if task.suspended {
        let mut m = crate::text::cat(suspended_task_prefix(verb), " a suspended task '");
        m.append(task.id.as_str());
        m.append("'");
        return Err(FlowableError::ExecutionError(m));
    }
    match scope {
        TaskVariableScope::Local => Ok(None),
        TaskVariableScope::Global => {
            let execution = require_active_task_execution(store, task, verb)?;
            Ok(Some(execution.id))
        },
    }
}

/// The execution a new global variable of a task goes to: the one already
/// holding it in the ancestry, else the root of the ancestry (the last stored
/// execution walking up parent links).
pub fn resolve_variable_owner(store: &RuntimeStore, rows: &Vec<VariableRow>, execution_id: &String, name: &str) -> (r: String)
    requires
        store.wf(),
    ensures
        match variable_owner(*store, rows@, execution_id@, name@) {
            Some(o) => r@ == o,
            None => {
                let chain = ancestry(store.executions@, execution_id@, 256);
                if chain.len() > 0 { r@ == chain.last() } else { r@ == execution_id@ }
            },
        },
{
    if let Some((owner, _)) = find_execution_variable(store, rows, execution_id, name) {
        return owner;
    }
    let chain = execution_ancestry(store, execution_id);
    if chain.len() > 0 {
        proof {
            assert(string_views(chain@).last() == chain@.last()@);
        }
        chain[chain.len() - 1].clone()
    } else {
        execution_id.clone()
    }
}

/// Removes variables from one scope of a task.
#[derive(Debug)]
pub struct RemoveTaskVariablesCmd {
    pub task_id: String,
    pub scope: TaskVariableScope,
    pub names: Option<Vec<String>>,
    pub require_exists: bool,
}

impl RemoveTaskVariablesCmd {
    pub fn new(task_id: String, scope: TaskVariableScope, names: Option<Vec<String>>, require_exists: bool) -> (r: Self)
        ensures
            r == (RemoveTaskVariablesCmd { task_id, scope, names, require_exists }),
    {
        RemoveTaskVariablesCmd { task_id, scope, names, require_exists }
    }

    /// The task must exist and pass its scope guard; removing all names is
    /// only for the local scope; with `require_exists` every name must be
    /// present on the scope. The local scope then drops the task's copies of
    /// the names (all of them when no names are given); the global scope
    /// takes the names in order and drops, for each, every copy on the
    /// nearest execution up from the task's execution that holds it.
    pub fn run(&self, store: &RuntimeStore, variables: &mut Variables) -> (r: Result<(), FlowableError>)
        requires
            store.wf(),
        ensures
            ({
                let t = store.tasks@[self.task_id@];
                &&& r is Ok <==> {
                    &&& store.tasks@.contains_key(self.task_id@)
                    &&& crate::variable_writes::task_guard_ok(*store, t, self.scope)
                    &&& !(self.names is None && self.scope == TaskVariableScope::Global)
                    &&& (self.require_exists && self.names is Some ==> forall|i: int| 0 <= i < self.names->0@.len()
                        ==> crate::variable_writes::task_present(*store, *old(variables), t, self.scope, (#[trigger] self.names->0@[i])@))
                }
                &&& r matches Err(e) ==> {
                    &&& *final(variables) == *old(variables)
                    &&& if !store.tasks@.contains_key(self.task_id@) {
                        e is NotFound && e->NotFound_0@ == "Cannot find task with id "@ + self.task_id@
                    } else if t.suspended {
                        e is ExecutionError
                    } else if !crate::variable_writes::task_guard_ok(*store, t, self.scope) {
                        if t.execution_id@.len() == 0 {
                            e is BadRequest
                        } else if !store.executions@.contains_key(t.execution_id@) {
                            e is NotFound
                        } else {
                            e is ExecutionError
                        }
                    } else if self.names is None && self.scope == TaskVariableScope::Global {
                        e is BadRequest && e->BadRequest_0@
                            == "Removing all variables is only supported for task-local variables"@
                    } else {
                        exists|k: int| 0 <= k < self.names->0@.len() && !crate::variable_writes::task_present(*store, *old(variables), t, self.scope, (#[trigger] self.names->0@[k])@)
                            && (forall|j: int| 0 <= j < k ==> crate::variable_writes::task_present(*store, *old(variables), t, self.scope, (#[trigger] self.names->0@[j])@))
                            && e is NotFound && e->NotFound_0@ == "Task '"@ + t.id@
                            + "' does not have a variable with name: '"@ + self.names->0@[k]@ + "'."@
                    }
                }
                &&& r is Ok ==> match self.scope {
                    TaskVariableScope::Local => final(variables).task_rows@ == without_names(old(variables).task_rows@,
                        t.id@, opt_names(self.names)) && final(variables).execution_rows == old(variables).execution_rows,
                    TaskVariableScope::Global => final(variables).execution_rows@ == removal_after(*store,
                        old(variables).execution_rows@, t.execution_id@, string_views(self.names->0@))
                        && final(variables).task_rows == old(variables).task_rows,
                }
            }),
    {
        let task = load_task(store, &self.task_id)?;
        let _ = validate_scope_guard(store, &task, self.scope, "remove")?;
        if self.names.is_none() && self.scope == TaskVariableScope::Global {
            return Err(FlowableError::BadRequest(String::from_str(
                "Removing all variables is only supported for task-local variables",
            )));
        }
        if self.require_exists {
            if let Some(names) = &self.names {
                let mut i: usize = 0;
                while i < names.len()
                    invariant
                        0 <= i <= names.len(),
                        store.wf(),
                        self.names == Some(*names),
                        *variables == *old(variables),
                        store.tasks@.contains_key(self.task_id@),
                        task == store.tasks@[self.task_id@],
                        crate::variable_writes::task_guard_ok(*store, task, self.scope),
                        self.require_exists,
                        forall|j: int| 0 <= j < i ==> crate::variable_writes::task_present(*store, *variables, task,
                            self.scope, (#[trigger] names@[j])@),
                    decreases names.len() - i,
                {
                    let present = match self.scope {
                        TaskVariableScope::Local => local_scope_contains(&variables.task_rows, task.id.as_str(),
                            names[i].as_str()),
                        TaskVariableScope::Global => find_execution_variable(store, &variables.execution_rows,
                            &task.execution_id, names[i].as_str()).is_some(),
                    };
                    if !present {
                        proof {
                            assert(!crate::variable_writes::task_present(*store, *old(variables), task, self.scope,
                                self.names->0@[i as int]@));
                        }
                        let mut m = crate::text::cat3("Task '", task.id.as_str(), "' does not have a variable with name: '");
                        m.append(names[i].as_str());
                        m.append("'.");
                        return Err(FlowableError::NotFound(m));
                    }
                    i = i + 1;
                }
            }
        }
        match self.scope {
            TaskVariableScope::Local => {
                remove_owner_variables(&mut variables.task_rows, &task.id, &self.names);
            },
            TaskVariableScope::Global => {
                let names = match &self.names {
                    Some(n) => n,
                    None => { return Ok(()); },
                };
                let ghost before = variables.execution_rows@;
                let ghost ns = string_views(names@);
                let mut k: usize = 0;
                proof {
                    assert(ns.take(0) =~= Seq::<Seq<char>>::empty());
                }
                while k < names.len()
                    invariant
                        0 <= k <= names.len(),
                        store.wf(),
                        ns == string_views(names@),
                        variables.task_rows == old(variables).task_rows,
                        variables.execution_rows@ == removal_after(*store, before, task.execution_id@, ns.take(k as int)),
                    decreases names.len() - k,
                {
                    proof {
                        assert(ns.take(k + 1).drop_last() =~= ns.take(k as int));
                        assert(ns.take(k + 1).last() == names@[k as int]@);
                    }
                    match find_execution_variable(store, &variables.execution_rows, &task.execution_id, names[k].as_str()) {
                        Some((owner, _)) => {
                            let one: Option<Vec<String>> = Some(vec![names[k].clone()]);
                            proof {
                                assert(string_views(one->0@) =~= seq![names@[k as int]@]);
                            }
                            remove_owner_variables(&mut variables.execution_rows, &owner, &one);
                        },
                        None => {},
                    }
                    k = k + 1;
                }
                proof {
                    assert(ns.take(names.len() as int) =~= ns);
                }
            },
        }
        Ok(())
    }
}

/// The execution rows after removing `names` in order from the global scope
/// seen from `execution_id`: each name loses every copy on the nearest
/// execution up the chain that holds it at that point.
pub open spec fn removal_after(store: RuntimeStore, rows: Seq<VariableRow>, execution_id: Seq<char>, names: Seq<Seq<char>>)
    -> Seq<VariableRow>
    decreases names.len(),
{
    if names.len() == 0 {
        rows
    } else {
        let prev = removal_after(store, rows, execution_id, names.drop_last());
        match variable_owner(store, prev, execution_id, names.last()) {
            Some(o) => without_names(prev, o, Some(seq![names.last()])),
            None => prev,
        }
    }
}

/// Reads one variable of a task: its local one, else the one its execution sees.
#[derive(Debug)]
pub struct GetTaskVariableCmd {
    pub task_id: String,
    pub name: String,
}

impl GetTaskVariableCmd {
    pub fn new(task_id: String, name: String) -> (r: Self)
        ensures
            r.task_id == task_id,
            r.name == name,
    {
        GetTaskVariableCmd { task_id, name }
    }

    pub fn run(&self, store: &RuntimeStore, variables: &Variables) -> (r: Result<Option<String>, FlowableError>)
        requires
            store.wf(),
        ensures
            r is Ok <==> store.tasks@.contains_key(self.task_id@),
            r matches Ok(v) ==> {
                let t = store.tasks@[self.task_id@];
                let local = value_of(variables.task_rows@, t.id@, self.name@);
                opt_view(v) == if local is Some {
                    local
                } else if t.execution_id@.len() == 0 {
                    None
                } else {
                    match variable_owner(*store, variables.execution_rows@, t.execution_id@, self.name@) {
                        Some(o) => value_of(variables.execution_rows@, o, self.name@),
                        None => None,
                    }
                }
            },
    {
        let task = load_task(store, &self.task_id)?;
        if let Some(v) = scope_value(&variables.task_rows, task.id.as_str(), self.name.as_str()) {
            return Ok(Some(v));
        }
        if task.execution_id.unicode_len() == 0 {
            return Ok(None);
        }
        match find_execution_variable(store, &variables.execution_rows, &task.execution_id, self.name.as_str()) {
            Some((_, v)) => Ok(Some(v)),
            None => Ok(None),
        }
    }
}

/// Reads all variables a task sees.
#[derive(Debug)]
pub struct GetTaskVariablesCmd {
    pub task_id: String,
}

impl GetTaskVariablesCmd {
    pub fn new(task_id: String) -> (r: Self)
        ensures
            r.task_id == task_id,
    {
        GetTaskVariablesCmd { task_id }
    }
}

} // verus!

