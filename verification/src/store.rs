//! The runtime store: one keyed table per record kind, each holding its rows
//! in insertion order with unique keys.
use vstd::prelude::*;
use crate::entities::{
    Duplicate, Execution, HistoricComment, HistoricTaskEvent, JobTypeEntry, Keyed, ProcessDefinition,
    ProcessInstance, RuntimeJobType, RuntimeTimerJobState, Task, same_task_event,
};

verus! {

/// Rows of one record kind, in insertion order.
#[derive(Debug)]
pub struct Table<T> {
    pub rows: Vec<T>,
}

/// Whether some row has key `k`.
pub open spec fn has_key<T: Keyed>(rows: Seq<T>, k: Seq<char>) -> bool {
    exists|i: int| 0 <= i < rows.len() && (#[trigger] rows[i]).key() == k
}

/// The position of the row with key `k`, or -1.
pub open spec fn index_of<T: Keyed>(rows: Seq<T>, k: Seq<char>) -> int {
    if has_key(rows, k) {
        choose|i: int| 0 <= i < rows.len() && (#[trigger] rows[i]).key() == k
    } else {
        -1
    }
}

/// No two rows share a key.
pub open spec fn unique_keys<T: Keyed>(rows: Seq<T>) -> bool {
    forall|i: int, j: int|
        0 <= i < rows.len() && 0 <= j < rows.len() && i != j ==> (#[trigger] rows[i]).key()
            != (#[trigger] rows[j]).key()
}

/// The table as a map from key to row.
pub open spec fn rows_map<T: Keyed>(rows: Seq<T>) -> Map<Seq<char>, T> {
    Map::new(|k: Seq<char>| has_key(rows, k), |k: Seq<char>| rows[index_of(rows, k)])
}

pub proof fn lemma_index_of<T: Keyed>(rows: Seq<T>, i: int)
    requires
        unique_keys(rows),
        0 <= i < rows.len(),
    ensures
        has_key(rows, rows[i].key()),
        index_of(rows, rows[i].key()) == i,
{
    assert(has_key(rows, rows[i].key()));
}

impl<T: Keyed> Table<T> {
    pub open spec fn wf(&self) -> bool {
        unique_keys(self.rows@)
    }

    pub open spec fn view(&self) -> Map<Seq<char>, T> {
        rows_map(self.rows@)
    }

    /// An empty table.
    pub fn new() -> (r: Self)
        ensures
            r.wf(),
            r.rows@ == Seq::<T>::empty(),
            r@ == Map::<Seq<char>, T>::empty(),
    {
        let r = Table { rows: Vec::new() };
        assert(r@ =~= Map::<Seq<char>, T>::empty());
        r
    }

    /// The position of the row with key `k`, if any.
    pub fn position(&self, k: &String) -> (r: Option<usize>)
        requires
            self.wf(),
        ensures
            r is Some <==> has_key(self.rows@, k@),
            r matches Some(i) ==> i == index_of(self.rows@, k@) && i < self.rows@.len()
                && self.rows@[i as int].key() == k@,
    {
        let mut i: usize = 0;
        while i < self.rows.len()
            invariant
                self.wf(),
                0 <= i <= self.rows.len(),
                forall|j: int| 0 <= j < i ==> (#[trigger] self.rows@[j]).key() != k@,
            decreases self.rows.len() - i,
        {
            if self.rows[i].key_ref().eq(k) {
                proof {
                    lemma_index_of(self.rows@, i as int);
                }
                return Some(i);
            }
            i = i + 1;
        }
        None
    }

    /// Whether a row with key `k` exists.
    pub fn contains(&self, k: &String) -> (r: bool)
        requires
            self.wf(),
        ensures
            r == self@.contains_key(k@),
    {
        self.position(k).is_some()
    }

    /// Inserts `row`, replacing the row with the same key if there is one
    /// (in place) and appending it otherwise.
    pub fn upsert(&mut self, row: T)
        requires
            old(self).wf(),
        ensures
            final(self).wf(),
            final(self)@ == old(self)@.insert(row.key(), row),
            has_key(old(self).rows@, row.key()) ==> final(self).rows@ == old(self).rows@.update(
                index_of(old(self).rows@, row.key()),
                row,
            ),
            !has_key(old(self).rows@, row.key()) ==> final(self).rows@ == old(self).rows@.push(
                row,
            ),
    {
        let ghost k = row.key();
        let ghost old_rows = self.rows@;
        match self.position(row.key_ref()) {
            Some(i) => {
                self.rows.set(i, row);
                proof {
                    let new_rows = self.rows@;
                    assert forall|a: int, b: int|
                        0 <= a < new_rows.len() && 0 <= b < new_rows.len() && a != b implies (
                    #[trigger] new_rows[a]).key() != (#[trigger] new_rows[b]).key() by {
                        if a != i && b != i {
                            assert(old_rows[a] == new_rows[a] && old_rows[b] == new_rows[b]);
                        } else if a == i {
                            assert(old_rows[b] == new_rows[b]);
                            assert(old_rows[i as int].key() == k);
                        } else {
                            assert(old_rows[a] == new_rows[a]);
                            assert(old_rows[i as int].key() == k);
                        }
                    }
                    assert forall|k2: Seq<char>| #[trigger]
                        has_key(new_rows, k2) == has_key(old_rows, k2) by {
                        if has_key(old_rows, k2) {
                            let j = choose|j: int| 0 <= j < old_rows.len() && (#[trigger] old_rows[j]).key() == k2;
                            if j == i {
                                assert(new_rows[i as int].key() == k2);
                            } else {
                                assert(new_rows[j] == old_rows[j]);
                            }
                        }
                        if has_key(new_rows, k2) {
                            let j = choose|j: int| 0 <= j < new_rows.len() && (#[trigger] new_rows[j]).key() == k2;
                            if j == i {
                                assert(old_rows[i as int].key() == k2);
                            } else {
                                assert(new_rows[j] == old_rows[j]);
                            }
                        }
                    }
                    assert(self@ =~= old_rows_map_insert(old_rows, row)) by {
                        assert forall|k2: Seq<char>| #[trigger] self@.contains_key(k2) implies self@[k2]
                            == old_rows_map_insert(old_rows, row)[k2] by {
                            let j = index_of(new_rows, k2);
                            lemma_index_of(new_rows, j);
                            if k2 != k {
                                assert(j != i);
                                assert(new_rows[j] == old_rows[j]);
                                lemma_index_of(old_rows, j);
                            }
                        }
                    }
                }
            },
            None => {
                self.rows.push(row);
                proof {
                    let new_rows = self.rows@;
                    assert forall|a: int, b: int|
                        0 <= a < new_rows.len() && 0 <= b < new_rows.len() && a != b implies (
                    #[trigger] new_rows[a]).key() != (#[trigger] new_rows[b]).key() by {
                        if a < old_rows.len() && b < old_rows.len() {
                            assert(old_rows[a] == new_rows[a] && old_rows[b] == new_rows[b]);
                        } else if a < old_rows.len() {
                            assert(old_rows[a] == new_rows[a]);
                        } else {
                            assert(old_rows[b] == new_rows[b]);
                        }
                    }
                    assert forall|k2: Seq<char>| #[trigger]
                        has_key(new_rows, k2) == (has_key(old_rows, k2) || k2 == k) by {
                        if has_key(old_rows, k2) {
                            let j = choose|j: int| 0 <= j < old_rows.len() && (#[trigger] old_rows[j]).key() == k2;
                            assert(new_rows[j] == old_rows[j]);
                        }
                        if k2 == k {
                            assert(new_rows[old_rows.len() as int] == row);
                        }
                        if has_key(new_rows, k2) && k2 != k {
                            let j = choose|j: int| 0 <= j < new_rows.len() && (#[trigger] new_rows[j]).key() == k2;
                            assert(j < old_rows.len());
                            assert(new_rows[j] == old_rows[j]);
                        }
                    }
                    assert(self@ =~= old_rows_map_insert(old_rows, row)) by {
                        assert forall|k2: Seq<char>| #[trigger] self@.contains_key(k2) implies self@[k2]
                            == old_rows_map_insert(old_rows, row)[k2] by {
                            let j = index_of(new_rows, k2);
                            lemma_index_of(new_rows, j);
                            if k2 != k {
                                assert(j != old_rows.len());
                                assert(new_rows[j] == old_rows[j]);
                                lemma_index_of(old_rows, j);
                            } else {
                                lemma_index_of(new_rows, old_rows.len() as int);
                            }
                        }
                    }
                }
            },
        }
    }

    /// Removes the row with key `k`, if any; returns it.
    pub fn take(&mut self, k: &String) -> (r: Option<T>)
        requires
            old(self).wf(),
        ensures
            final(self).wf(),
            final(self)@ == old(self)@.remove(k@),
            r == (if old(self)@.contains_key(k@) {
                Some(old(self)@[k@])
            } else {
                None::<T>
            }),
            has_key(old(self).rows@, k@) ==> final(self).rows@ == old(self).rows@.remove(
                index_of(old(self).rows@, k@),
            ),
            !has_key(old(self).rows@, k@) ==> final(self).rows@ == old(self).rows@,
    {
        let ghost old_rows = self.rows@;
        match self.position(k) {
            Some(i) => {
                let row = self.rows.remove(i);
                proof {
                    let new_rows = self.rows@;
                    assert forall|a: int, b: int|
                        0 <= a < new_rows.len() && 0 <= b < new_rows.len() && a != b implies (
                    #[trigger] new_rows[a]).key() != (#[trigger] new_rows[b]).key() by {
                        let a2 = if a < i { a } else { a + 1 };
                        let b2 = if b < i { b } else { b + 1 };
                        assert(new_rows[a] == old_rows[a2]);
                        assert(new_rows[b] == old_rows[b2]);
                    }
                    assert forall|k2: Seq<char>| #[trigger]
                        has_key(new_rows, k2) == (has_key(old_rows, k2) && k2 != k@) by {
                        if has_key(old_rows, k2) && k2 != k@ {
                            let j = choose|j: int| 0 <= j < old_rows.len() && (#[trigger] old_rows[j]).key() == k2;
                            assert(j != i);
                            if j < i {
                                assert(new_rows[j] == old_rows[j]);
                            } else {
                                assert(new_rows[j - 1] == old_rows[j]);
                            }
                        }
                        if has_key(new_rows, k2) {
                            let j = choose|j: int| 0 <= j < new_rows.len() && (#[trigger] new_rows[j]).key() == k2;
                            let j2 = if j < i { j } else { j + 1 };
                            assert(new_rows[j] == old_rows[j2]);
                            assert(j2 != i);
                        }
                    }
                    assert(self@ =~= rows_map(old_rows).remove(k@)) by {
                        assert forall|k2: Seq<char>| #[trigger] self@.contains_key(k2) implies self@[k2]
                            == rows_map(old_rows).remove(k@)[k2] by {
                            let j = index_of(new_rows, k2);
                            lemma_index_of(new_rows, j);
                            let j2 = if j < i { j } else { j + 1 };
                            assert(new_rows[j] == old_rows[j2]);
                            lemma_index_of(old_rows, j2);
                        }
                    }
                    lemma_index_of(old_rows, i as int);
                }
                Some(row)
            },
            None => {
                assert(rows_map(old_rows).remove(k@) =~= rows_map(old_rows));
                None
            },
        }
    }
}

pub open spec fn old_rows_map_insert<T: Keyed>(rows: Seq<T>, row: T) -> Map<Seq<char>, T> {
    rows_map(rows).insert(row.key(), row)
}

impl<T: Keyed + Duplicate> Table<T> {
    /// A copy of the row with key `k`, if any.
    pub fn find(&self, k: &String) -> (r: Option<T>)
        requires
            self.wf(),
        ensures
            r == (if self@.contains_key(k@) {
                Some(self@[k@])
            } else {
                None::<T>
            }),
    {
        match self.position(k) {
            Some(i) => Some(self.rows[i].duplicate()),
            None => None,
        }
    }

    /// A copy of the whole table.
    pub fn snapshot(&self) -> (r: Self)
        ensures
            r.rows@ == self.rows@,
    {
        let mut out: Vec<T> = Vec::new();
        let mut i: usize = 0;
        while i < self.rows.len()
            invariant
                0 <= i <= self.rows.len(),
                out@ =~= self.rows@.subrange(0, i as int),
            decreases self.rows.len() - i,
        {
            out.push(self.rows[i].duplicate());
            assert(self.rows@.subrange(0, i + 1) =~= self.rows@.subrange(0, i as int).push(
                self.rows@[i as int],
            ));
            i = i + 1;
        }
        assert(self.rows@.subrange(0, self.rows.len() as int) =~= self.rows@);
        Table { rows: out }
    }
}

/// Everything the engine keeps at runtime and in history, one table per kind.
#[derive(Debug)]
pub struct RuntimeStore {
    pub tasks: Table<Task>,
    pub process_instances: Table<ProcessInstance>,
    pub executions: Table<Execution>,
    pub process_definitions: Table<ProcessDefinition>,
    pub timer_jobs: Table<RuntimeTimerJobState>,
    pub job_types: Table<JobTypeEntry>,
    pub comments: Table<HistoricComment>,
    pub task_events: Table<HistoricTaskEvent>,
}


/// Names of the store's tables.
#[derive(Debug)]
pub enum StoreTable {
    Tasks,
    ProcessInstances,
    Executions,
    ProcessDefinitions,
    TimerJobs,
    JobTypes,
    Comments,
    TaskEvents,
}

/// Every table of `a` not numbered in `touched` holds the same rows in `b`.
pub open spec fn frame(a: RuntimeStore, b: RuntimeStore, touched: Set<StoreTable>) -> bool {
    &&& !touched.contains(StoreTable::Tasks) ==> a.tasks.rows@ == b.tasks.rows@
    &&& !touched.contains(StoreTable::ProcessInstances) ==> a.process_instances.rows@ == b.process_instances.rows@
    &&& !touched.contains(StoreTable::Executions) ==> a.executions.rows@ == b.executions.rows@
    &&& !touched.contains(StoreTable::ProcessDefinitions) ==> a.process_definitions.rows@ == b.process_definitions.rows@
    &&& !touched.contains(StoreTable::TimerJobs) ==> a.timer_jobs.rows@ == b.timer_jobs.rows@
    &&& !touched.contains(StoreTable::JobTypes) ==> a.job_types.rows@ == b.job_types.rows@
    &&& !touched.contains(StoreTable::Comments) ==> a.comments.rows@ == b.comments.rows@
    &&& !touched.contains(StoreTable::TaskEvents) ==> a.task_events.rows == b.task_events.rows
}

/// Two stores that hold the same rows in the same order.
pub open spec fn same_store(a: RuntimeStore, b: RuntimeStore) -> bool {
    &&& a.tasks.rows@ == b.tasks.rows@
    &&& a.process_instances.rows@ == b.process_instances.rows@
    &&& a.executions.rows@ == b.executions.rows@
    &&& a.process_definitions.rows@ == b.process_definitions.rows@
    &&& a.timer_jobs.rows@ == b.timer_jobs.rows@
    &&& a.job_types.rows@ == b.job_types.rows@
    &&& a.comments.rows@ == b.comments.rows@
    &&& a.task_events.rows@.len() == b.task_events.rows@.len()
    &&& forall|i: int|
        0 <= i < a.task_events.rows@.len() ==> same_task_event(
            #[trigger] a.task_events.rows@[i],
            b.task_events.rows@[i],
        )
}

impl RuntimeStore {
    pub open spec fn wf(&self) -> bool {
        &&& self.tasks.wf()
        &&& self.process_instances.wf()
        &&& self.executions.wf()
        &&& self.process_definitions.wf()
        &&& self.timer_jobs.wf()
        &&& self.job_types.wf()
        &&& self.comments.wf()
        &&& self.task_events.wf()
    }

    /// An empty store.
    pub fn new() -> (r: Self)
        ensures
            r.wf(),
            r.tasks.rows@.len() == 0,
            r.process_instances.rows@.len() == 0,
            r.executions.rows@.len() == 0,
            r.process_definitions.rows@.len() == 0,
            r.timer_jobs.rows@.len() == 0,
            r.job_types.rows@.len() == 0,
            r.comments.rows@.len() == 0,
            r.task_events.rows@.len() == 0,
    {
        RuntimeStore {
            tasks: Table::new(),
            process_instances: Table::new(),
            executions: Table::new(),
            process_definitions: Table::new(),
            timer_jobs: Table::new(),
            job_types: Table::new(),
            comments: Table::new(),
            task_events: Table::new(),
        }
    }

    /// A working copy holding the same rows.
    pub fn working_copy(&self) -> (r: Self)
        requires
            self.wf(),
        ensures
            r.wf(),
            same_store(r, *self),
    {
        let mut events: Vec<HistoricTaskEvent> = Vec::new();
        let mut i: usize = 0;
        while i < self.task_events.rows.len()
            invariant
                0 <= i <= self.task_events.rows.len(),
                events@.len() == i,
                forall|j: int| 0 <= j < i ==> same_task_event(#[trigger] events@[j], self.task_events.rows@[j]),
            decreases self.task_events.rows.len() - i,
        {
            events.push(self.task_events.rows[i].copy());
            i = i + 1;
        }
        let r = RuntimeStore {
            tasks: self.tasks.snapshot(),
            process_instances: self.process_instances.snapshot(),
            executions: self.executions.snapshot(),
            process_definitions: self.process_definitions.snapshot(),
            timer_jobs: self.timer_jobs.snapshot(),
            job_types: self.job_types.snapshot(),
            comments: self.comments.snapshot(),
            task_events: Table { rows: events },
        };
        assert(r.task_events.wf()) by {
            assert forall|a: int, b: int|
                0 <= a < r.task_events.rows@.len() && 0 <= b < r.task_events.rows@.len() && a != b
                implies (#[trigger] r.task_events.rows@[a]).key() != (
            #[trigger] r.task_events.rows@[b]).key() by {
                assert(same_task_event(r.task_events.rows@[a], self.task_events.rows@[a]));
                assert(same_task_event(r.task_events.rows@[b], self.task_events.rows@[b]));
            }
        }
        r
    }

    /// Stores a task (replacing the one with the same id).
    pub fn insert_task(&mut self, task: Task)
        requires
            old(self).wf(),
        ensures
            final(self).wf(),
            frame(*old(self), *final(self), set![StoreTable::Tasks]),
            final(self).tasks@ == old(self).tasks@.insert(task.id@, task),
    {
        self.tasks.upsert(task);
    }

    /// A copy of the task with the given id.
    pub fn find_task(&self, id: &String) -> (r: Option<Task>)
        requires
            self.wf(),
        ensures
            r == (if self.tasks@.contains_key(id@) {
                Some(self.tasks@[id@])
            } else {
                None::<Task>
            }),
    {
        self.tasks.find(id)
    }

    /// Deletes the task with the given id.
    pub fn delete_task(&mut self, id: &String)
        requires
            old(self).wf(),
        ensures
            final(self).wf(),
            frame(*old(self), *final(self), set![StoreTable::Tasks]),
            final(self).tasks@ == old(self).tasks@.remove(id@),
    {
        let _ = self.tasks.take(id);
    }

    /// Stores a process instance (replacing the one with the same id).
    pub fn insert_process_instance(&mut self, pi: ProcessInstance)
        requires
            old(self).wf(),
        ensures
            final(self).wf(),
            frame(*old(self), *final(self), set![StoreTable::ProcessInstances]),
            final(self).process_instances@ == old(self).process_instances@.insert(pi.id@, pi),
            has_key(old(self).process_instances.rows@, pi.id@) ==> final(self).process_instances.rows@
                == old(self).process_instances.rows@.update(
                index_of(old(self).process_instances.rows@, pi.id@),
                pi,
            ),
    {
        self.process_instances.upsert(pi);
    }

    /// A copy of the process instance with the given id.
    pub fn find_process_instance(&self, id: &String) -> (r: Option<ProcessInstance>)
        requires
            self.wf(),
        ensures
            r == (if self.process_instances@.contains_key(id@) {
                Some(self.process_instances@[id@])
            } else {
                None::<ProcessInstance>
            }),
    {
        self.process_instances.find(id)
    }

    /// Stores an execution (replacing the one with the same id).
    pub fn insert_execution(&mut self, e: Execution)
        requires
            old(self).wf(),
        ensures
            final(self).wf(),
            frame(*old(self), *final(self), set![StoreTable::Executions]),
            final(self).executions@ == old(self).executions@.insert(e.id@, e),
    {
        self.executions.upsert(e);
    }

    /// Deletes the execution with the given id.
    pub fn delete_execution(&mut self, id: &String)
        requires
            old(self).wf(),
        ensures
            final(self).wf(),
            frame(*old(self), *final(self), set![StoreTable::Executions]),
            final(self).executions@ == old(self).executions@.remove(id@),
    {
        let _ = self.executions.take(id);
    }

    /// A copy of the execution with the given id.
    pub fn find_execution(&self, id: &String) -> (r: Option<Execution>)
        requires
            self.wf(),
        ensures
            r == (if self.executions@.contains_key(id@) {
                Some(self.executions@[id@])
            } else {
                None::<Execution>
            }),
    {
        self.executions.find(id)
    }

    /// Stores a process definition (replacing the one with the same id).
    pub fn insert_process_definition(&mut self, d: ProcessDefinition)
        requires
            old(self).wf(),
        ensures
            final(self).wf(),
            frame(*old(self), *final(self), set![StoreTable::ProcessDefinitions]),
            final(self).process_definitions@ == old(self).process_definitions@.insert(d.id@, d),
            has_key(old(self).process_definitions.rows@, d.id@) ==> final(self).process_definitions.rows@
                == old(self).process_definitions.rows@.update(
                index_of(old(self).process_definitions.rows@, d.id@),
                d,
            ),
    {
        self.process_definitions.upsert(d);
    }

    /// A copy of the process definition with the given id.
    pub fn get_process_definition(&self, id: &String) -> (r: Option<ProcessDefinition>)
        requires
            self.wf(),
        ensures
            r == (if self.process_definitions@.contains_key(id@) {
                Some(self.process_definitions@[id@])
            } else {
                None::<ProcessDefinition>
            }),
    {
        self.process_definitions.find(id)
    }

    /// Stores a job row (replacing the one with the same id); its recorded type is untouched.
    pub fn insert_timer_job_state(&mut self, job: RuntimeTimerJobState)
        requires
            old(self).wf(),
        ensures
            final(self).wf(),
            frame(*old(self), *final(self), set![StoreTable::TimerJobs]),
            final(self).timer_jobs@ == old(self).timer_jobs@.insert(job.timer_job_id@, job),
    {
        self.timer_jobs.upsert(job);
    }

    /// A copy of the job row with the given id.
    pub fn find_timer_job_state(&self, id: &String) -> (r: Option<RuntimeTimerJobState>)
        requires
            self.wf(),
        ensures
            r == (if self.timer_jobs@.contains_key(id@) {
                Some(self.timer_jobs@[id@])
            } else {
                None::<RuntimeTimerJobState>
            }),
    {
        self.timer_jobs.find(id)
    }

    /// The recorded type of the job with the given id.
    pub fn find_timer_job_type(&self, id: &String) -> (r: Option<RuntimeJobType>)
        requires
            self.wf(),
        ensures
            r == (if self.job_types@.contains_key(id@) {
                Some(self.job_types@[id@].job_type)
            } else {
                None::<RuntimeJobType>
            }),
    {
        match self.job_types.find(id) {
            Some(entry) => Some(entry.job_type),
            None => None,
        }
    }

    /// Stores a job row together with its type: the type is recorded when
    /// given and any recorded type is dropped when not.
    pub fn insert_timer_job_state_with_type(
        &mut self,
        job: RuntimeTimerJobState,
        job_type: Option<RuntimeJobType>,
    )
        requires
            old(self).wf(),
        ensures
            final(self).wf(),
            frame(*old(self), *final(self), set![StoreTable::TimerJobs, StoreTable::JobTypes]),
            final(self).timer_jobs@ == old(self).timer_jobs@.insert(job.timer_job_id@, job),
            has_key(old(self).timer_jobs.rows@, job.timer_job_id@) ==> final(self).timer_jobs.rows@
                == old(self).timer_jobs.rows@.update(
                index_of(old(self).timer_jobs.rows@, job.timer_job_id@),
                job,
            ),
            final(self).job_types@ == (match job_type {
                Some(t) => old(self).job_types@.insert(
                    job.timer_job_id@,
                    JobTypeEntry { timer_job_id: job.timer_job_id, job_type: t },
                ),
                None => old(self).job_types@.remove(job.timer_job_id@),
            }),
    {
        let id = job.timer_job_id.clone();
        self.timer_jobs.upsert(job);
        match job_type {
            Some(t) => self.job_types.upsert(JobTypeEntry { timer_job_id: id, job_type: t }),
            None => {
                let _ = self.job_types.take(&id);
            },
        }
    }

    /// Deletes the job row with the given id and its recorded type.
    pub fn delete_timer_job_state(&mut self, id: &String)
        requires
            old(self).wf(),
        ensures
            final(self).wf(),
            frame(*old(self), *final(self), set![StoreTable::TimerJobs, StoreTable::JobTypes]),
            final(self).timer_jobs@ == old(self).timer_jobs@.remove(id@),
            final(self).job_types@ == old(self).job_types@.remove(id@),
    {
        let _ = self.timer_jobs.take(id);
        let _ = self.job_types.take(id);
    }
}

} // verus!
