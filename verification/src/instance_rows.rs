//! Removing every row that belongs to one process instance from a table.
use vstd::prelude::*;
use crate::entities::{Duplicate, Execution, Keyed, RuntimeTimerJobState, Task};
use crate::store::{has_key, index_of, lemma_index_of, rows_map, unique_keys, Table};

verus! {

/// Rows that belong to a process instance.
pub trait InstanceScoped: Sized {
    spec fn instance_of(&self) -> Option<Seq<char>>;

    fn in_instance(&self, pid: &String) -> (r: bool)
        ensures
            r == (self.instance_of() == Some(pid@)),
    ;
}

impl InstanceScoped for Task {
    open spec fn instance_of(&self) -> Option<Seq<char>> {
        Some(self.process_instance_id@)
    }

    fn in_instance(&self, pid: &String) -> (r: bool) {
        self.process_instance_id.eq(pid)
    }
}

impl InstanceScoped for Execution {
    open spec fn instance_of(&self) -> Option<Seq<char>> {
        crate::entities::opt_view(self.process_instance_id)
    }

    fn in_instance(&self, pid: &String) -> (r: bool) {
        match &self.process_instance_id {
            Some(p) => p.eq(pid),
            None => false,
        }
    }
}

impl InstanceScoped for RuntimeTimerJobState {
    open spec fn instance_of(&self) -> Option<Seq<char>> {
        Some(self.process_instance_id@)
    }

    fn in_instance(&self, pid: &String) -> (r: bool) {
        self.process_instance_id.eq(pid)
    }
}

/// `kept` holds, in order, the rows of `rows` outside instance `pid`, as
/// picked out by the strictly increasing positions `idx`.
pub open spec fn kept_rows<T: InstanceScoped>(rows: Seq<T>, kept: Seq<T>, idx: Seq<int>, pid: Seq<char>, upto: int) -> bool {
    &&& kept.len() == idx.len()
    &&& forall|a: int| 0 <= a < idx.len() ==> 0 <= #[trigger] idx[a] < upto && kept[a] == rows[idx[a]]
        && rows[idx[a]].instance_of() != Some(pid)
    &&& forall|a: int, b: int| 0 <= a < b < idx.len() ==> #[trigger] idx[a] < #[trigger] idx[b]
    &&& forall|j: int| 0 <= j < upto && (#[trigger] rows[j]).instance_of() != Some(pid) ==> exists|a: int|
        0 <= a < idx.len() && #[trigger] idx[a] == j
}

proof fn lemma_kept_map<T: Keyed + InstanceScoped>(rows: Seq<T>, kept: Seq<T>, idx: Seq<int>, pid: Seq<char>)
    requires
        unique_keys(rows),
        kept_rows(rows, kept, idx, pid, rows.len() as int),
    ensures
        unique_keys(kept),
        forall|k: Seq<char>| #[trigger] rows_map(kept).contains_key(k) <==> (rows_map(rows).contains_key(k)
            && rows_map(rows)[k].instance_of() != Some(pid)),
        forall|k: Seq<char>| #[trigger] rows_map(kept).contains_key(k) ==> rows_map(kept)[k] == rows_map(rows)[k],
{
    assert forall|a: int, b: int| 0 <= a < kept.len() && 0 <= b < kept.len() && a != b implies (
        #[trigger] kept[a]).key() != (#[trigger] kept[b]).key() by {
        if a < b {
            assert(idx[a] < idx[b]);
        } else {
            assert(idx[b] < idx[a]);
        }
    }
    assert forall|k: Seq<char>| #[trigger] rows_map(kept).contains_key(k) <==> (rows_map(rows).contains_key(k)
        && rows_map(rows)[k].instance_of() != Some(pid)) by {
        if has_key(kept, k) {
            let a = choose|a: int| 0 <= a < kept.len() && (#[trigger] kept[a]).key() == k;
            lemma_index_of(rows, idx[a]);
        }
        if has_key(rows, k) && rows_map(rows)[k].instance_of() != Some(pid) {
            let j = index_of(rows, k);
            let a = choose|a: int| 0 <= a < idx.len() && #[trigger] idx[a] == j;
            assert(kept[a].key() == k);
        }
    }
    assert forall|k: Seq<char>| #[trigger] rows_map(kept).contains_key(k) implies rows_map(kept)[k]
        == rows_map(rows)[k] by {
        let a = index_of(kept, k);
        lemma_index_of(kept, a);
        lemma_index_of(rows, idx[a]);
    }
}

impl<T: Keyed + Duplicate + InstanceScoped> Table<T> {
    /// Removes every row of process instance `pid`; returns how many went.
    pub fn remove_instance_rows(&mut self, pid: &String) -> (r: usize)
        requires
            old(self).wf(),
        ensures
            final(self).wf(),
            forall|k: Seq<char>| #[trigger] final(self)@.contains_key(k) <==> (old(self)@.contains_key(k)
                && old(self)@[k].instance_of() != Some(pid@)),
            forall|k: Seq<char>| #[trigger] final(self)@.contains_key(k) ==> final(self)@[k] == old(self)@[k],
            r == old(self).rows@.len() - final(self).rows@.len(),
    {
        let ghost rows = self.rows@;
        let mut kept: Vec<T> = Vec::new();
        let ghost mut idx: Seq<int> = Seq::empty();
        let mut i: usize = 0;
        let n = self.rows.len();
        while i < n
            invariant
                n == self.rows.len(),
                rows == self.rows@,
                0 <= i <= n,
                kept_rows(rows, kept@, idx, pid@, i as int),
            decreases n - i,
        {
            if !self.rows[i].in_instance(pid) {
                let row = self.rows[i].duplicate();
                kept.push(row);
                proof {
                    let old_idx = idx;
                    idx = idx.push(i as int);
                    assert forall|j: int| 0 <= j < i + 1 && (#[trigger] rows[j]).instance_of() != Some(pid@)
                        implies exists|a: int| 0 <= a < idx.len() && #[trigger] idx[a] == j by {
                        if j < i {
                            let a = choose|a: int| 0 <= a < old_idx.len() && #[trigger] old_idx[a] == j;
                            assert(idx[a] == j);
                        } else {
                            assert(idx[old_idx.len() as int] == j);
                        }
                    }
                }
            } else {
                proof {
                    assert forall|j: int| 0 <= j < i + 1 && (#[trigger] rows[j]).instance_of() != Some(pid@)
                        implies exists|a: int| 0 <= a < idx.len() && #[trigger] idx[a] == j by {
                        assert(j != i);
                    }
                }
            }
            i = i + 1;
        }
        proof {
            lemma_kept_map(rows, kept@, idx, pid@);
            assert(kept@.len() <= rows.len()) by {
                if idx.len() > 0 {
                    lemma_idx_bound(idx, rows.len() as int);
                }
            }
        }
        let removed = n - kept.len();
        self.rows = kept;
        removed
    }
}

proof fn lemma_idx_bound(idx: Seq<int>, n: int)
    requires
        n >= 0,
        forall|a: int| 0 <= a < idx.len() ==> 0 <= #[trigger] idx[a] < n,
        forall|a: int, b: int| 0 <= a < b < idx.len() ==> #[trigger] idx[a] < #[trigger] idx[b],
    ensures
        idx.len() <= n,
    decreases idx.len(),
{
    if idx.len() > 0 {
        let rest = idx.drop_last();
        let m = idx[idx.len() - 1];
        assert(0 <= m < n);
        assert forall|a: int| 0 <= a < rest.len() implies 0 <= #[trigger] rest[a] < m by {
            assert(rest[a] == idx[a]);
            assert(idx[a] < idx[idx.len() - 1]);
        }
        assert forall|a: int, b: int| 0 <= a < b < rest.len() implies #[trigger] rest[a] < #[trigger] rest[b] by {
            assert(rest[a] == idx[a] && rest[b] == idx[b]);
        }
        lemma_idx_bound(rest, m);
        assert(rest.len() <= m);
    }
}

} // verus!
