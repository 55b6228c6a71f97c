//! The tree of executions: the ancestors of an execution, walked through
//! parent links, and all executions below a root.
use vstd::prelude::*;
use crate::command::{contains_string, contains_view};
use crate::entities::{opt_view, Execution};
use crate::store::RuntimeStore;

verus! {

/// The ids met walking up from `id` through parent links, nearest first, at
/// most `fuel` of them; the walk stops at an id with no stored execution.
pub open spec fn ancestry(m: Map<Seq<char>, Execution>, id: Seq<char>, fuel: nat) -> Seq<Seq<char>>
    decreases fuel,
{
    if fuel == 0 || !m.contains_key(id) {
        Seq::empty()
    } else {
        let e = m[id];
        seq![e.id@] + match e.parent_id {
            Some(p) => ancestry(m, p@, (fuel - 1) as nat),
            None => Seq::empty(),
        }
    }
}

pub open spec fn string_views(v: Seq<String>) -> Seq<Seq<char>> {
    v.map_values(|s: String| s@)
}

/// The execution `id` and its ancestors, nearest first, at most 256 of them.
pub fn execution_ancestry(store: &RuntimeStore, source_execution_id: &String) -> (r: Vec<String>)
    requires
        store.wf(),
    ensures
        string_views(r@) == ancestry(store.executions@, source_execution_id@, 256),
{
    let mut out: Vec<String> = Vec::new();
    let mut current: Option<String> = Some(source_execution_id.clone());
    let mut k: usize = 0;
    proof {
        assert(string_views(out@) + ancestry(store.executions@, source_execution_id@, 256) =~= ancestry(
            store.executions@, source_execution_id@, 256));
    }
    while k < 256 && current.is_some()
        invariant
            store.wf(),
            0 <= k <= 256,
            current is None ==> string_views(out@) == ancestry(store.executions@, source_execution_id@, 256),
            current matches Some(c) ==> string_views(out@) + ancestry(store.executions@, c@, (256 - k) as nat)
                == ancestry(store.executions@, source_execution_id@, 256),
        decreases 256 - k,
    {
        let id = match &current {
            Some(c) => c.clone(),
            None => String::new(),
        };
        match store.find_execution(&id) {
            Some(e) => {
                let ghost before = string_views(out@);
                out.push(e.id.clone());
                proof {
                    assert(string_views(out@) =~= before.push(e.id@));
                    let rest = match e.parent_id {
                        Some(ref p) => ancestry(store.executions@, p@, (256 - k - 1) as nat),
                        None => Seq::<Seq<char>>::empty(),
                    };
                    assert(ancestry(store.executions@, id@, (256 - k) as nat) == seq![e.id@] + rest);
                    assert(before + (seq![e.id@] + rest) =~= before.push(e.id@) + rest);
                    if e.parent_id is None {
                        assert(before.push(e.id@) + rest =~= before.push(e.id@));
                    }
                }
                current = crate::entities::clone_opt(&e.parent_id);
            },
            None => {
                proof {
                    assert(ancestry(store.executions@, id@, (256 - k) as nat) =~= Seq::<Seq<char>>::empty());
                    assert(string_views(out@) + Seq::<Seq<char>>::empty() =~= string_views(out@));
                }
                current = None;
            },
        }
        k = k + 1;
    }
    proof {
        if let Some(c) = current {
            assert(k == 256);
            assert(ancestry(store.executions@, c@, 0) =~= Seq::<Seq<char>>::empty());
            assert(string_views(out@) + Seq::<Seq<char>>::empty() =~= string_views(out@));
        }
    }
    out
}

/// Whether a stored execution `c` has the parent `p`.
pub open spec fn child_edge(rows: Seq<Execution>, p: Seq<char>, c: Seq<char>) -> bool {
    exists|i: int| 0 <= i < rows.len() && (#[trigger] rows[i]).id@ == c && opt_view(rows[i].parent_id) == Some(p)
}

/// A chain of at least one parent-to-child step.
pub open spec fn is_child_path(rows: Seq<Execution>, path: Seq<Seq<char>>) -> bool {
    &&& path.len() >= 2
    &&& forall|k: int| 0 <= k < path.len() - 1 ==> #[trigger] child_edge(rows, path[k], path[k + 1])
}

/// Whether `x` lies below `root`, one or more child steps away.
pub open spec fn is_descendant(rows: Seq<Execution>, root: Seq<char>, x: Seq<char>) -> bool {
    exists|path: Seq<Seq<char>>| #[trigger] is_child_path(rows, path) && path[0] == root && path.last() == x
}

/// Whether every stored child of `root` or of a member of `s` is in `s`.
pub open spec fn closed_under_children(rows: Seq<Execution>, root: Seq<char>, s: Seq<Seq<char>>) -> bool {
    forall|i: int| 0 <= i < rows.len() && (#[trigger] rows[i]).parent_id is Some && (rows[i].parent_id->0@
        == root || s.contains(rows[i].parent_id->0@)) ==> s.contains(rows[i].id@)
}

proof fn lemma_out_bounded(out: Seq<Seq<char>>, ids: Seq<Seq<char>>)
    requires
        out.no_duplicates(),
        forall|x: Seq<char>| out.contains(x) ==> #[trigger] ids.contains(x),
    ensures
        out.len() <= ids.len(),
{
    out.unique_seq_to_set();
    ids.lemma_cardinality_of_set();
    assert(out.to_set().subset_of(ids.to_set()));
    vstd::set_lib::lemma_len_subset(out.to_set(), ids.to_set());
}

proof fn lemma_path_members(rows: Seq<Execution>, root: Seq<char>, s: Seq<Seq<char>>, path: Seq<Seq<char>>, k: int)
    requires
        closed_under_children(rows, root, s),
        is_child_path(rows, path),
        path[0] == root,
        1 <= k < path.len(),
    ensures
        s.contains(path[k]),
    decreases k,
{
    if k > 1 {
        lemma_path_members(rows, root, s, path, k - 1);
    }
    assert(child_edge(rows, path[k - 1], path[k - 1 + 1]));
    assert(path[k - 1 + 1] == path[k]);
    let i = choose|i: int| 0 <= i < rows.len() && (#[trigger] rows[i]).id@ == path[k] && opt_view(
        rows[i].parent_id,
    ) == Some(path[k - 1]);
    assert(s.contains(rows[i].id@));
}

proof fn lemma_closed_contains_descendants(rows: Seq<Execution>, root: Seq<char>, s: Seq<Seq<char>>, x: Seq<char>)
    requires
        closed_under_children(rows, root, s),
        is_descendant(rows, root, x),
    ensures
        s.contains(x),
{
    let path = choose|path: Seq<Seq<char>>| #[trigger] is_child_path(rows, path) && path[0] == root && path.last() == x;
    lemma_path_members(rows, root, s, path, path.len() - 1);
}

/// All executions below `root_execution_id` (children, their children, and
/// so on), each once, in no particular order.
pub fn descendant_execution_ids(store: &RuntimeStore, root_execution_id: &String) -> (r: Vec<String>)
    ensures
        string_views(r@).no_duplicates(),
        forall|x: Seq<char>| #[trigger] string_views(r@).contains(x) <==> is_descendant(
            store.executions.rows@,
            root_execution_id@,
            x,
        ),
{
    let rows = &store.executions.rows;
    let ghost root = root_execution_id@;
    let ghost ids = rows@.map_values(|e: Execution| e.id@);
    let mut out: Vec<String> = Vec::new();
    let mut changed = true;
    proof {
        assert(string_views(out@) =~= Seq::<Seq<char>>::empty());
    }
    while changed
        invariant
            string_views(out@).no_duplicates(),
            forall|x: Seq<char>| #[trigger] string_views(out@).contains(x) ==> is_descendant(rows@, root, x),
            forall|x: Seq<char>| string_views(out@).contains(x) ==> #[trigger] ids.contains(x),
            ids == rows@.map_values(|e: Execution| e.id@),
            root == root_execution_id@,
            !changed ==> closed_under_children(rows@, root, string_views(out@)),
        decreases rows@.len() - out@.len() + (if changed { 1int } else { 0int }),
    {
        proof {
            lemma_out_bounded(string_views(out@), ids);
        }
        let ghost start_len = out@.len();
        changed = false;
        let mut i: usize = 0;
        while i < rows.len()
            invariant
                0 <= i <= rows.len(),
                out@.len() >= start_len,
                changed ==> out@.len() > start_len,
                string_views(out@).no_duplicates(),
                forall|x: Seq<char>| #[trigger] string_views(out@).contains(x) ==> is_descendant(rows@, root, x),
                forall|x: Seq<char>| string_views(out@).contains(x) ==> #[trigger] ids.contains(x),
                ids == rows@.map_values(|e: Execution| e.id@),
                root == root_execution_id@,
                !changed ==> forall|j: int| 0 <= j < i && (#[trigger] rows@[j]).parent_id is Some && (
                    rows@[j].parent_id->0@ == root || string_views(out@).contains(rows@[j].parent_id->0@))
                    ==> string_views(out@).contains(rows@[j].id@),
            decreases rows.len() - i,
        {
            let e = &rows[i];
            if let Some(p) = &e.parent_id {
                let under = p.eq(root_execution_id) || contains_string(&out, p);
                proof {
                    if contains_view(out@, p@) {
                        let j = choose|j: int| 0 <= j < out@.len() && (#[trigger] out@[j])@ == p@;
                        assert(string_views(out@)[j] == p@);
                    }
                    if string_views(out@).contains(p@) {
                        let j = choose|j: int| 0 <= j < out@.len() && string_views(out@)[j] == p@;
                        assert(out@[j]@ == p@);
                    }
                }
                let present = contains_string(&out, &e.id);
                proof {
                    if present {
                        let j = choose|j: int| 0 <= j < out@.len() && (#[trigger] out@[j])@ == e.id@;
                        assert(string_views(out@)[j] == e.id@);
                    }
                }
                if under && !present {
                    let ghost before = string_views(out@);
                    proof {
                        assert(!before.contains(e.id@)) by {
                            if before.contains(e.id@) {
                                let j = choose|j: int| 0 <= j < before.len() && before[j] == e.id@;
                                assert(out@[j]@ == e.id@);
                            }
                        }
                        assert(child_edge(rows@, p@, e.id@)) by {
                            assert(rows@[i as int].id@ == e.id@);
                        }
                        if p@ == root {
                            let path = seq![root, e.id@];
                            assert(is_child_path(rows@, path)) by {
                                assert forall|k: int| 0 <= k < path.len() - 1 implies #[trigger] child_edge(rows@, path[k], path[k + 1]) by {
                                    assert(k == 0);
                                }
                            }
                            assert(is_descendant(rows@, root, e.id@));
                        } else {
                            assert(is_descendant(rows@, root, p@));
                            let path = choose|path: Seq<Seq<char>>| #[trigger] is_child_path(rows@, path) && path[0] == root
                                && path.last() == p@;
                            let np = path.push(e.id@);
                            assert(is_child_path(rows@, np)) by {
                                assert forall|k: int| 0 <= k < np.len() - 1 implies #[trigger] child_edge(rows@, np[k], np[k + 1]) by {
                                    if k < path.len() - 1 {
                                        assert(np[k] == path[k] && np[k + 1] == path[k + 1]);
                                    } else {
                                        assert(np[k] == p@ && np[k + 1] == e.id@);
                                    }
                                }
                            }
                            assert(np[0] == root && np.last() == e.id@);
                            assert(is_descendant(rows@, root, e.id@));
                        }
                        assert(ids[i as int] == e.id@);
                    }
                    out.push(e.id.clone());
                    proof {
                        assert(string_views(out@) =~= before.push(e.id@));
                        assert forall|x: Seq<char>| string_views(out@).contains(x) implies #[trigger] ids.contains(x) by {
                            if x != e.id@ {
                                assert(before.contains(x));
                            } else {
                                assert(ids[i as int] == e.id@);
                            }
                        }
                        assert forall|x: Seq<char>| #[trigger] string_views(out@).contains(x) implies is_descendant(rows@, root, x) by {
                            if x != e.id@ {
                                assert(before.contains(x));
                            }
                        }
                    }
                    changed = true;
                }
            }
            proof {
                if !changed {
                    assert(rows@[i as int] == *e);
                }
            }
            i = i + 1;
        }
        proof {
            lemma_out_bounded(string_views(out@), ids);
        }
    }
    proof {
        assert forall|x: Seq<char>| #[trigger] string_views(out@).contains(x) <==> is_descendant(rows@, root, x) by {
            if is_descendant(rows@, root, x) {
                lemma_closed_contains_descendants(rows@, root, string_views(out@), x);
            }
        }
    }
    out
}

} // verus!
