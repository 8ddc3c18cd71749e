//! The task record store: one record per ingestion job, addressed by a
//! store-assigned identifier.
//!
//! This is the model the pipeline is verified against: records live in
//! insertion order, identifiers are unique and increase from one, and every
//! mutation goes through the merge semantics of `apply_update`.

use vstd::prelude::*;

use crate::task::{apply_update, apply_update_spec, CreateTaskRequest, TaskRecord, TaskStatus, UpdateTaskRequest};
use vstd::seq_lib::group_to_multiset_ensures;

verus! {

/// Why a store operation failed.
#[derive(Clone, Copy, PartialEq, Eq, Structural, Debug)]
pub enum StorageError {
    /// No identifier is left to assign.
    IdsExhausted,
}

/// The first record with the given identifier, if any.
pub open spec fn find_task(s: Seq<TaskRecord>, id: i32) -> Option<TaskRecord>
    decreases s.len(),
{
    if s.len() == 0 {
        Option::None
    } else if s[0].id == id {
        Option::Some(s[0])
    } else {
        find_task(s.drop_first(), id)
    }
}

/// The store contents after updating the record with the given identifier,
/// if present.
pub open spec fn update_task_model(
    s: Seq<TaskRecord>,
    id: i32,
    req: UpdateTaskRequest,
    now: u64,
) -> Seq<TaskRecord>
    decreases s.len(),
{
    if s.len() == 0 {
        s
    } else if s[0].id == id {
        seq![apply_update_spec(s[0], req, now)] + s.drop_first()
    } else {
        seq![s[0]] + update_task_model(s.drop_first(), id, req, now)
    }
}

/// The store contents after removing the record with the given identifier,
/// if present.
pub open spec fn remove_task_model(s: Seq<TaskRecord>, id: i32) -> Seq<TaskRecord>
    decreases s.len(),
{
    if s.len() == 0 {
        s
    } else if s[0].id == id {
        s.drop_first()
    } else {
        seq![s[0]] + remove_task_model(s.drop_first(), id)
    }
}

/// No two records share an identifier.
pub open spec fn task_ids_distinct(s: Seq<TaskRecord>) -> bool {
    forall|i: int, j: int| 0 <= i < j < s.len() ==> s[i].id != s[j].id
}

/// The persisted task records, in creation order.
pub struct TaskStore {
    pub tasks: Vec<TaskRecord>,
    pub next_id: i32,
}

impl TaskStore {
    /// The store invariant: positive, unique identifiers below the next one
    /// to assign.
    pub open spec fn wf(&self) -> bool {
        &&& 1 <= self.next_id
        &&& task_ids_distinct(self.tasks@)
        &&& forall|i: int|
            0 <= i < self.tasks@.len() ==> 1 <= (#[trigger] self.tasks@[i]).id < self.next_id
    }

    /// An empty store.
    pub fn new() -> (r: TaskStore)
        ensures
            r.tasks@ =~= Seq::<TaskRecord>::empty(),
            r.next_id == 1,
            r.wf(),
    {
        TaskStore { tasks: Vec::new(), next_id: 1 }
    }

    /// Insert a new record for the request's file, status `Pending`,
    /// stamped `now`.
    ///
    /// Fails only when the identifier space is exhausted.
    pub fn create(&mut self, request: CreateTaskRequest, now: u64) -> (r: Result<
        TaskRecord,
        StorageError,
    >)
        requires
            old(self).wf(),
        ensures
            final(self).wf(),
            old(self).next_id == i32::MAX ==> r == Result::<TaskRecord, StorageError>::Err(
                StorageError::IdsExhausted,
            ) && *final(self) == *old(self),
            old(self).next_id < i32::MAX ==> {
                &&& r is Ok
                &&& r->Ok_0 == (TaskRecord {
                    id: old(self).next_id,
                    file_name: request.file_name,
                    status: TaskStatus::Pending,
                    created_at: now,
                    updated_at: now,
                    started_at: Option::None,
                    completed_at: Option::None,
                    error_message: Option::None,
                    embedding_count: Option::None,
                })
                &&& final(self).tasks@ == old(self).tasks@.push(r->Ok_0)
                &&& final(self).next_id == old(self).next_id + 1
            },
    {
        if self.next_id == i32::MAX {
            return Result::Err(StorageError::IdsExhausted);
        }
        let record = TaskRecord {
            id: self.next_id,
            file_name: request.file_name,
            status: TaskStatus::Pending,
            created_at: now,
            updated_at: now,
            started_at: Option::None,
            completed_at: Option::None,
            error_message: Option::None,
            embedding_count: Option::None,
        };
        let copy = record.duplicate();
        self.tasks.push(record);
        self.next_id = self.next_id + 1;
        Result::Ok(copy)
    }

    /// Look up a record by identifier; absence is not an error.
    pub fn find_by_id(&self, id: i32) -> (r: Option<TaskRecord>)
        ensures
            r == find_task(self.tasks@, id),
    {
        let n = self.tasks.len();
        let mut i: usize = 0;
        proof {
            assert(self.tasks@.skip(0) =~= self.tasks@);
        }
        while i < n
            invariant
                i <= n == self.tasks@.len(),
                find_task(self.tasks@, id) == find_task(self.tasks@.skip(i as int), id),
            decreases n - i,
        {
            proof {
                assert(self.tasks@.skip(i as int)[0] == self.tasks@[i as int]);
                assert(self.tasks@.skip(i as int).drop_first() =~= self.tasks@.skip(i as int + 1));
            }
            if self.tasks[i].id == id {
                return Option::Some(self.tasks[i].duplicate());
            }
            i += 1;
        }
        proof {
            assert(self.tasks@.skip(n as int) =~= Seq::<TaskRecord>::empty());
        }
        Option::None
    }

    /// Merge a partial update into the record with the given identifier.
    ///
    /// Returns the updated record, or nothing when the identifier is absent;
    /// every other record is left untouched.
    pub fn update(&mut self, id: i32, req: &UpdateTaskRequest, now: u64) -> (r: Option<TaskRecord>)
        requires
            old(self).wf(),
        ensures
            final(self).wf(),
            final(self).next_id == old(self).next_id,
            final(self).tasks@ == update_task_model(old(self).tasks@, id, *req, now),
            r == match find_task(old(self).tasks@, id) {
                Option::Some(t) => Option::Some(apply_update_spec(t, *req, now)),
                Option::None => Option::<TaskRecord>::None,
            },
    {
        let ghost s0 = old(self).tasks@;
        let n = self.tasks.len();
        let mut i: usize = 0;
        while i < n
            invariant
                i <= n == self.tasks@.len(),
                self.tasks@ == s0,
                s0 == old(self).tasks@,
                self.next_id == old(self).next_id,
                old(self).wf(),
                forall|k: int| 0 <= k < i ==> s0[k].id != id,
            decreases n - i,
        {
            if self.tasks[i].id == id {
                let updated = apply_update(&self.tasks[i], req, now);
                let copy = updated.duplicate();
                proof {
                    lemma_update_at_index(s0, id, *req, now, i as int);
                    lemma_find_at_index(s0, id, i as int);
                }
                self.tasks.set(i, updated);
                proof {
                    assert(self.tasks@ =~= s0.update(i as int, apply_update_spec(s0[i as int], *req, now)));
                    assert(forall|a: int|
                        0 <= a < self.tasks@.len() && a != i ==> self.tasks@[a] == s0[a]);
                    assert(self.tasks@[i as int].id == s0[i as int].id);
                }
                return Option::Some(copy);
            }
            i += 1;
        }
        proof {
            lemma_update_absent(s0, id, *req, now);
            lemma_find_absent(s0, id);
        }
        Option::None
    }

    /// Remove the record with the given identifier; true exactly when one
    /// was removed.
    pub fn delete(&mut self, id: i32) -> (r: bool)
        requires
            old(self).wf(),
        ensures
            final(self).wf(),
            final(self).next_id == old(self).next_id,
            final(self).tasks@ == remove_task_model(old(self).tasks@, id),
            r == (find_task(old(self).tasks@, id) is Some),
    {
        let ghost s0 = old(self).tasks@;
        let n = self.tasks.len();
        let mut i: usize = 0;
        while i < n
            invariant
                i <= n == self.tasks@.len(),
                self.tasks@ == s0,
                s0 == old(self).tasks@,
                self.next_id == old(self).next_id,
                old(self).wf(),
                forall|k: int| 0 <= k < i ==> s0[k].id != id,
            decreases n - i,
        {
            if self.tasks[i].id == id {
                proof {
                    lemma_remove_at_index(s0, id, i as int);
                    lemma_find_at_index(s0, id, i as int);
                }
                self.tasks.remove(i);
                proof {
                    assert(self.tasks@ =~= s0.remove(i as int));
                    assert(forall|a: int, b: int|
                        0 <= a < b < self.tasks@.len() ==> self.tasks@[a].id
                            != self.tasks@[b].id) by {
                        assert(forall|a: int|
                            0 <= a < self.tasks@.len() ==> self.tasks@[a] == (if a < i {
                                s0[a]
                            } else {
                                s0[a + 1]
                            }));
                    }
                }
                return true;
            }
            i += 1;
        }
        proof {
            lemma_remove_absent(s0, id);
            lemma_find_absent(s0, id);
        }
        false
    }

    /// How many records the store holds.
    pub fn len(&self) -> (r: usize)
        ensures
            r == self.tasks@.len(),
    {
        self.tasks.len()
    }
}


/// Parameters of a task listing: an optional status filter, and a window.
pub struct ListTasksQuery {
    pub status: Option<TaskStatus>,
    pub limit: Option<i64>,
    pub offset: Option<i64>,
}

/// Whether a record passes the status filter; no filter passes everything.
pub open spec fn matches_filter(t: TaskRecord, filter: Option<TaskStatus>) -> bool {
    match filter {
        Option::Some(st) => t.status == st,
        Option::None => true,
    }
}

/// The records passing the filter, in store order.
pub open spec fn matching_tasks(s: Seq<TaskRecord>, filter: Option<TaskStatus>) -> Seq<TaskRecord>
    decreases s.len(),
{
    if s.len() == 0 {
        s
    } else if matches_filter(s[0], filter) {
        seq![s[0]] + matching_tasks(s.drop_first(), filter)
    } else {
        matching_tasks(s.drop_first(), filter)
    }
}

/// The listing order: newer records first, ties broken by the smaller
/// identifier. A total order on records with distinct identifiers.
pub open spec fn listed_before(a: TaskRecord, b: TaskRecord) -> bool {
    a.created_at > b.created_at || (a.created_at == b.created_at && a.id < b.id)
}

/// Every record strictly precedes the ones after it.
pub open spec fn strictly_listed(s: Seq<TaskRecord>) -> bool {
    forall|i: int, j: int| 0 <= i < j < s.len() ==> listed_before(s[i], s[j])
}

/// Appending a record extends the matching records at the end.
proof fn lemma_matching_push(s: Seq<TaskRecord>, filter: Option<TaskStatus>, x: TaskRecord)
    ensures
        matches_filter(x, filter) ==> matching_tasks(s.push(x), filter) == matching_tasks(
            s,
            filter,
        ).push(x),
        !matches_filter(x, filter) ==> matching_tasks(s.push(x), filter) == matching_tasks(
            s,
            filter,
        ),
    decreases s.len(),
{
    if s.len() == 0 {
        assert(s.push(x)[0] == x);
        assert(s.push(x).drop_first() =~= s);
        if matches_filter(x, filter) {
            assert(seq![x] + matching_tasks(s, filter) =~= matching_tasks(s, filter).push(x));
        }
    } else {
        assert(s.push(x)[0] == s[0]);
        assert(s.push(x).drop_first() =~= s.drop_first().push(x));
        lemma_matching_push(s.drop_first(), filter, x);
        if matches_filter(s[0], filter) {
            if matches_filter(x, filter) {
                assert(seq![s[0]] + matching_tasks(s.drop_first(), filter).push(x)
                    =~= (seq![s[0]] + matching_tasks(s.drop_first(), filter)).push(x));
            }
        }
    }
}

/// Inserting anywhere adds exactly one occurrence to the multiset.
proof fn lemma_task_insert_to_multiset(s: Seq<TaskRecord>, v: TaskRecord, j: int)
    requires
        0 <= j <= s.len(),
    ensures
        s.insert(j, v).to_multiset() == s.to_multiset().insert(v),
{
    broadcast use group_to_multiset_ensures;

    let t = s.insert(j, v);
    assert(t.remove(j) =~= s);
    assert(t[j] == v);
    assert(t.remove(j).to_multiset() =~= t.to_multiset().remove(v));
    assert(t.to_multiset().contains(v)) by {
        assert(t.contains(v));
    }
    assert(t.to_multiset().remove(v).insert(v) =~= t.to_multiset());
}

impl TaskStore {
    /// List records, newest first, ties broken by identifier.
    ///
    /// Only records passing the status filter appear; the window skips
    /// `offset` of them (default none) and holds at most `limit` (default
    /// fifty); negative window values count as zero. The result is exactly a
    /// window of the matching records in listing order.
    pub fn list_all(
        &self,
        status_filter: Option<TaskStatus>,
        limit: Option<i64>,
        offset: Option<i64>,
    ) -> (r: Vec<TaskRecord>)
        requires
            self.wf(),
        ensures
            ({
                let lim = match limit {
                    Option::Some(l) => if l < 0 {
                        0
                    } else {
                        l as int
                    },
                    Option::None => 50int,
                };
                let off = match offset {
                    Option::Some(o) => if o < 0 {
                        0
                    } else {
                        o as int
                    },
                    Option::None => 0int,
                };
                let m = matching_tasks(self.tasks@, status_filter).to_multiset();
                exists|sorted: Seq<TaskRecord>|
                    {
                        &&& (#[trigger] sorted.to_multiset()) == m
                        &&& strictly_listed(sorted)
                        &&& r@ == sorted.subrange(
                            if off <= sorted.len() {
                                off
                            } else {
                                sorted.len() as int
                            },
                            if off + lim <= sorted.len() {
                                off + lim
                            } else {
                                sorted.len() as int
                            },
                        )
                    }
            }),
            strictly_listed(r@),
            forall|i: int|
                0 <= i < r@.len() ==> self.tasks@.contains(#[trigger] r@[i]) && matches_filter(
                    r@[i],
                    status_filter,
                ),
    {
        broadcast use group_to_multiset_ensures;

        let n = self.tasks.len();
        let mut sorted: Vec<TaskRecord> = Vec::new();
        let mut i: usize = 0;
        proof {
            assert(matching_tasks(self.tasks@.take(0), status_filter)
                =~= Seq::<TaskRecord>::empty());
            assert(sorted@ =~= Seq::<TaskRecord>::empty());
        }
        while i < n
            invariant
                i <= n == self.tasks@.len(),
                self.wf(),
                strictly_listed(sorted@),
                sorted@.to_multiset() == matching_tasks(
                    self.tasks@.take(i as int),
                    status_filter,
                ).to_multiset(),
                forall|k: int|
                    0 <= k < sorted@.len() ==> self.tasks@.take(i as int).contains(
                        #[trigger] sorted@[k],
                    ),
                forall|k: int|
                    0 <= k < sorted@.len() ==> matches_filter(#[trigger] sorted@[k], status_filter),
            decreases n - i,
        {
            broadcast use group_to_multiset_ensures;

            proof {
                assert(self.tasks@.take(i as int + 1) =~= self.tasks@.take(i as int).push(
                    self.tasks@[i as int],
                ));
                lemma_matching_push(
                    self.tasks@.take(i as int),
                    status_filter,
                    self.tasks@[i as int],
                );
            }
            let keep = match status_filter {
                Option::Some(st) => self.tasks[i].status == st,
                Option::None => true,
            };
            if keep {
                let v = self.tasks[i].duplicate();
                let mut j: usize = 0;
                while j < sorted.len() && (sorted[j].created_at > v.created_at || (
                sorted[j].created_at == v.created_at && sorted[j].id < v.id))
                    invariant
                        j <= sorted@.len(),
                        forall|k: int| 0 <= k < j ==> listed_before(#[trigger] sorted@[k], v),
                    decreases sorted@.len() - j,
                {
                    j += 1;
                }
                proof {
                    if j < sorted@.len() {
                        assert(!listed_before(sorted@[j as int], v));
                        assert(self.tasks@.take(i as int).contains(sorted@[j as int]));
                        let m = choose|m: int|
                            0 <= m < self.tasks@.take(i as int).len() && self.tasks@.take(
                                i as int,
                            )[m] == sorted@[j as int];
                        assert(self.tasks@[m] == sorted@[j as int]);
                        assert(sorted@[j as int].id != v.id);
                        assert(listed_before(v, sorted@[j as int]));
                    }
                }
                let ghost prev = sorted@;
                proof {
                    if (j as int) < prev.len() {
                        assert(listed_before(v, prev[j as int]));
                    }
                    assert forall|k: int| j <= k < prev.len() implies listed_before(
                        v,
                        prev[k],
                    ) by {
                        if k > j {
                            assert(strictly_listed(prev));
                            assert(listed_before(prev[j as int], prev[k]));
                        }
                    }
                }
                sorted.insert(j, v);
                proof {
                    lemma_task_insert_to_multiset(prev, v, j as int);
                    assert(strictly_listed(sorted@)) by {
                        assert(forall|k: int| 0 <= k < j ==> sorted@[k] == prev[k]);
                        assert(sorted@[j as int] == v);
                        assert(forall|k: int| j < k < sorted@.len() ==> sorted@[k] == prev[k - 1]);
                        assert(forall|k: int|
                            j < k < sorted@.len() ==> listed_before(v, #[trigger] sorted@[k]));
                    }
                    assert(forall|k: int|
                        0 <= k < sorted@.len() ==> self.tasks@.take(i as int + 1).contains(
                            #[trigger] sorted@[k],
                        )) by {
                        assert(forall|k: int|
                            0 <= k < prev.len() ==> self.tasks@.take(i as int + 1).contains(
                                #[trigger] prev[k],
                            )) by {
                            assert(forall|k: int, m: int|
                                0 <= m < i && self.tasks@.take(i as int)[m] == prev[k]
                                    ==> self.tasks@.take(i as int + 1)[m] == prev[k]);
                        }
                        assert(self.tasks@.take(i as int + 1)[i as int] == v);
                    }
                }
            } else {
                proof {
                    assert(forall|k: int|
                        0 <= k < sorted@.len() ==> self.tasks@.take(i as int + 1).contains(
                            #[trigger] sorted@[k],
                        )) by {
                        assert(forall|k: int, m: int|
                            0 <= m < i && self.tasks@.take(i as int)[m] == sorted@[k]
                                ==> self.tasks@.take(i as int + 1)[m] == sorted@[k]);
                    }
                }
            }
            i += 1;
        }
        proof {
            assert(self.tasks@.take(n as int) =~= self.tasks@);
        }
        let lim_u: usize = match limit {
            Option::Some(l) => if l < 0 {
                0
            } else if (l as u64) > (usize::MAX as u64) {
                usize::MAX
            } else {
                l as usize
            },
            Option::None => 50,
        };
        let off_u: usize = match offset {
            Option::Some(o) => if o < 0 {
                0
            } else if (o as u64) > (usize::MAX as u64) {
                usize::MAX
            } else {
                o as usize
            },
            Option::None => 0,
        };
        let start: usize = if off_u <= sorted.len() {
            off_u
        } else {
            sorted.len()
        };
        let end: usize = if lim_u <= sorted.len() - start {
            start + lim_u
        } else {
            sorted.len()
        };
        let mut out: Vec<TaskRecord> = Vec::new();
        let mut k: usize = start;
        while k < end
            invariant
                start <= k <= end <= sorted@.len(),
                out@ =~= sorted@.subrange(start as int, k as int),
            decreases end - k,
        {
            out.push(sorted[k].duplicate());
            proof {
                assert(out@ =~= sorted@.subrange(start as int, k as int + 1));
            }
            k += 1;
        }
        proof {
            let lim = match limit {
                Option::Some(l) => if l < 0 {
                    0
                } else {
                    l as int
                },
                Option::None => 50int,
            };
            let off = match offset {
                Option::Some(o) => if o < 0 {
                    0
                } else {
                    o as int
                },
                Option::None => 0int,
            };
            assert(start as int == if off <= sorted@.len() {
                off
            } else {
                sorted@.len() as int
            });
            assert(end as int == if off + lim <= sorted@.len() {
                off + lim
            } else {
                sorted@.len() as int
            });
            assert(out@ == sorted@.subrange(
                if off <= sorted@.len() {
                    off
                } else {
                    sorted@.len() as int
                },
                if off + lim <= sorted@.len() {
                    off + lim
                } else {
                    sorted@.len() as int
                },
            ));
            assert(forall|i: int|
                0 <= i < out@.len() ==> (#[trigger] out@[i]) == sorted@[start + i]);
            assert(forall|i: int|
                0 <= i < out@.len() ==> self.tasks@.contains(#[trigger] out@[i])
                    && matches_filter(out@[i], status_filter));
        }
        out
    }

    /// List records as `list_all` does, with the parameters carried in one
    /// query value.
    pub fn list(&self, query: &ListTasksQuery) -> (r: Vec<TaskRecord>)
        requires
            self.wf(),
        ensures
            strictly_listed(r@),
            forall|i: int|
                0 <= i < r@.len() ==> self.tasks@.contains(#[trigger] r@[i]) && matches_filter(
                    r@[i],
                    query.status,
                ),
    {
        self.list_all(query.status, query.limit, query.offset)
    }
}

/// Updating replaces exactly the first slot holding the identifier.
proof fn lemma_update_at_index(s: Seq<TaskRecord>, id: i32, req: UpdateTaskRequest, now: u64, i: int)
    requires
        0 <= i < s.len(),
        s[i].id == id,
        forall|k: int| 0 <= k < i ==> s[k].id != id,
    ensures
        update_task_model(s, id, req, now) =~= s.update(i, apply_update_spec(s[i], req, now)),
    decreases s.len(),
{
    if i == 0 {
    } else {
        lemma_update_at_index(s.drop_first(), id, req, now, i - 1);
        assert(s.drop_first().update(i - 1, apply_update_spec(s[i], req, now)) =~= s.update(
            i,
            apply_update_spec(s[i], req, now),
        ).drop_first());
    }
}

/// Updating an absent identifier changes nothing.
proof fn lemma_update_absent(s: Seq<TaskRecord>, id: i32, req: UpdateTaskRequest, now: u64)
    requires
        forall|k: int| 0 <= k < s.len() ==> s[k].id != id,
    ensures
        update_task_model(s, id, req, now) =~= s,
    decreases s.len(),
{
    if s.len() == 0 {
    } else {
        assert(forall|k: int| 0 <= k < s.drop_first().len() ==> s.drop_first()[k].id != id);
        lemma_update_absent(s.drop_first(), id, req, now);
    }
}

/// Removal drops exactly the first slot holding the identifier.
proof fn lemma_remove_at_index(s: Seq<TaskRecord>, id: i32, i: int)
    requires
        0 <= i < s.len(),
        s[i].id == id,
        forall|k: int| 0 <= k < i ==> s[k].id != id,
    ensures
        remove_task_model(s, id) =~= s.remove(i),
    decreases s.len(),
{
    if i == 0 {
        assert(s.remove(0) =~= s.drop_first());
    } else {
        lemma_remove_at_index(s.drop_first(), id, i - 1);
        assert(s.drop_first().remove(i - 1) =~= s.remove(i).drop_first());
    }
}

/// Removing an absent identifier changes nothing.
proof fn lemma_remove_absent(s: Seq<TaskRecord>, id: i32)
    requires
        forall|k: int| 0 <= k < s.len() ==> s[k].id != id,
    ensures
        remove_task_model(s, id) =~= s,
    decreases s.len(),
{
    if s.len() == 0 {
    } else {
        assert(forall|k: int| 0 <= k < s.drop_first().len() ==> s.drop_first()[k].id != id);
        lemma_remove_absent(s.drop_first(), id);
    }
}

/// What `find_task` sees after an update: the updated record under the
/// updated identifier, and exactly what it saw before under any other.
pub proof fn lemma_find_after_update(
    s: Seq<TaskRecord>,
    id: i32,
    req: UpdateTaskRequest,
    now: u64,
    probe: i32,
)
    ensures
        probe == id ==> find_task(update_task_model(s, id, req, now), probe) == match find_task(
            s,
            id,
        ) {
            Option::Some(t) => Option::Some(apply_update_spec(t, req, now)),
            Option::None => Option::<TaskRecord>::None,
        },
        probe != id ==> find_task(update_task_model(s, id, req, now), probe) == find_task(s, probe),
    decreases s.len(),
{
    if s.len() == 0 {
    } else if s[0].id == id {
        let u = seq![apply_update_spec(s[0], req, now)] + s.drop_first();
        assert(u[0] == apply_update_spec(s[0], req, now));
        assert(u.drop_first() =~= s.drop_first());
        assert(u[0].id == id);
        if probe != id {
            lemma_find_after_update(s.drop_first(), id, req, now, probe);
            assert(find_task(u, probe) == find_task(s.drop_first(), probe));
        }
    } else {
        let u = seq![s[0]] + update_task_model(s.drop_first(), id, req, now);
        assert(u[0] == s[0]);
        assert(u.drop_first() =~= update_task_model(s.drop_first(), id, req, now));
        lemma_find_after_update(s.drop_first(), id, req, now, probe);
    }
}

/// Updating an identifier the store does not hold changes nothing.
pub proof fn lemma_update_when_absent(s: Seq<TaskRecord>, id: i32, req: UpdateTaskRequest, now: u64)
    requires
        find_task(s, id) is None,
    ensures
        update_task_model(s, id, req, now) == s,
    decreases s.len(),
{
    if s.len() == 0 {
        assert(update_task_model(s, id, req, now) =~= s);
    } else {
        lemma_update_when_absent(s.drop_first(), id, req, now);
        assert(seq![s[0]] + s.drop_first() =~= s);
    }
}

/// The first slot holding the identifier is the one `find_task` returns.
proof fn lemma_find_at_index(s: Seq<TaskRecord>, id: i32, i: int)
    requires
        0 <= i < s.len(),
        s[i].id == id,
        forall|k: int| 0 <= k < i ==> s[k].id != id,
    ensures
        find_task(s, id) == Option::Some(s[i]),
    decreases s.len(),
{
    if i == 0 {
    } else {
        lemma_find_at_index(s.drop_first(), id, i - 1);
    }
}

/// An absent identifier is not found.
proof fn lemma_find_absent(s: Seq<TaskRecord>, id: i32)
    requires
        forall|k: int| 0 <= k < s.len() ==> s[k].id != id,
    ensures
        find_task(s, id) is None,
    decreases s.len(),
{
    if s.len() == 0 {
    } else {
        assert(forall|k: int| 0 <= k < s.drop_first().len() ==> s.drop_first()[k].id != id);
        lemma_find_absent(s.drop_first(), id);
    }
}

} // verus!
