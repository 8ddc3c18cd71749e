//! The ingestion pipeline: from a classified event to stored points and a
//! terminal task status.
//!
//! Planning is pure: decode the transport-encoded content, cut it into
//! chunks, and derive each chunk's content-addressed point. The outside
//! world then embeds and stores each chunk and reports one outcome per
//! chunk; finishing turns those outcomes into the task's terminal update.
//! A failed chunk never aborts the document, and however the outcomes fall,
//! the task ends `Completed` or `Failed` — never in a transient state.

use vstd::prelude::*;

use crate::chunk::{byte_len, chunk_text, first_line_of, join_lines, views_of};
use crate::encoding::{decode_content, decode_error_text, decoded_content_of, DecodeError};
use crate::event::{classify_event, classify_of, EventClass, EventDecision, IngestionEvent, TaskCreation};
use crate::index::{
    count_id, find_id, ids_distinct, lemma_reingestion_idempotent, lemma_upsert_other_ids,
    lemma_upsert_stores_point, upsert_model, VectorIndex,
};
use crate::point::{build_point, built_point, PointModel, VectorPoint};
use crate::store::{find_task, lemma_find_after_update, update_task_model, TaskStore};
use crate::task::{is_terminal, TaskStatus, UpdateTaskRequest};

verus! {

/// What one chunk's embed-and-store attempt came to.
pub enum ChunkOutcome {
    /// The chunk was embedded and its point stored.
    Stored,
    /// The embedding call failed with this message.
    EmbedFailed(String),
    /// The vector-store write failed with this message.
    StoreFailed(String),
}

/// The model of a chunk outcome.
pub enum OutcomeModel {
    Stored,
    EmbedFailed(Seq<char>),
    StoreFailed(Seq<char>),
}

impl View for ChunkOutcome {
    type V = OutcomeModel;

    open spec fn view(&self) -> OutcomeModel {
        match self {
            ChunkOutcome::Stored => OutcomeModel::Stored,
            ChunkOutcome::EmbedFailed(m) => OutcomeModel::EmbedFailed(m@),
            ChunkOutcome::StoreFailed(m) => OutcomeModel::StoreFailed(m@),
        }
    }
}

/// The models of a vector of outcomes.
pub open spec fn outcome_views(v: Seq<ChunkOutcome>) -> Seq<OutcomeModel> {
    v.map_values(|o: ChunkOutcome| o@)
}

/// How many outcomes are successes.
pub open spec fn count_stored(s: Seq<OutcomeModel>) -> nat
    decreases s.len(),
{
    if s.len() == 0 {
        0
    } else {
        (if s[0] is Stored {
            1nat
        } else {
            0nat
        }) + count_stored(s.drop_first())
    }
}

/// The failure messages among the outcomes, in order.
pub open spec fn failure_msgs(s: Seq<OutcomeModel>) -> Seq<Seq<char>>
    decreases s.len(),
{
    if s.len() == 0 {
        Seq::empty()
    } else {
        (match s[0] {
            OutcomeModel::Stored => Seq::<Seq<char>>::empty(),
            OutcomeModel::EmbedFailed(m) => seq![m],
            OutcomeModel::StoreFailed(m) => seq![m],
        }) + failure_msgs(s.drop_first())
    }
}

/// Messages joined with a semicolon separator.
pub open spec fn join_msgs(msgs: Seq<Seq<char>>) -> Seq<char>
    decreases msgs.len(),
{
    if msgs.len() == 0 {
        Seq::empty()
    } else if msgs.len() == 1 {
        msgs[0]
    } else {
        msgs[0] + "; "@ + join_msgs(msgs.drop_first())
    }
}

/// Appending an outcome extends the count and messages at the end.
proof fn lemma_outcome_push(s: Seq<OutcomeModel>, x: OutcomeModel)
    ensures
        count_stored(s.push(x)) == count_stored(s) + (if x is Stored {
            1nat
        } else {
            0nat
        }),
        failure_msgs(s.push(x)) == failure_msgs(s) + (match x {
            OutcomeModel::Stored => Seq::<Seq<char>>::empty(),
            OutcomeModel::EmbedFailed(m) => seq![m],
            OutcomeModel::StoreFailed(m) => seq![m],
        }),
    decreases s.len(),
{
    if s.len() == 0 {
        assert(s.push(x)[0] == x);
        assert(s.push(x).drop_first() =~= s);
        assert(failure_msgs(s) =~= Seq::<Seq<char>>::empty());
        assert(failure_msgs(s.push(x)) =~= failure_msgs(s) + (match x {
            OutcomeModel::Stored => Seq::<Seq<char>>::empty(),
            OutcomeModel::EmbedFailed(m) => seq![m],
            OutcomeModel::StoreFailed(m) => seq![m],
        }));
    } else {
        assert(s.push(x)[0] == s[0]);
        assert(s.push(x).drop_first() =~= s.drop_first().push(x));
        lemma_outcome_push(s.drop_first(), x);
        assert(failure_msgs(s.push(x)) =~= failure_msgs(s) + (match x {
            OutcomeModel::Stored => Seq::<Seq<char>>::empty(),
            OutcomeModel::EmbedFailed(m) => seq![m],
            OutcomeModel::StoreFailed(m) => seq![m],
        }));
    }
}

/// Appending a message to a join appends a separator and the message.
proof fn lemma_join_msgs_push(msgs: Seq<Seq<char>>, x: Seq<char>)
    ensures
        join_msgs(msgs.push(x)) == if msgs.len() == 0 {
            x
        } else {
            join_msgs(msgs) + "; "@ + x
        },
    decreases msgs.len(),
{
    if msgs.len() == 0 {
        assert(msgs.push(x).len() == 1);
        assert(msgs.push(x)[0] == x);
    } else if msgs.len() == 1 {
        assert(msgs.push(x)[0] == msgs[0]);
        assert(msgs.push(x).drop_first() =~= seq![x]);
        assert(join_msgs(seq![x]) == x);
    } else {
        assert(msgs.push(x).drop_first() =~= msgs.drop_first().push(x));
        lemma_join_msgs_push(msgs.drop_first(), x);
        assert(msgs.push(x)[0] == msgs[0]);
        assert(msgs[0] + "; "@ + (join_msgs(msgs.drop_first()) + "; "@ + x) =~= (msgs[0] + "; "@
            + join_msgs(msgs.drop_first())) + "; "@ + x);
    }
}

/// The embedding count persisted for a success count: the count itself,
/// saturated at the record field's maximum.
pub open spec fn saturated_count(n: nat) -> i32 {
    if n <= i32::MAX {
        n as i32
    } else {
        i32::MAX
    }
}

/// The terminal update for a task after all chunks were attempted.
pub struct TaskCompletion {
    pub status: TaskStatus,
    pub embedding_count: i32,
    pub error_message: Option<String>,
}

/// Decide a task's terminal state from its chunk outcomes.
///
/// The task completes when at least one chunk was stored, carrying the
/// number of stored chunks; with no success it fails, carrying the joined
/// failure messages. Either way the resulting status is terminal.
pub fn finish_ingestion(outcomes: &Vec<ChunkOutcome>) -> (r: TaskCompletion)
    ensures
        is_terminal(r.status),
        r.status == TaskStatus::Completed <==> count_stored(outcome_views(outcomes@)) > 0,
        r.status == TaskStatus::Failed <==> count_stored(outcome_views(outcomes@)) == 0,
        r.embedding_count == saturated_count(count_stored(outcome_views(outcomes@))),
        r.status == TaskStatus::Completed ==> r.error_message is None,
        r.status == TaskStatus::Failed ==> (r.error_message matches Option::Some(m) && m@
            == join_msgs(failure_msgs(outcome_views(outcomes@)))),
{
    let ghost models = outcome_views(outcomes@);
    let n = outcomes.len();
    let mut stored: usize = 0;
    let mut agg = String::new();
    let mut have_msg: bool = false;
    let mut k: usize = 0;
    proof {
        assert(models.take(0) =~= Seq::<OutcomeModel>::empty());
        assert(failure_msgs(models.take(0)) =~= Seq::<Seq<char>>::empty());
    }
    while k < n
        invariant
            k <= n == outcomes@.len(),
            models == outcome_views(outcomes@),
            stored <= k,
            stored == count_stored(models.take(k as int)),
            agg@ == join_msgs(failure_msgs(models.take(k as int))),
            have_msg == (failure_msgs(models.take(k as int)).len() > 0),
        decreases n - k,
    {
        proof {
            assert(models.take(k as int + 1) =~= models.take(k as int).push(models[k as int]));
            lemma_outcome_push(models.take(k as int), models[k as int]);
            assert(models[k as int] == outcomes@[k as int]@);
        }
        match &outcomes[k] {
            ChunkOutcome::Stored => {
                stored = stored + 1;
                proof {
                    assert(failure_msgs(models.take(k as int + 1)) =~= failure_msgs(
                        models.take(k as int),
                    ));
                }
            },
            ChunkOutcome::EmbedFailed(m) => {
                proof {
                    lemma_join_msgs_push(failure_msgs(models.take(k as int)), m@);
                    assert(failure_msgs(models.take(k as int + 1)) =~= failure_msgs(
                        models.take(k as int),
                    ).push(m@));
                }
                if have_msg {
                    agg.append("; ");
                }
                agg.append(m.as_str());
                have_msg = true;
            },
            ChunkOutcome::StoreFailed(m) => {
                proof {
                    lemma_join_msgs_push(failure_msgs(models.take(k as int)), m@);
                    assert(failure_msgs(models.take(k as int + 1)) =~= failure_msgs(
                        models.take(k as int),
                    ).push(m@));
                }
                if have_msg {
                    agg.append("; ");
                }
                agg.append(m.as_str());
                have_msg = true;
            },
        }
        k += 1;
    }
    proof {
        assert(models.take(n as int) =~= models);
    }
    let embedding_count: i32 = if stored <= i32::MAX as usize {
        stored as i32
    } else {
        i32::MAX
    };
    if stored > 0 {
        TaskCompletion {
            status: TaskStatus::Completed,
            embedding_count,
            error_message: Option::None,
        }
    } else {
        TaskCompletion {
            status: TaskStatus::Failed,
            embedding_count,
            error_message: Option::Some(agg),
        }
    }
}

/// One planned ingestion: the decoded chunks and the point each will be
/// stored under.
pub struct IngestionPlan {
    pub task_id: u64,
    pub file_name: String,
    pub chunks: Vec<String>,
    pub points: Vec<VectorPoint>,
}

/// The chunk sequence an ingestion derives from its decoded text: the whole
/// text as one chunk when no budget is given, and under a budget exactly the
/// greedy line-based chunking — content-preserving, within budget except for
/// single oversized lines, and maximal at every boundary.
pub open spec fn chunked_ok(text: Seq<char>, budget: Option<usize>, chunks: Seq<Seq<char>>) -> bool {
    &&& chunks.len() >= 1
    &&& budget is None ==> chunks == seq![text]
    &&& budget is Some ==> join_lines(chunks) == text
    &&& (budget matches Option::Some(b) ==> forall|i: int|
        0 <= i < chunks.len() ==> byte_len(#[trigger] chunks[i]) <= b || !chunks[i].contains(
            '\n',
        ))
    &&& (budget matches Option::Some(b) ==> forall|i: int|
        0 <= i < chunks.len() - 1 ==> byte_len(
            (#[trigger] chunks[i]) + seq!['\n'] + first_line_of(chunks[i + 1]),
        ) > b)
}

/// The points an ingestion derives for the given chunks.
pub open spec fn planned_points(task_id: u64, file_name: Seq<char>, chunks: Seq<Seq<char>>) -> Seq<
    PointModel,
> {
    Seq::new(
        chunks.len(),
        |i: int| built_point(task_id, file_name, i as nat, chunks.len() as nat, chunks[i]),
    )
}

/// Each planned point is the built point of its chunk.
pub open spec fn plan_points_built(plan: IngestionPlan) -> bool {
    &&& plan.points@.len() == plan.chunks@.len()
    &&& forall|i: int|
        0 <= i < plan.points@.len() ==> (#[trigger] plan.points@[i])@ == built_point(
            plan.task_id,
            plan.file_name@,
            i as nat,
            plan.chunks@.len() as nat,
            plan.chunks@[i]@,
        )
}

/// Plan one accepted task creation: decode the content, cut it into chunks
/// (one chunk when no budget is given), and derive each chunk's point.
///
/// Fails exactly when the content does not decode, with the decode error.
pub fn plan_ingestion(tc: &TaskCreation, budget: Option<usize>) -> (r: Result<
    IngestionPlan,
    DecodeError,
>)
    ensures
        r is Ok <==> decoded_content_of(tc.content_b64@) is Ok,
        r is Err ==> r->Err_0 == decoded_content_of(tc.content_b64@)->Err_0,
        r matches Result::Ok(plan) ==> {
            let text = decoded_content_of(tc.content_b64@)->Ok_0;
            &&& plan.task_id == tc.task_id
            &&& plan.file_name@ == tc.file_name@
            &&& chunked_ok(text, budget, views_of(plan.chunks@))
            &&& plan_points_built(plan)
            &&& point_views(plan.points@) == planned_points(
                tc.task_id,
                tc.file_name@,
                views_of(plan.chunks@),
            )
        },
{
    let text = match decode_content(tc.content_b64.as_str()) {
        Result::Ok(t) => t,
        Result::Err(e) => {
            return Result::Err(e);
        },
    };
    let chunks: Vec<String> = match budget {
        Option::None => {
            let mut v: Vec<String> = Vec::new();
            v.push(text);
            proof {
                assert(views_of(v@) =~= seq![decoded_content_of(tc.content_b64@)->Ok_0]);
            }
            v
        },
        Option::Some(b) => chunk_text(text.as_str(), b),
    };
    let total = chunks.len();
    let mut points: Vec<VectorPoint> = Vec::new();
    let mut i: usize = 0;
    while i < total
        invariant
            i <= total == chunks@.len(),
            points@.len() == i,
            forall|k: int|
                0 <= k < i ==> (#[trigger] points@[k])@ == built_point(
                    tc.task_id,
                    tc.file_name@,
                    k as nat,
                    total as nat,
                    chunks@[k]@,
                ),
        decreases total - i,
    {
        let p = build_point(
            tc.task_id,
            tc.file_name.as_str(),
            i as u64,
            total as u64,
            chunks[i].as_str(),
        );
        points.push(p);
        i += 1;
    }
    Result::Ok(IngestionPlan { task_id: tc.task_id, file_name: tc.file_name.clone(), chunks, points })
}

/// Whether the outside work on chunk `i` succeeded; outcomes past the end of
/// the report default to success.
pub open spec fn ok_at(oks: Seq<bool>, i: int) -> bool {
    if 0 <= i < oks.len() {
        oks[i]
    } else {
        true
    }
}

/// The index contents after attempting the points from position `k` on,
/// writing exactly those whose outcome succeeded.
pub open spec fn upsert_selected(
    s: Seq<PointModel>,
    ps: Seq<PointModel>,
    oks: Seq<bool>,
    k: int,
) -> Seq<PointModel>
    decreases ps.len() - k,
{
    if k >= ps.len() || k < 0 {
        s
    } else {
        let s2 = if ok_at(oks, k) {
            upsert_model(s, ps[k])
        } else {
            s
        };
        upsert_selected(s2, ps, oks, k + 1)
    }
}

/// How many of the first `n` positions succeeded.
pub open spec fn count_ok(oks: Seq<bool>, n: int) -> nat
    decreases n,
{
    if n <= 0 {
        0
    } else {
        count_ok(oks, n - 1) + (if ok_at(oks, n - 1) {
            1nat
        } else {
            0nat
        })
    }
}


/// The models of a vector of points.
pub open spec fn point_views(v: Seq<VectorPoint>) -> Seq<PointModel> {
    v.map_values(|p: VectorPoint| p@)
}

/// The terminal update request a completion is persisted through.
pub open spec fn completion_req(r: TaskCompletion) -> UpdateTaskRequest {
    UpdateTaskRequest {
        status: Option::Some(r.status),
        error_message: r.error_message,
        embedding_count: Option::Some(r.embedding_count),
    }
}

/// Attempt every planned point against the index and persist the terminal
/// task update.
///
/// The point of chunk `i` is written exactly when `embed_ok` reports chunk
/// `i` successful (missing entries default to success); a failed chunk is
/// skipped, never aborting the rest. The returned count is the number of
/// stored chunks, and the completion carries a terminal status either way.
pub fn apply_plan(
    store: &mut TaskStore,
    index: &mut VectorIndex,
    plan: &IngestionPlan,
    embed_ok: &Vec<bool>,
    now: u64,
) -> (r: (TaskCompletion, usize))
    requires
        old(store).wf(),
        old(index).wf(),
    ensures
        final(store).wf(),
        final(index).wf(),
        final(index)@ == upsert_selected(old(index)@, point_views(plan.points@), embed_ok@, 0),
        r.1 == count_ok(embed_ok@, plan.points@.len() as int),
        r.1 <= plan.points@.len(),
        is_terminal(r.0.status),
        r.0.status == TaskStatus::Completed <==> r.1 > 0,
        r.0.embedding_count == saturated_count(r.1 as nat),
        r.0.status == TaskStatus::Completed ==> r.0.error_message is None,
        r.0.status == TaskStatus::Failed ==> r.0.error_message is Some,
        plan.task_id <= i32::MAX ==> final(store).tasks@ == update_task_model(
            old(store).tasks@,
            plan.task_id as i32,
            completion_req(r.0),
            now,
        ) && final(store).next_id == old(store).next_id,
        plan.task_id > i32::MAX ==> final(store).tasks@ == old(store).tasks@
            && final(store).next_id == old(store).next_id,
{
    let ghost s0 = old(index)@;
    let ghost ps = point_views(plan.points@);
    let ghost oks = embed_ok@;
    let total = plan.points.len();
    let mut outcomes: Vec<ChunkOutcome> = Vec::new();
    let mut stored: usize = 0;
    let mut i: usize = 0;
    proof {
        assert(outcome_views(outcomes@) =~= Seq::<OutcomeModel>::empty());
    }
    while i < total
        invariant
            i <= total == plan.points@.len(),
            index.wf(),
            s0 == old(index)@,
            ps == point_views(plan.points@),
            oks == embed_ok@,
            upsert_selected(s0, ps, oks, 0) == upsert_selected(index@, ps, oks, i as int),
            outcomes@.len() == i,
            stored == count_ok(oks, i as int),
            count_stored(outcome_views(outcomes@)) == count_ok(oks, i as int),
            count_ok(oks, i as int) <= i,
            count_stored(outcome_views(outcomes@)) > 0 <==> count_ok(oks, i as int) > 0,
        decreases total - i,
    {
        let ok = if i < embed_ok.len() {
            embed_ok[i]
        } else {
            true
        };
        proof {
            assert(ok == ok_at(oks, i as int));
        }
        let ghost before = index@;
        let ghost prev = outcome_views(outcomes@);
        if ok {
            index.upsert(plan.points[i].duplicate());
            outcomes.push(ChunkOutcome::Stored);
            stored = stored + 1;
            proof {
                assert(index@ == upsert_model(before, ps[i as int]));
                assert(outcome_views(outcomes@) =~= prev.push(OutcomeModel::Stored));
                lemma_outcome_push(prev, OutcomeModel::Stored);
            }
        } else {
            let m = String::from_str("embedding failed");
            let ghost mm = m@;
            outcomes.push(ChunkOutcome::EmbedFailed(m));
            proof {
                assert(outcome_views(outcomes@) =~= prev.push(OutcomeModel::EmbedFailed(mm)));
                lemma_outcome_push(prev, OutcomeModel::EmbedFailed(mm));
            }
        }
        proof {
            assert(upsert_selected(index@, ps, oks, i as int + 1) == upsert_selected(
                before,
                ps,
                oks,
                i as int,
            ));
            assert(count_ok(oks, i as int + 1) == count_ok(oks, i as int) + (if ok_at(
                oks,
                i as int,
            ) {
                1nat
            } else {
                0nat
            }));
        }
        i += 1;
    }
    let completion = finish_ingestion(&outcomes);
    if plan.task_id <= (i32::MAX as u64) {
        let req = UpdateTaskRequest {
            status: Option::Some(completion.status),
            error_message: match &completion.error_message {
                Option::Some(m) => Option::Some(m.clone()),
                Option::None => Option::None,
            },
            embedding_count: Option::Some(completion.embedding_count),
        };
        proof {
            assert(req == completion_req(completion));
        }
        let _ = store.update(plan.task_id as i32, &req, now);
    }
    (completion, stored)
}


/// What one consumed event came to.
pub enum RunReport {
    /// The event was discarded for the given reason.
    Discarded(crate::event::DiscardReason),
    /// The payload content did not decode; the task was marked failed.
    DecodeFailed(DecodeError),
    /// The document was processed: how many of its chunks were stored.
    Ingested { succeeded: usize, total: usize },
}

/// Drive one event through the whole pipeline against the given store and
/// index, with `embed_ok` standing for the per-chunk outcomes of the outside
/// embed-and-store calls.
///
/// A malformed event is discarded without touching any record or point.
/// An accepted event marks its task `Processing`, and — whether its content
/// decodes or not, and however the chunk outcomes fall — leaves the task
/// terminal: `Completed` exactly when some chunk was stored, `Failed`
/// otherwise. Records of other tasks are never touched.
pub fn run_ingestion(
    store: &mut TaskStore,
    index: &mut VectorIndex,
    event: &IngestionEvent,
    budget: Option<usize>,
    embed_ok: &Vec<bool>,
    now: u64,
) -> (r: RunReport)
    requires
        old(store).wf(),
        old(index).wf(),
    ensures
        final(store).wf(),
        final(index).wf(),
        final(store).next_id == old(store).next_id,
        classify_of(event@) matches EventClass::Rejected(d) ==> r == RunReport::Discarded(d)
            && final(store).tasks@ == old(store).tasks@ && final(index)@ == old(index)@,
        classify_of(event@) matches EventClass::Accepted(tcm) ==> {
            &&& (tcm.task_id > i32::MAX || find_task(old(store).tasks@, tcm.task_id as i32)
                is None) ==> final(store).tasks@ == old(store).tasks@
            &&& decoded_content_of(tcm.content_b64) is Err ==> r == RunReport::DecodeFailed(
                decoded_content_of(tcm.content_b64)->Err_0,
            ) && final(index)@ == old(index)@
            &&& decoded_content_of(tcm.content_b64) is Ok ==> (match r {
                RunReport::Ingested { succeeded, total } => exists|chunks: Seq<Seq<char>>|
                    {
                        &&& #[trigger] chunked_ok(
                            decoded_content_of(tcm.content_b64)->Ok_0,
                            budget,
                            chunks,
                        )
                        &&& total == chunks.len()
                        &&& succeeded == count_ok(embed_ok@, total as int)
                        &&& succeeded <= total
                        &&& final(index)@ == upsert_selected(
                            old(index)@,
                            planned_points(tcm.task_id, tcm.file_name, chunks),
                            embed_ok@,
                            0,
                        )
                    },
                _ => false,
            })
            &&& tcm.task_id <= i32::MAX ==> forall|other: i32|
                other != tcm.task_id as i32 ==> #[trigger] find_task(
                    final(store).tasks@,
                    other,
                ) == find_task(old(store).tasks@, other)
            &&& tcm.task_id <= i32::MAX ==> (match find_task(
                old(store).tasks@,
                tcm.task_id as i32,
            ) {
                Option::None => true,
                Option::Some(t0) => {
                let tf_opt = find_task(final(store).tasks@, tcm.task_id as i32);
                &&& tf_opt is Some
                &&& {
                    let tf = tf_opt->0;
                    &&& tf.id == t0.id
                    &&& tf.file_name == t0.file_name
                    &&& tf.created_at == t0.created_at
                    &&& is_terminal(tf.status)
                    &&& tf.updated_at == now
                    &&& tf.started_at == (if t0.started_at is None {
                        Option::Some(now)
                    } else {
                        t0.started_at
                    })
                    &&& tf.completed_at == (if t0.completed_at is None {
                        Option::Some(now)
                    } else {
                        t0.completed_at
                    })
                    &&& decoded_content_of(tcm.content_b64) is Err ==> tf.status
                        == TaskStatus::Failed && tf.embedding_count == t0.embedding_count && (
                    tf.error_message matches Option::Some(m) && m@ == decode_error_text(
                        decoded_content_of(tcm.content_b64)->Err_0,
                    ))
                    &&& decoded_content_of(tcm.content_b64) is Ok ==> (match r {
                        RunReport::Ingested { succeeded, total } => {
                            &&& tf.status == (if succeeded > 0 {
                                TaskStatus::Completed
                            } else {
                                TaskStatus::Failed
                            })
                            &&& tf.embedding_count == Option::Some(
                                saturated_count(succeeded as nat),
                            )
                            &&& succeeded > 0 ==> tf.error_message == t0.error_message
                            &&& succeeded == 0 ==> tf.error_message is Some
                        },
                        _ => true,
                    })
                }
                },
            })
        },
{
    let decision = classify_event(event);
    let tc = match decision {
        EventDecision::Discard(d) => {
            return RunReport::Discarded(d);
        },
        EventDecision::Process(tc) => tc,
    };
    let ghost s0 = old(store).tasks@;
    let ghost t0_opt = if tc.task_id <= i32::MAX {
        find_task(s0, tc.task_id as i32)
    } else {
        Option::<crate::task::TaskRecord>::None
    };
    if tc.task_id <= (i32::MAX as u64) {
        let preq = UpdateTaskRequest {
            status: Option::Some(TaskStatus::Processing),
            error_message: Option::None,
            embedding_count: Option::None,
        };
        let _ = store.update(tc.task_id as i32, &preq, now);
        proof {
            lemma_find_after_update(s0, tc.task_id as i32, preq, now, tc.task_id as i32);
            if find_task(s0, tc.task_id as i32) is None {
                crate::store::lemma_update_when_absent(s0, tc.task_id as i32, preq, now);
            }
            assert forall|other: i32| other != tc.task_id as i32 implies find_task(
                store.tasks@,
                other,
            ) == find_task(s0, other) by {
                lemma_find_after_update(s0, tc.task_id as i32, preq, now, other);
            }
        }
    }
    let ghost s1 = store.tasks@;
    let plan = match plan_ingestion(&tc, budget) {
        Result::Ok(p) => p,
        Result::Err(e) => {
            if tc.task_id <= (i32::MAX as u64) {
                let freq = UpdateTaskRequest {
                    status: Option::Some(TaskStatus::Failed),
                    error_message: Option::Some(e.message()),
                    embedding_count: Option::None,
                };
                let _ = store.update(tc.task_id as i32, &freq, now);
                proof {
                    lemma_find_after_update(s1, tc.task_id as i32, freq, now, tc.task_id as i32);
                    if find_task(s1, tc.task_id as i32) is None {
                        crate::store::lemma_update_when_absent(s1, tc.task_id as i32, freq, now);
                    }
                    assert forall|other: i32| other != tc.task_id as i32 implies find_task(
                        store.tasks@,
                        other,
                    ) == find_task(s1, other) by {
                        lemma_find_after_update(s1, tc.task_id as i32, freq, now, other);
                    }
                }
            }
            return RunReport::DecodeFailed(e);
        },
    };
    let ghost index0 = old(index)@;
    let (completion, stored) = apply_plan(store, index, &plan, embed_ok, now);
    proof {
        if plan.task_id <= i32::MAX {
            lemma_find_after_update(
                s1,
                plan.task_id as i32,
                completion_req(completion),
                now,
                plan.task_id as i32,
            );
            if find_task(s1, plan.task_id as i32) is None {
                crate::store::lemma_update_when_absent(
                    s1,
                    plan.task_id as i32,
                    completion_req(completion),
                    now,
                );
            }
            assert forall|other: i32| other != tc.task_id as i32 implies find_task(
                store.tasks@,
                other,
            ) == find_task(s1, other) by {
                lemma_find_after_update(
                    s1,
                    plan.task_id as i32,
                    completion_req(completion),
                    now,
                    other,
                );
            }
        }
        let text = decoded_content_of(tc.content_b64@)->Ok_0;
        let w = views_of(plan.chunks@);
        assert(chunked_ok(text, budget, w));
        assert(index@ == upsert_selected(
            index0,
            planned_points(tc.task_id, tc.file_name@, w),
            embed_ok@,
            0,
        ));
    }
    let total = plan.chunks.len();
    RunReport::Ingested { succeeded: stored, total }
}

/// Writing only the points whose chunk succeeded touches nothing else: a
/// point already stored under an identifier none of the attempts carries
/// stays exactly as it was.
proof fn lemma_upsert_selected_untouched(
    s: Seq<PointModel>,
    ps: Seq<PointModel>,
    oks: Seq<bool>,
    k: int,
    id: Seq<char>,
)
    requires
        forall|j: int| k <= j < ps.len() ==> (#[trigger] ps[j]).id != id,
    ensures
        find_id(upsert_selected(s, ps, oks, k), id) == find_id(s, id),
        count_id(upsert_selected(s, ps, oks, k), id) == count_id(s, id),
    decreases ps.len() - k,
{
    if k >= ps.len() || k < 0 {
    } else {
        let s2 = if ok_at(oks, k) {
            upsert_model(s, ps[k])
        } else {
            s
        };
        if ok_at(oks, k) {
            lemma_upsert_other_ids(s, ps[k], id);
        }
        lemma_upsert_selected_untouched(s2, ps, oks, k + 1, id);
    }
}

/// Identifier uniqueness survives any selection of writes.
proof fn lemma_upsert_selected_distinct(
    s: Seq<PointModel>,
    ps: Seq<PointModel>,
    oks: Seq<bool>,
    k: int,
)
    requires
        ids_distinct(s),
    ensures
        ids_distinct(upsert_selected(s, ps, oks, k)),
    decreases ps.len() - k,
{
    if k >= ps.len() || k < 0 {
    } else {
        let s2 = if ok_at(oks, k) {
            upsert_model(s, ps[k])
        } else {
            s
        };
        if ok_at(oks, k) {
            lemma_upsert_stores_point(s, ps[k]);
        }
        lemma_upsert_selected_distinct(s2, ps, oks, k + 1);
    }
}

/// What position `i`'s attempt leaves under its identifier, when the
/// attempted identifiers are pairwise distinct: its point exactly when it
/// succeeded, and exactly what was there before when it failed.
proof fn lemma_upsert_selected_point(
    s: Seq<PointModel>,
    ps: Seq<PointModel>,
    oks: Seq<bool>,
    k: int,
    i: int,
)
    requires
        ids_distinct(s),
        forall|a: int, b: int| 0 <= a < b < ps.len() ==> ps[a].id != ps[b].id,
        0 <= k <= i < ps.len(),
    ensures
        ok_at(oks, i) ==> find_id(upsert_selected(s, ps, oks, k), ps[i].id) == Option::Some(
            ps[i],
        ),
        !ok_at(oks, i) ==> count_id(upsert_selected(s, ps, oks, k), ps[i].id) == count_id(
            s,
            ps[i].id,
        ),
    decreases ps.len() - k,
{
    {
        let s2 = if ok_at(oks, k) {
            upsert_model(s, ps[k])
        } else {
            s
        };
        if ok_at(oks, k) {
            lemma_upsert_stores_point(s, ps[k]);
        }
        if k == i {
            assert(forall|j: int| k + 1 <= j < ps.len() ==> (#[trigger] ps[j]).id != ps[i].id);
            lemma_upsert_selected_untouched(s2, ps, oks, k + 1, ps[i].id);
        } else {
            if ok_at(oks, k) {
                lemma_upsert_other_ids(s, ps[k], ps[i].id);
            }
            lemma_upsert_selected_point(s2, ps, oks, k + 1, i);
        }
    }
}

/// Partial failures are isolated: with pairwise-distinct point identifiers,
/// every chunk whose embed-and-store succeeded has its point stored, and a
/// failed chunk adds nothing under its identifier — other chunks' successes
/// and failures never interfere.
pub proof fn lemma_partial_failure_isolation(s: Seq<PointModel>, ps: Seq<PointModel>, oks: Seq<bool>)
    requires
        ids_distinct(s),
        forall|a: int, b: int| 0 <= a < b < ps.len() ==> ps[a].id != ps[b].id,
    ensures
        ids_distinct(upsert_selected(s, ps, oks, 0)),
        forall|i: int|
            0 <= i < ps.len() && ok_at(oks, i) ==> find_id(
                upsert_selected(s, ps, oks, 0),
                (#[trigger] ps[i]).id,
            ) == Option::Some(ps[i]),
        forall|i: int|
            0 <= i < ps.len() && !ok_at(oks, i) ==> count_id(
                upsert_selected(s, ps, oks, 0),
                (#[trigger] ps[i]).id,
            ) == count_id(s, ps[i].id),
{
    lemma_upsert_selected_distinct(s, ps, oks, 0);
    assert forall|i: int| 0 <= i < ps.len() && ok_at(oks, i) implies find_id(
        upsert_selected(s, ps, oks, 0),
        (#[trigger] ps[i]).id,
    ) == Option::Some(ps[i]) by {
        lemma_upsert_selected_point(s, ps, oks, 0, i);
    }
    assert forall|i: int| 0 <= i < ps.len() && !ok_at(oks, i) implies count_id(
        upsert_selected(s, ps, oks, 0),
        (#[trigger] ps[i]).id,
    ) == count_id(s, ps[i].id) by {
        lemma_upsert_selected_point(s, ps, oks, 0, i);
    }
}

/// Re-ingesting a document under the same file name is idempotent: both
/// single-chunk ingestions derive the same point identifier, so after the
/// second upsert exactly one point carries it, holding the later content —
/// whatever tasks requested the two ingestions.
pub proof fn lemma_reingestion_same_file(
    s: Seq<PointModel>,
    task1: u64,
    task2: u64,
    file_name: Seq<char>,
    content1: Seq<char>,
    content2: Seq<char>,
)
    requires
        ids_distinct(s),
    ensures
        built_point(task1, file_name, 0, 1, content1).id == built_point(
            task2,
            file_name,
            0,
            1,
            content2,
        ).id,
        ({
            let p1 = built_point(task1, file_name, 0, 1, content1);
            let p2 = built_point(task2, file_name, 0, 1, content2);
            let twice = upsert_model(upsert_model(s, p1), p2);
            &&& count_id(twice, p2.id) == 1
            &&& find_id(twice, p2.id) == Option::Some(p2)
            &&& twice.len() == upsert_model(s, p1).len()
        }),
{
    let p1 = built_point(task1, file_name, 0, 1, content1);
    let p2 = built_point(task2, file_name, 0, 1, content2);
    lemma_reingestion_idempotent(s, p1, p2);
}

} // verus!
