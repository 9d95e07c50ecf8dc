//! The laws the supervisor obeys across operations, proved from the
//! operations' contracts alone.

use vstd::prelude::*;
use crate::ai_service::{add_task_post, close_stream_post, delete_task_post, load_post,
    prompt_post, remove_model_post, set_default_model_post, spawn_llm_ok_post, spec_task_route,
    update_task_post, AIService, BuildReport, EngineBuild, PromptJob, TaskRoute};
use crate::error::AIServiceError;
use crate::ids::dec_digits;
use crate::kv::{assoc, lemma_assoc_mem, lemma_assoc_push, lemma_assoc_remove, Keyed, KvList};
use crate::llm::{task_map_retasked, task_map_with, task_map_without, LlmEngine};
use crate::types::{AITask, AITaskInput, Model, ModelType, StatusTextV};

verus! {

/// A mailbox sender kept from a worker of `id` with epoch `epoch` can still
/// deliver in state `s`.
pub open spec fn sender_open(s: AIService, id: Seq<char>, epoch: u64) -> bool {
    match assoc(s.llm_channel@, id) {
        Some(ch) => ch.epoch == epoch && ch.alive,
        None => false,
    }
}

/// After a task is created, the worker its model id resolves to exists and
/// is live, and a prompt dispatched on the task right away succeeds: it is
/// never refused for a missing task, a missing default, a missing worker, or
/// an unspawned task.
pub proof fn lemma_prompt_after_add_task(
    pre: AIService,
    post: AIService,
    input: AITaskInput,
    t: AITask,
    post2: AIService,
    prompt_text: String,
    pr: Result<PromptJob, AIServiceError>,
)
    requires
        pre.wf(),
        add_task_post(pre, post, input, Ok(t)),
        prompt_post(post, post2, t.task_id, prompt_text, pr),
    ensures
        spec_task_route(post, t.model_id) is To,
        pr is Ok,
{
    match spec_task_route(pre, input.model_id) {
        TaskRoute::To { rid, ch } => {
            lemma_assoc_push(pre.db.tasks@, post.db.tasks@.last(), t.task_id@);
            let stored = post.db.tasks@.last();
            assert(assoc(post.db.tasks@, t.task_id@) == Some(stored));
            assert(stored.model_id == t.model_id);
            match (assoc(pre.llm_channel@, rid@), assoc(post.llm_channel@, rid@)) {
                (Some(oldch), Some(newch)) => {
                    assert(newch.alive);
                    assert(newch.serves_task(t.task_id@));
                    assert(spec_task_route(post, t.model_id) == (TaskRoute::To {
                        rid: if t.model_id@ == "default"@ {
                            post.db.default_llm.unwrap()
                        } else {
                            t.model_id
                        },
                        ch: newch,
                    }));
                },
                _ => {
                    assert(false);
                },
            }
        },
        _ => {
            assert(false);
        },
    }
}

/// After the service loads, every language model that was persisted with a
/// backing has a status row with terminal flags: downloaded, and either
/// loaded or failed.
pub proof fn lemma_terminal_status_after_load(
    pre: AIService,
    post: AIService,
    builds: Seq<BuildReport>,
    r: Result<(), AIServiceError>,
    i: int,
)
    requires
        pre.wf(),
        load_post(pre, post, builds, r),
        0 <= i < pre.db.models@.len(),
        pre.db.models@[i].model_type == ModelType::Llm,
        pre.db.models@[i].local is Some || pre.db.models@[i].api is Some,
    ensures
        match assoc(post.db.statuses@, pre.db.models@[i].id@) {
            Some(row) => row@.downloaded && (row@.loaded
                || row@.status matches StatusTextV::FailedToBuildLlm { .. }),
            None => false,
        },
{
}

/// Removing a model and spawning a worker for the same id afterwards yields
/// a fresh worker: the mailbox sender held before the removal is closed from
/// the removal on, and stays closed under the new worker.
pub proof fn lemma_fresh_worker_after_remove(
    s0: AIService,
    s1: AIService,
    s2: AIService,
    model_id: String,
    model: Model,
    build: EngineBuild,
    e0: u64,
)
    requires
        s0.wf(),
        match assoc(s0.llm_channel@, model_id@) {
            Some(ch) => ch.epoch == e0,
            None => false,
        },
        match assoc(s0.db.models@, model_id@) {
            Some(m) => m.model_type == ModelType::Llm,
            None => false,
        },
        remove_model_post(s0, s1, model_id, Ok(())),
        spawn_llm_ok_post(s1, s2, model, build),
        model.id@ == model_id@,
    ensures
        match assoc(s2.llm_channel@, model_id@) {
            Some(ch) => ch.epoch != e0,
            None => false,
        },
        !sender_open(s1, model_id@, e0),
        !sender_open(s2, model_id@, e0),
{
    lemma_assoc_mem(s0.llm_channel@, model_id@);
}

/// After a model is nominated as the default, a successfully dispatched
/// prompt on any task stored with the sentinel model id is delivered to the
/// nominated worker.
pub proof fn lemma_default_rerouting(
    pre: AIService,
    post: AIService,
    x: String,
    post2: AIService,
    task_id: String,
    prompt_text: String,
    job: PromptJob,
)
    requires
        pre.wf(),
        set_default_model_post(pre, post, ModelType::Llm, x, Ok(())),
        prompt_post(post, post2, task_id, prompt_text, Ok(job)),
        match assoc(post.db.tasks@, task_id@) {
            Some(t) => t.model_id@ == "default"@,
            None => false,
        },
    ensures
        match job {
            PromptJob::Local { model_id, .. } => model_id@ == x@,
            PromptJob::Remote { model_id, .. } => model_id@ == x@,
        },
{
}

/// Closing a transcription stream twice is idempotent over the close: the
/// second close finds no stream and changes nothing.
pub proof fn lemma_close_stream_idempotent(
    s0: AIService,
    s1: AIService,
    s2: AIService,
    stream_id: String,
    r1: Result<(), AIServiceError>,
    r2: Result<(), AIServiceError>,
)
    requires
        assoc(s0.transcription_streams@, stream_id@) is Some,
        close_stream_post(s0, s1, stream_id, r1),
        close_stream_post(s1, s2, stream_id, r2),
    ensures
        r2 == Err::<(), AIServiceError>(AIServiceError::StreamNotFound),
        s2 == s1,
{
}

/// Two worker task lists agree on everything a prompt can observe, except
/// that the entry materialized last carries a different task id: same
/// length, same bodies position by position, and all but the last entry
/// identical.
pub open spec fn tasks_equiv_up_to_last_id(a: Seq<AITask>, b: Seq<AITask>) -> bool {
    &&& a.len() == b.len()
    &&& forall|k: int| 0 <= k < a.len() ==> (#[trigger] a[k])@.body() == b[k]@.body()
    &&& forall|k: int| 0 <= k < a.len() - 1 ==> (#[trigger] a[k])@ == b[k]@
}

/// Re-materializing a task in one step leaves a map equivalent, up to the
/// identity of the appended entry, to first dropping the binding and then
/// appending a fresh copy of the same content.
proof fn lemma_maps_equiv(
    t0map: KvList<AITask>,
    cu_map: KvList<AITask>,
    cd_map: KvList<AITask>,
    ca_map: KvList<AITask>,
    t: AITask,
    t2: AITask,
)
    requires
        t0map.wf(),
        task_map_retasked(t0map, cu_map, t),
        task_map_without(t0map, cd_map, t.task_id@),
        task_map_with(cd_map, ca_map, t2),
        !t0map.has(t2.task_id@),
        t2.task_id@ != t.task_id@,
        t@.body() == t2@.body(),
    ensures
        tasks_equiv_up_to_last_id(cu_map@, ca_map@),
{
    let tid = t.task_id@;
    let t2id = t2.task_id@;
    assert(assoc(cd_map@, t2id) == assoc(t0map@, t2id));
    assert(!cd_map.has(t2id));
    assert(ca_map@ == cd_map@.push(ca_map@.last()));
    let base: Seq<AITask>;
    if t0map.has(tid) {
        let iu = choose|i: int|
            0 <= i < t0map@.len() && t0map@[i].key_spec() == tid && cu_map@ == t0map@.remove(
                i,
            ).push(cu_map@.last());
        let id2 = choose|i: int|
            0 <= i < t0map@.len() && t0map@[i].key_spec() == tid && cd_map@ == t0map@.remove(i);
        assert(iu == id2);
        base = t0map@.remove(iu);
        lemma_assoc_remove(t0map@, iu, tid);
        assert(assoc(base, tid) is None);
    } else {
        base = t0map@;
        assert(cu_map@ == t0map@.push(cu_map@.last()));
        assert(cd_map == t0map);
        lemma_assoc_mem(t0map@, tid);
    }
    assert(cu_map@ == base.push(cu_map@.last()));
    assert(cd_map@ == base);
    assert(ca_map@ == base.push(ca_map@.last()));
    match cu_map.spec_get(tid) {
        Some(xu) => {
            lemma_assoc_push(base, cu_map@.last(), tid);
            assert(xu == cu_map@.last());
            assert(xu@ == t@);
        },
        None => {
            assert(false);
        },
    }
    match ca_map.spec_get(t2id) {
        Some(ya) => {
            lemma_assoc_push(base, ca_map@.last(), t2id);
            assert(ya == ca_map@.last());
            assert(ya@ == t2@);
        },
        None => {
            assert(false);
        },
    }
    assert forall|k: int| 0 <= k < cu_map@.len() implies (#[trigger] cu_map@[k])@.body()
        == ca_map@[k]@.body() by {
        if k < base.len() {
            assert(cu_map@[k] == base[k]);
            assert(ca_map@[k] == base[k]);
        } else {
            assert(cu_map@[k] == cu_map@.last());
            assert(ca_map@[k] == ca_map@.last());
        }
    }
    assert forall|k: int| 0 <= k < cu_map@.len() - 1 implies (#[trigger] cu_map@[k])@
        == ca_map@[k]@ by {
        assert(cu_map@[k] == base[k]);
        assert(ca_map@[k] == base[k]);
    }
}

/// Updating a stored task leaves its worker in the same observable state as
/// deleting it and adding it back with the same content: the same tasks are
/// materialized, and only the identity of the re-added entry differs. The
/// law asks that the update keep the task's model binding, and that the
/// store's next counter id not already be materialized in the worker —
/// which holds of every state the service builds, since worker entries come
/// from store rows whose ids were assigned earlier.
pub proof fn lemma_update_task_is_delete_add(
    s: AIService,
    t: AITask,
    su: AIService,
    u: AITask,
    sd: AIService,
    sa: AIService,
    input: AITaskInput,
    t2: AITask,
)
    requires
        s.wf(),
        update_task_post(s, su, t, Ok(u)),
        delete_task_post(s, sd, t.task_id, Ok(true)),
        add_task_post(sd, sa, input, Ok(t2)),
        input.spec_with_id(Seq::<char>::empty()) == t@.body(),
        match assoc(s.db.tasks@, t.task_id@) {
            Some(t0) => t0.model_id@ == t.model_id@,
            None => false,
        },
        match spec_task_route(s, t.model_id) {
            TaskRoute::To { rid, ch } => !ch.tasks.has(
                dec_digits(s.db.next_id as nat),
            ) && !ch.task_descriptions.has(dec_digits(s.db.next_id as nat)),
            _ => true,
        },
    ensures
        match spec_task_route(s, t.model_id) {
            TaskRoute::To { rid, ch } => match (
                assoc(su.llm_channel@, rid@),
                assoc(sa.llm_channel@, rid@),
            ) {
                (Some(cu), Some(ca)) => {
                    &&& cu.engine == ca.engine
                    &&& cu.alive == ca.alive
                    &&& cu.epoch == ca.epoch
                    &&& match ch.engine {
                        LlmEngine::Local => tasks_equiv_up_to_last_id(cu.tasks@, ca.tasks@)
                            && cu.task_descriptions@ == ca.task_descriptions@,
                        LlmEngine::Remote { .. } => tasks_equiv_up_to_last_id(
                            cu.task_descriptions@,
                            ca.task_descriptions@,
                        ) && cu.tasks@ == ca.tasks@,
                    }
                },
                _ => false,
            },
            _ => true,
        },
{
    let tid = t.task_id@;
    match assoc(s.db.tasks@, tid) {
        Some(t0) => {
            match spec_task_route(s, t.model_id) {
                TaskRoute::To { rid, ch } => {
                    // the routes of the three operations all land on `ch`
                    match spec_task_route(s, t0.model_id) {
                        TaskRoute::To { rid: rid0, ch: ch0 } => {
                            assert(rid0@ == rid@);
                            assert(ch0 == ch);
                        },
                        _ => {
                            assert(false);
                        },
                    }
                    assert(input.model_id@ == t.model_id@);
                    assert(sd.db.default_llm == s.db.default_llm);
                    assert(spec_task_route(sd, input.model_id) is To) by {
                        match spec_task_route(sd, input.model_id) {
                            TaskRoute::To { .. } => {},
                            _ => {
                                assert(false);
                            },
                        }
                    }
                    // the worker is well-formed, so removal indexes are unique
                    lemma_assoc_mem(s.llm_channel@, rid@);
                    let ci = choose|i: int|
                        0 <= i < s.llm_channel@.len() && s.llm_channel@[i] == ch
                            && ch.key_spec() == rid@;
                    assert(s.llm_channel@[ci].wf());
                    // the fresh id differs from the task's id
                    lemma_assoc_mem(s.db.tasks@, tid);
                    let j = choose|j: int|
                        0 <= j < s.db.tasks@.len() && s.db.tasks@[j] == t0 && t0.key_spec()
                            == tid;
                    assert(s.db.tasks@[j].key_spec() != dec_digits(s.db.next_id as nat));
                    assert(t2.task_id@ == dec_digits(sd.db.next_id as nat));
                    assert(sd.db.next_id == s.db.next_id);
                    assert(t2.task_id@ != tid);
                    // the re-added entry carries the same content
                    assert(t2@ == input.spec_with_id(t2.task_id@));
                    assert(t2@.body() == input.spec_with_id(Seq::<char>::empty()));
                    assert(t@.body() == t2@.body());
                    match (assoc(su.llm_channel@, rid@), assoc(sa.llm_channel@, rid@)) {
                        (Some(cu), Some(ca)) => {
                            let cd = match assoc(sd.llm_channel@, rid@) {
                                Some(c) => c,
                                None => ch,
                            };
                            assert(assoc(sd.llm_channel@, rid@) == Some(cd));
                            match ch.engine {
                                LlmEngine::Local => {
                                    assert(!ch.tasks.has(t2.task_id@));
                                    lemma_maps_equiv(
                                        ch.tasks,
                                        cu.tasks,
                                        cd.tasks,
                                        ca.tasks,
                                        t,
                                        t2,
                                    );
                                    assert(cu.task_descriptions@ == ca.task_descriptions@) by {
                                        lemma_without_same(
                                            ch.task_descriptions,
                                            cu.task_descriptions,
                                            cd.task_descriptions,
                                            tid,
                                        );
                                        assert(ca.task_descriptions == cd.task_descriptions);
                                    }
                                },
                                LlmEngine::Remote { .. } => {
                                    assert(!ch.task_descriptions.has(t2.task_id@));
                                    lemma_maps_equiv(
                                        ch.task_descriptions,
                                        cu.task_descriptions,
                                        cd.task_descriptions,
                                        ca.task_descriptions,
                                        t,
                                        t2,
                                    );
                                    assert(cu.tasks@ == ca.tasks@) by {
                                        lemma_without_same(ch.tasks, cu.tasks, cd.tasks, tid);
                                        assert(ca.tasks == cd.tasks);
                                    }
                                },
                            }
                        },
                        _ => {
                            assert(false);
                        },
                    }
                },
                _ => {},
            }
        },
        None => {
            assert(false);
        },
    }
}

/// Dropping the same binding from the same well-formed map twice gives maps
/// with the same entries.
proof fn lemma_without_same(
    t0map: KvList<AITask>,
    a: KvList<AITask>,
    b: KvList<AITask>,
    tid: Seq<char>,
)
    requires
        t0map.wf(),
        task_map_without(t0map, a, tid),
        task_map_without(t0map, b, tid),
    ensures
        a@ == b@,
{
    if t0map.has(tid) {
        let ia = choose|i: int|
            0 <= i < t0map@.len() && t0map@[i].key_spec() == tid && a@ == t0map@.remove(i);
        let ib = choose|i: int|
            0 <= i < t0map@.len() && t0map@[i].key_spec() == tid && b@ == t0map@.remove(i);
        assert(ia == ib);
    } else {
        lemma_assoc_mem(t0map@, tid);
    }
}

} // verus!
