//! The model worker supervisor. Each public operation mirrors one step of
//! the service: the outside world enters through reported outcomes (engine
//! builds, inference replies), and every operation's contract states
//! exactly how the store, the worker tables, and the published status log
//! move.

use vstd::prelude::*;
use vstd::string::StringExecFns;
use crate::db::Ad4mDb;
use crate::ids::dec_digits;
use crate::error::AIServiceError;
use crate::kv::{assoc, Keyed, KvList};
use crate::llm::{channel_with_task, channel_without_task, normalize_base_url,
    resolve_llama_source, spec_normalize_base_url, spec_resolve_llama_source, LlmChannel,
    LlmEngine};
use crate::types::{AIModelLoadingStatus, AIModelLoadingStatusV, AITask, AITaskInput, LocalModel,
    Model, ModelInput, ModelType, StatusText, StatusTextV};

verus! {

/// What the outside construction of an inference engine reported.
#[derive(Debug)]
pub enum EngineBuild {
    Success,
    Failure { message: String },
}

/// The mathematical content of an engine build report.
pub ghost enum EngineBuildV {
    Success,
    Failure { message: Seq<char> },
}

impl View for EngineBuild {
    type V = EngineBuildV;

    open spec fn view(&self) -> EngineBuildV {
        match self {
            EngineBuild::Success => EngineBuildV::Success,
            EngineBuild::Failure { message } => EngineBuildV::Failure { message: message@ },
        }
    }
}

impl EngineBuild {
    /// An equal copy.
    pub fn duplicate(&self) -> (r: Self)
        ensures
            r == *self,
    {
        match self {
            EngineBuild::Success => EngineBuild::Success,
            EngineBuild::Failure { message } => EngineBuild::Failure {
                message: message.clone(),
            },
        }
    }
}

/// What the outside construction of one model's engine reported, keyed by
/// the model's id. A model with no report is taken to have built.
#[derive(Debug)]
pub struct BuildReport {
    pub model_id: String,
    pub build: EngineBuild,
}

impl Keyed for BuildReport {
    open spec fn key_spec(&self) -> Seq<char> {
        self.model_id@
    }

    fn key(&self) -> (r: &String) {
        &self.model_id
    }
}

/// The reported build outcome for `id`: success where no report names it.
pub open spec fn spec_build_for(reports: Seq<BuildReport>, id: Seq<char>) -> EngineBuild {
    match assoc(reports, id) {
        Some(rep) => rep.build,
        None => EngineBuild::Success,
    }
}

/// Looks up the reported build outcome for `id`.
pub fn build_for(builds: &KvList<BuildReport>, id: &String) -> (r: EngineBuild)
    ensures
        r == spec_build_for(builds@, id@),
{
    match builds.get(id) {
        Some(rep) => rep.build.duplicate(),
        None => EngineBuild::Success,
    }
}

/// The modeled state of one embedding worker and its mailbox. Embedding
/// mailboxes are keyed by the model's name, not its id.
#[derive(Debug)]
pub struct EmbeddingChannel {
    pub name: String,
    /// Distinguishes successive workers spawned for the same name.
    pub epoch: u64,
    /// False once the worker has exited or failed: sends then fail.
    pub alive: bool,
}

impl Keyed for EmbeddingChannel {
    open spec fn key_spec(&self) -> Seq<char> {
        self.name@
    }

    fn key(&self) -> (r: &String) {
        &self.name
    }
}

/// A live transcription pipeline, identified by its stream id.
#[derive(Debug)]
pub struct TranscriptionSession {
    pub stream_id: String,
    /// False once the transcriber worker has died: feeding then fails, and
    /// closing reports the crash.
    pub alive: bool,
    /// How many sample chunks were accepted so far.
    pub fed_chunks: u64,
}

impl Keyed for TranscriptionSession {
    open spec fn key_spec(&self) -> Seq<char> {
        self.stream_id@
    }

    fn key(&self) -> (r: &String) {
        &self.stream_id
    }
}

/// One payload published on the transcription topic.
#[derive(Debug)]
pub struct TranscriptionText {
    pub stream_id: String,
    pub text: String,
}

/// The model id a dispatch on `mid` is routed to: the sentinel `default`
/// resolves to the nominated default language model, every other id to
/// itself.
pub open spec fn spec_resolved_model_id(s: AIService, mid: String) -> Option<String> {
    if mid@ == "default"@ {
        s.db.default_llm
    } else {
        Some(mid)
    }
}

/// A status event with the given fields.
pub open spec fn evv(
    model: Seq<char>,
    progress: u8,
    status: StatusTextV,
    downloaded: bool,
    loaded: bool,
) -> AIModelLoadingStatusV {
    AIModelLoadingStatusV {
        model: model,
        progress: progress,
        status: status,
        downloaded: downloaded,
        loaded: loaded,
    }
}

/// The message reported when a stream's drop signal cannot be delivered.
pub open spec fn spec_session_crashed_message(stream_id: Seq<char>) -> Seq<char> {
    "Failed to close stream "@ + stream_id + ": Whisper thread may have crashed"@
}

/// How `post` relates to `pre` after closing a transcription stream: an
/// unknown stream is reported and nothing changes; otherwise the session is
/// dropped either way, and a dead worker turns the close into a crash
/// report.
pub open spec fn close_stream_post(
    pre: AIService,
    post: AIService,
    stream_id: String,
    r: Result<(), AIServiceError>,
) -> bool {
    match assoc(pre.transcription_streams@, stream_id@) {
        None => r == Err::<(), _>(AIServiceError::StreamNotFound) && post == pre,
        Some(s) => {
            &&& assoc(post.transcription_streams@, stream_id@) is None
            &&& forall|k: Seq<char>|
                k != stream_id@ ==> assoc(post.transcription_streams@, k) == assoc(
                    pre.transcription_streams@,
                    k,
                )
            &&& (s.alive ==> r is Ok)
            &&& (!s.alive ==> match r {
                Err(AIServiceError::SessionCrashed { message }) => message@
                    == spec_session_crashed_message(stream_id@),
                _ => false,
            })
            &&& post.db == pre.db
            &&& post.llm_channel == pre.llm_channel
            &&& post.embedding_channel == pre.embedding_channel
            &&& post.published == pre.published
            &&& post.transcripts == pre.transcripts
            &&& post.next_epoch == pre.next_epoch
        },
    }
}

/// Relies on `uuid::Uuid::new_v4` and its hyphenated `Display` rendering: a
/// fresh random identifier printed as thirty-six characters.
#[verifier::external_body]
fn new_stream_id() -> (r: String)
    ensures
        r@.len() == 36,
{
    uuid::Uuid::new_v4().to_string()
}

/// The message reported for a model definition with no backing.
pub open spec fn spec_no_body_message(name: Seq<char>) -> Seq<char> {
    "AI model definition "@ + name + " doesn't have a body, nothing to spawn!"@
}

/// The message reported for a local model whose weights cannot be located.
pub open spec fn spec_unknown_source_message(file_name: Seq<char>, model_id: Seq<char>)
    -> Seq<char> {
    "Unknown model string: "@ + file_name
        + " and no Huggingface repo provided. Don't know where to get model weights from for: "@
        + model_id
}

/// The status events a language-model worker publishes while it spawns,
/// oldest first.
pub open spec fn spec_spawn_llm_events(model: Model, build: EngineBuild) -> Seq<
    AIModelLoadingStatusV,
> {
    let id = model.id@;
    let head = seq![evv(id, 100, StatusTextV::SpawningModelThread, true, false)];
    match model.local {
        Some(local) => {
            let loading = head.push(evv(id, 0, StatusTextV::Loading, false, false));
            if spec_resolve_llama_source(local@) is None {
                loading.push(
                    evv(
                        id,
                        100,
                        StatusTextV::FailedToBuildLlm {
                            message: spec_unknown_source_message(local.file_name@, id),
                        },
                        true,
                        false,
                    ),
                )
            } else {
                match build {
                    EngineBuild::Success => loading.push(
                        evv(id, 100, StatusTextV::Downloaded, true, false),
                    ).push(evv(id, 100, StatusTextV::Ready, true, true)),
                    EngineBuild::Failure { message } => loading.push(
                        evv(
                            id,
                            100,
                            StatusTextV::FailedToBuildLlm { message: message@ },
                            true,
                            false,
                        ),
                    ),
                }
            }
        },
        None => head.push(evv(id, 0, StatusTextV::Initializing, false, false)).push(
            evv(id, 100, StatusTextV::Initializing, true, false),
        ).push(evv(id, 100, StatusTextV::Ready, true, true)),
    }
}

/// Whether the spawned worker ends up serving requests.
pub open spec fn spec_spawn_llm_alive(model: Model, build: EngineBuild) -> bool {
    match model.local {
        Some(local) => spec_resolve_llama_source(local@) is Some && build is Success,
        None => true,
    }
}

/// How `post` relates to `pre` after a language-model worker spawn that was
/// not refused: a fresh mailbox for the model's id (live exactly when the
/// weights resolved and the build succeeded), the spawn statuses published
/// and mirrored, and everything else untouched.
pub open spec fn spawn_llm_ok_post(
    pre: AIService,
    post: AIService,
    model: Model,
    build: EngineBuild,
) -> bool {
    &&& (model.local is Some || model.api is Some)
    &&& post.next_epoch == pre.next_epoch + 1
    &&& match post.llm_channel.spec_get(model.id@) {
        Some(ch) => {
            &&& ch.model_id == model.id
            &&& ch.epoch == pre.next_epoch
            &&& ch.alive == spec_spawn_llm_alive(model, build)
            &&& ch.tasks@.len() == 0
            &&& ch.task_descriptions@.len() == 0
            &&& match model.local {
                Some(_) => ch.engine is Local,
                None => match model.api {
                    Some(api) => {
                        &&& ch.engine matches LlmEngine::Remote { remote_model, base_url, api_key }
                        &&& (ch.engine matches LlmEngine::Remote {
                            remote_model,
                            base_url,
                            api_key,
                        } ==> remote_model == api.model && api_key == api.api_key && base_url@
                            == spec_normalize_base_url(api.base_url@))
                    },
                    None => false,
                },
            }
        },
        None => false,
    }
    &&& forall|k: Seq<char>|
        k != model.id@ ==> assoc(post.llm_channel@, k) == assoc(pre.llm_channel@, k)
    &&& post.published.deep_view() == pre.published.deep_view() + spec_spawn_llm_events(
        model,
        build,
    )
    &&& post.published@.len() >= pre.published@.len()
    &&& post.published@.take(pre.published@.len() as int) == pre.published@
    &&& match post.db.statuses.spec_get(model.id@) {
        Some(row) => row@ == spec_spawn_llm_events(model, build).last(),
        None => false,
    }
    &&& forall|k: Seq<char>|
        k != model.id@ ==> assoc(post.db.statuses@, k) == assoc(pre.db.statuses@, k)
    &&& post.db.models == pre.db.models
    &&& post.db.tasks == pre.db.tasks
    &&& post.db.default_llm == pre.db.default_llm
    &&& post.db.next_id == pre.db.next_id
    &&& post.embedding_channel == pre.embedding_channel
    &&& post.transcription_streams == pre.transcription_streams
    &&& post.transcripts == pre.transcripts
}

/// The loading statuses an embedding or transcription model's load
/// publishes, oldest first. They are the same whether or not the build
/// succeeds: the worker reports itself loaded before it inspects the
/// build's outcome.
pub open spec fn spec_loading_events(id: Seq<char>) -> Seq<AIModelLoadingStatusV> {
    seq![
        evv(id, 0, StatusTextV::Loading, false, false),
        evv(id, 100, StatusTextV::Loaded, true, false),
    ]
}

/// How `post` relates to `pre` after an embedding worker spawn: a fresh
/// mailbox keyed by the model's name, live exactly when the build succeeded,
/// the loading statuses published and mirrored, and everything else
/// untouched.
pub open spec fn spawn_embedding_post(
    pre: AIService,
    post: AIService,
    model: Model,
    build: EngineBuild,
) -> bool {
    &&& post.next_epoch == pre.next_epoch + 1
    &&& match post.embedding_channel.spec_get(model.name@) {
        Some(ch) => ch.name == model.name && ch.epoch == pre.next_epoch && ch.alive == (
        build is Success),
        None => false,
    }
    &&& forall|k: Seq<char>|
        k != model.name@ ==> assoc(post.embedding_channel@, k) == assoc(pre.embedding_channel@, k)
    &&& post.published.deep_view() == pre.published.deep_view() + spec_loading_events(model.id@)
    &&& post.published@.len() >= pre.published@.len()
    &&& post.published@.take(pre.published@.len() as int) == pre.published@
    &&& match post.db.statuses.spec_get(model.id@) {
        Some(row) => row@ == spec_loading_events(model.id@).last(),
        None => false,
    }
    &&& forall|k: Seq<char>|
        k != model.id@ ==> assoc(post.db.statuses@, k) == assoc(pre.db.statuses@, k)
    &&& post.db.models == pre.db.models
    &&& post.db.tasks == pre.db.tasks
    &&& post.db.default_llm == pre.db.default_llm
    &&& post.db.next_id == pre.db.next_id
    &&& post.llm_channel == pre.llm_channel
    &&& post.transcription_streams == pre.transcription_streams
    &&& post.transcripts == pre.transcripts
}

/// How `post` relates to `pre` after a transcriber model load: the loading
/// statuses published and mirrored, and nothing else changed. The build's
/// outcome is not inspected, so no worker table changes either.
pub open spec fn load_transcriber_post(pre: AIService, post: AIService, model: Model) -> bool {
    &&& post.published.deep_view() == pre.published.deep_view() + spec_loading_events(model.id@)
    &&& post.published@.len() >= pre.published@.len()
    &&& post.published@.take(pre.published@.len() as int) == pre.published@
    &&& match post.db.statuses.spec_get(model.id@) {
        Some(row) => row@ == spec_loading_events(model.id@).last(),
        None => false,
    }
    &&& forall|k: Seq<char>|
        k != model.id@ ==> assoc(post.db.statuses@, k) == assoc(pre.db.statuses@, k)
    &&& post.db.models == pre.db.models
    &&& post.db.tasks == pre.db.tasks
    &&& post.db.default_llm == pre.db.default_llm
    &&& post.db.next_id == pre.db.next_id
    &&& post.llm_channel == pre.llm_channel
    &&& post.embedding_channel == pre.embedding_channel
    &&& post.transcription_streams == pre.transcription_streams
    &&& post.transcripts == pre.transcripts
    &&& post.next_epoch == pre.next_epoch
}

/// Where a dispatch on model id `mid` lands: no nominated default, a missing
/// or dead mailbox, or a live worker.
pub ghost enum TaskRoute {
    NoDefault,
    Unavailable,
    To { rid: String, ch: LlmChannel },
}

/// Routes a dispatch on model id `mid` through the sentinel resolution and
/// the worker table.
pub open spec fn spec_task_route(s: AIService, mid: String) -> TaskRoute {
    match spec_resolved_model_id(s, mid) {
        None => TaskRoute::NoDefault,
        Some(rid) => match assoc(s.llm_channel@, rid@) {
            None => TaskRoute::Unavailable,
            Some(ch) => if ch.alive {
                TaskRoute::To { rid, ch }
            } else {
                TaskRoute::Unavailable
            },
        },
    }
}

/// The status events a local worker publishes while it materializes a task.
pub open spec fn spec_spawn_task_events(rid: Seq<char>) -> Seq<AIModelLoadingStatusV> {
    seq![
        evv(rid, 100, StatusTextV::SpawningTask, true, true),
        evv(rid, 100, StatusTextV::Ready, true, true),
    ]
}

/// How `post` relates to `pre` after the worker of `rid` materialized a copy
/// of `task`: the worker's maps gained the task, a local worker published its
/// task-spawning statuses, and everything outside that worker is untouched
/// (the store's task table is governed by the caller).
pub open spec fn worker_task_spawned(
    pre: AIService,
    post: AIService,
    rid: String,
    task: AITask,
) -> bool {
    &&& match (assoc(pre.llm_channel@, rid@), assoc(post.llm_channel@, rid@)) {
        (Some(oldch), Some(newch)) => {
            &&& channel_with_task(oldch, newch, task)
            &&& match oldch.engine {
                LlmEngine::Local => {
                    &&& post.published.deep_view() == pre.published.deep_view()
                        + spec_spawn_task_events(rid@)
                    &&& match post.db.statuses.spec_get(rid@) {
                        Some(row) => row@ == evv(rid@, 100, StatusTextV::Ready, true, true),
                        None => false,
                    }
                    &&& forall|k: Seq<char>|
                        k != rid@ ==> assoc(post.db.statuses@, k) == assoc(pre.db.statuses@, k)
                },
                LlmEngine::Remote { .. } => post.published == pre.published && post.db.statuses
                    == pre.db.statuses,
            }
        },
        _ => false,
    }
    &&& forall|k: Seq<char>| k != rid@ ==> assoc(post.llm_channel@, k) == assoc(pre.llm_channel@, k)
    &&& post.published@.len() >= pre.published@.len()
    &&& post.published@.take(pre.published@.len() as int) == pre.published@
    &&& post.embedding_channel == pre.embedding_channel
    &&& post.transcription_streams == pre.transcription_streams
    &&& post.transcripts == pre.transcripts
    &&& post.next_epoch == pre.next_epoch
}

/// How `post` relates to `pre` after the worker of `rid` dropped every trace
/// of `task_id`: nothing is published and nothing else changes.
pub open spec fn worker_task_unspawned(
    pre: AIService,
    post: AIService,
    rid: String,
    tid: Seq<char>,
) -> bool {
    &&& match (assoc(pre.llm_channel@, rid@), assoc(post.llm_channel@, rid@)) {
        (Some(oldch), Some(newch)) => channel_without_task(oldch, newch, tid),
        _ => false,
    }
    &&& forall|k: Seq<char>| k != rid@ ==> assoc(post.llm_channel@, k) == assoc(pre.llm_channel@, k)
    &&& post.published == pre.published
    &&& post.db == pre.db
    &&& post.embedding_channel == pre.embedding_channel
    &&& post.transcription_streams == pre.transcription_streams
    &&& post.transcripts == pre.transcripts
    &&& post.next_epoch == pre.next_epoch
}

/// How `post` relates to `pre` after dispatching a task spawn.
pub open spec fn spawn_task_post(
    pre: AIService,
    post: AIService,
    task: AITask,
    r: Result<(), AIServiceError>,
) -> bool {
    match spec_task_route(pre, task.model_id) {
        TaskRoute::NoDefault => r == Err::<(), _>(AIServiceError::NoDefaultModel) && post == pre,
        TaskRoute::Unavailable => r == Err::<(), _>(AIServiceError::ModelUnavailable) && post
            == pre,
        TaskRoute::To { rid, ch } => {
            &&& r is Ok
            &&& worker_task_spawned(pre, post, rid, task)
            &&& post.db.models == pre.db.models
            &&& post.db.tasks == pre.db.tasks
            &&& post.db.default_llm == pre.db.default_llm
            &&& post.db.next_id == pre.db.next_id
        },
    }
}

/// How `post` relates to `pre` after removing a task from its worker: the
/// store's task table itself is untouched, only the worker forgets the task.
pub open spec fn remove_task_post(
    pre: AIService,
    post: AIService,
    task_id: String,
    r: Result<(), AIServiceError>,
) -> bool {
    match assoc(pre.db.tasks@, task_id@) {
        None => r == Err::<(), _>(AIServiceError::TaskNotFound) && post == pre,
        Some(t) => match spec_task_route(pre, t.model_id) {
            TaskRoute::NoDefault => r == Err::<(), _>(AIServiceError::NoDefaultModel) && post
                == pre,
            TaskRoute::Unavailable => r == Err::<(), _>(AIServiceError::ModelUnavailable) && post
                == pre,
            TaskRoute::To { rid, ch } => r is Ok && worker_task_unspawned(pre, post, rid, task_id@),
        },
    }
}

/// How `post` relates to `pre` after creating a task: the task is persisted
/// under a fresh id whatever happens; materializing it can still fail on
/// routing, and the error then reaches the caller.
pub open spec fn add_task_post(
    pre: AIService,
    post: AIService,
    input: AITaskInput,
    r: Result<AITask, AIServiceError>,
) -> bool {
    &&& post.db.next_id == pre.db.next_id + 1
    &&& post.db.tasks@.len() == pre.db.tasks@.len() + 1
    &&& post.db.tasks@ == pre.db.tasks@.push(post.db.tasks@.last())
    &&& post.db.tasks@.last()@ == input.spec_with_id(dec_digits(pre.db.next_id as nat))
    &&& !pre.db.tasks.has(post.db.tasks@.last().task_id@)
    &&& forall|k: Seq<char>|
        k != dec_digits(pre.db.next_id as nat) ==> assoc(post.db.tasks@, k) == assoc(
            pre.db.tasks@,
            k,
        )
    &&& post.db.models == pre.db.models
    &&& post.db.default_llm == pre.db.default_llm
    &&& match r {
        Ok(t) => {
            &&& crate::types::task_copy(post.db.tasks@.last(), t)
            &&& t.task_id@ == dec_digits(pre.db.next_id as nat)
            &&& t@ == input.spec_with_id(t.task_id@)
            &&& spec_task_route(pre, input.model_id) matches TaskRoute::To { .. }
            &&& match spec_task_route(pre, input.model_id) {
                TaskRoute::To { rid, ch } => worker_task_spawned(pre, post, rid, t),
                _ => false,
            }
        },
        Err(e) => {
            &&& match spec_task_route(pre, input.model_id) {
                TaskRoute::NoDefault => e == AIServiceError::NoDefaultModel,
                TaskRoute::Unavailable => e == AIServiceError::ModelUnavailable,
                TaskRoute::To { .. } => false,
            }
            &&& post.llm_channel == pre.llm_channel
            &&& post.published == pre.published
            &&& post.db.statuses == pre.db.statuses
            &&& post.embedding_channel == pre.embedding_channel
            &&& post.transcription_streams == pre.transcription_streams
            &&& post.transcripts == pre.transcripts
            &&& post.next_epoch == pre.next_epoch
        },
    }
}

/// The store's task table in `post` is that of `pre` with the entry of
/// `task.task_id` replaced in place by a copy of `task`.
pub open spec fn db_task_updated(pre: AIService, post: AIService, task: AITask) -> bool {
    &&& exists|i: int|
        0 <= i < pre.db.tasks@.len() && pre.db.tasks@[i].key_spec() == task.task_id@
            && post.db.tasks@ == pre.db.tasks@.update(i, post.db.tasks@[i])
    &&& match post.db.tasks.spec_get(task.task_id@) {
        Some(t) => crate::types::task_copy(t, task),
        None => false,
    }
    &&& forall|k: Seq<char>|
        k != task.task_id@ ==> assoc(post.db.tasks@, k) == assoc(pre.db.tasks@, k)
    &&& post.db.models == pre.db.models
    &&& post.db.default_llm == pre.db.default_llm
    &&& post.db.next_id == pre.db.next_id
}

/// How `post` relates to `pre` after the worker of `rid` re-materialized a
/// copy of `task` (its old binding removed, the new one appended).
pub open spec fn worker_task_respawned(
    pre: AIService,
    post: AIService,
    rid: String,
    task: AITask,
) -> bool {
    &&& match (assoc(pre.llm_channel@, rid@), assoc(post.llm_channel@, rid@)) {
        (Some(oldch), Some(newch)) => {
            &&& crate::llm::channel_retasked(oldch, newch, task)
            &&& match oldch.engine {
                LlmEngine::Local => {
                    &&& post.published.deep_view() == pre.published.deep_view()
                        + spec_spawn_task_events(rid@)
                    &&& match post.db.statuses.spec_get(rid@) {
                        Some(row) => row@ == evv(rid@, 100, StatusTextV::Ready, true, true),
                        None => false,
                    }
                    &&& forall|k: Seq<char>|
                        k != rid@ ==> assoc(post.db.statuses@, k) == assoc(pre.db.statuses@, k)
                },
                LlmEngine::Remote { .. } => post.published == pre.published && post.db.statuses
                    == pre.db.statuses,
            }
        },
        _ => false,
    }
    &&& forall|k: Seq<char>| k != rid@ ==> assoc(post.llm_channel@, k) == assoc(pre.llm_channel@, k)
    &&& post.published@.len() >= pre.published@.len()
    &&& post.published@.take(pre.published@.len() as int) == pre.published@
    &&& post.embedding_channel == pre.embedding_channel
    &&& post.transcription_streams == pre.transcription_streams
    &&& post.transcripts == pre.transcripts
    &&& post.next_epoch == pre.next_epoch
}

/// How `post` relates to `pre` after updating a task: the store row is
/// replaced, and the task is removed from its worker and materialized anew.
pub open spec fn update_task_post(
    pre: AIService,
    post: AIService,
    task: AITask,
    r: Result<AITask, AIServiceError>,
) -> bool {
    if !pre.db.tasks.has(task.task_id@) {
        r == Err::<AITask, _>(AIServiceError::TaskNotFound) && post == pre
    } else {
        match spec_task_route(pre, task.model_id) {
            TaskRoute::NoDefault => {
                &&& r == Err::<AITask, _>(AIServiceError::NoDefaultModel)
                &&& db_task_updated(pre, post, task)
                &&& post.llm_channel == pre.llm_channel
                &&& post.published == pre.published
                &&& post.db.statuses == pre.db.statuses
                &&& post.embedding_channel == pre.embedding_channel
                &&& post.transcription_streams == pre.transcription_streams
                &&& post.transcripts == pre.transcripts
                &&& post.next_epoch == pre.next_epoch
            },
            TaskRoute::Unavailable => {
                &&& r == Err::<AITask, _>(AIServiceError::ModelUnavailable)
                &&& db_task_updated(pre, post, task)
                &&& post.llm_channel == pre.llm_channel
                &&& post.published == pre.published
                &&& post.db.statuses == pre.db.statuses
                &&& post.embedding_channel == pre.embedding_channel
                &&& post.transcription_streams == pre.transcription_streams
                &&& post.transcripts == pre.transcripts
                &&& post.next_epoch == pre.next_epoch
            },
            TaskRoute::To { rid, ch } => {
                &&& match r {
                    Ok(t) => crate::types::task_copy(t, task),
                    Err(_) => false,
                }
                &&& db_task_updated(pre, post, task)
                &&& worker_task_respawned(pre, post, rid, task)
            },
        }
    }
}

/// How `post` relates to `pre` after deleting a task: the worker forgets it
/// first, then the store row goes; a routing failure leaves the row behind.
pub open spec fn delete_task_post(
    pre: AIService,
    post: AIService,
    task_id: String,
    r: Result<bool, AIServiceError>,
) -> bool {
    match assoc(pre.db.tasks@, task_id@) {
        None => r == Err::<bool, _>(AIServiceError::TaskNotFound) && post == pre,
        Some(t) => match spec_task_route(pre, t.model_id) {
            TaskRoute::NoDefault => r == Err::<bool, _>(AIServiceError::NoDefaultModel) && post
                == pre,
            TaskRoute::Unavailable => r == Err::<bool, _>(AIServiceError::ModelUnavailable) && post
                == pre,
            TaskRoute::To { rid, ch } => {
                &&& r == Ok::<bool, AIServiceError>(true)
                &&& match (assoc(pre.llm_channel@, rid@), assoc(post.llm_channel@, rid@)) {
                    (Some(oldch), Some(newch)) => channel_without_task(oldch, newch, task_id@),
                    _ => false,
                }
                &&& forall|k: Seq<char>|
                    k != rid@ ==> assoc(post.llm_channel@, k) == assoc(pre.llm_channel@, k)
                &&& assoc(post.db.tasks@, task_id@) is None
                &&& exists|i: int|
                    0 <= i < pre.db.tasks@.len() && pre.db.tasks@[i].key_spec() == task_id@
                        && post.db.tasks@ == pre.db.tasks@.remove(i)
                &&& forall|k: Seq<char>|
                    k != task_id@ ==> assoc(post.db.tasks@, k) == assoc(pre.db.tasks@, k)
                &&& post.db.models == pre.db.models
                &&& post.db.statuses == pre.db.statuses
                &&& post.db.default_llm == pre.db.default_llm
                &&& post.db.next_id == pre.db.next_id
                &&& post.published == pre.published
                &&& post.embedding_channel == pre.embedding_channel
                &&& post.transcription_streams == pre.transcription_streams
                &&& post.transcripts == pre.transcripts
                &&& post.next_epoch == pre.next_epoch
            },
        },
    }
}

/// What the caller must run outside to answer a prompt: one inference on a
/// local engine, or one chat call against a remote endpoint.
#[derive(Debug)]
pub enum PromptJob {
    Local { model_id: String, epoch: u64, task_id: String, prompt: String },
    Remote {
        model_id: String,
        epoch: u64,
        remote_model: String,
        base_url: String,
        api_key: String,
        messages: Vec<crate::llm::ChatMessage>,
    },
}

/// What the outside inference or chat call came back with.
#[derive(Debug)]
pub enum PromptOutcome {
    /// The local engine ran the prompt to completion.
    LocalText { text: String },
    /// The local engine panicked; its worker thread is gone.
    EngineCrash { message: String },
    /// The remote endpoint answered with the contents of its choices.
    RemoteChoices { choices: Vec<String> },
    /// The remote call failed on the network or in the API.
    RemoteFailure { message: String },
}

/// An outcome a job can produce: local engines yield text or crash, remote
/// calls yield choices or fail.
pub open spec fn outcome_fits(job: PromptJob, outcome: PromptOutcome) -> bool {
    match job {
        PromptJob::Local { .. } => outcome is LocalText || outcome is EngineCrash,
        PromptJob::Remote { .. } => outcome is RemoteChoices || outcome is RemoteFailure,
    }
}

/// How `post` relates to `pre` after dispatching a prompt on `task_id`: on
/// success the returned job names the worker and carries everything the
/// outside call needs; a local dispatch announces the running inference.
pub open spec fn prompt_post(
    pre: AIService,
    post: AIService,
    task_id: String,
    prompt_text: String,
    r: Result<PromptJob, AIServiceError>,
) -> bool {
    match assoc(pre.db.tasks@, task_id@) {
        None => r == Err::<PromptJob, _>(AIServiceError::TaskNotFound) && post == pre,
        Some(t) => match spec_task_route(pre, t.model_id) {
            TaskRoute::NoDefault => r == Err::<PromptJob, _>(AIServiceError::NoDefaultModel)
                && post == pre,
            TaskRoute::Unavailable => r == Err::<PromptJob, _>(AIServiceError::ModelUnavailable)
                && post == pre,
            TaskRoute::To { rid, ch } => match ch.engine {
                LlmEngine::Local => {
                    if ch.tasks.has(task_id@) {
                        &&& match r {
                            Ok(PromptJob::Local { model_id, epoch, task_id: tid, prompt }) => {
                                &&& model_id@ == rid@
                                &&& epoch == ch.epoch
                                &&& tid == task_id
                                &&& prompt == prompt_text
                            },
                            _ => false,
                        }
                        &&& post.published@ == pre.published@.push(
                            (AIModelLoadingStatus {
                                model: model_id_of_job(r),
                                progress: 100,
                                status: StatusText::RunningInference,
                                downloaded: true,
                                loaded: true,
                            }),
                        )
                        &&& match post.db.statuses.spec_get(rid@) {
                            Some(row) => row@ == evv(
                                rid@,
                                100,
                                StatusTextV::RunningInference,
                                true,
                                true,
                            ),
                            None => false,
                        }
                        &&& forall|k: Seq<char>|
                            k != rid@ ==> assoc(post.db.statuses@, k) == assoc(
                                pre.db.statuses@,
                                k,
                            )
                        &&& post.db.models == pre.db.models
                        &&& post.db.tasks == pre.db.tasks
                        &&& post.db.default_llm == pre.db.default_llm
                        &&& post.db.next_id == pre.db.next_id
                        &&& post.llm_channel == pre.llm_channel
                        &&& post.embedding_channel == pre.embedding_channel
                        &&& post.transcription_streams == pre.transcription_streams
                        &&& post.transcripts == pre.transcripts
                        &&& post.next_epoch == pre.next_epoch
                    } else {
                        r == Err::<PromptJob, _>(AIServiceError::TaskNotSpawned) && post == pre
                    }
                },
                LlmEngine::Remote { remote_model, base_url, api_key } => {
                    &&& post == pre
                    &&& match assoc(ch.task_descriptions@, task_id@) {
                        Some(desc) => match r {
                            Ok(
                                PromptJob::Remote {
                                    model_id,
                                    epoch,
                                    remote_model: rm,
                                    base_url: bu,
                                    api_key: ak,
                                    messages,
                                },
                            ) => {
                                &&& model_id@ == rid@
                                &&& epoch == ch.epoch
                                &&& rm == remote_model
                                &&& bu == base_url
                                &&& ak == api_key
                                &&& messages.deep_view() == crate::llm::spec_chat_messages(
                                    desc@,
                                    prompt_text@,
                                )
                            },
                            _ => false,
                        },
                        None => r == Err::<PromptJob, _>(AIServiceError::TaskNotSpawned),
                    }
                },
            },
        },
    }
}

/// The model id carried by a successful job (an arbitrary value otherwise).
pub open spec fn model_id_of_job(r: Result<PromptJob, AIServiceError>) -> String {
    match r {
        Ok(PromptJob::Local { model_id, .. }) => model_id,
        Ok(PromptJob::Remote { model_id, .. }) => model_id,
        Err(e) => vstd::pervasive::arbitrary(),
    }
}

/// How `post` relates to `pre` after completing a prompt with the outside
/// outcome: local success reports the worker ready again and yields the
/// text; a crash kills the worker's mailbox; a remote reply yields its first
/// choice, or the matching error.
pub open spec fn complete_prompt_post(
    pre: AIService,
    post: AIService,
    job: PromptJob,
    outcome: PromptOutcome,
    r: Result<String, AIServiceError>,
) -> bool {
    match job {
        PromptJob::Local { model_id, epoch, .. } => match outcome {
            PromptOutcome::LocalText { text } => {
                &&& r == Ok::<String, AIServiceError>(text)
                &&& post.published@ == pre.published@.push(
                    (AIModelLoadingStatus {
                        model: model_id,
                        progress: 100,
                        status: StatusText::Ready,
                        downloaded: true,
                        loaded: true,
                    }),
                )
                &&& match post.db.statuses.spec_get(model_id@) {
                    Some(row) => row@ == evv(model_id@, 100, StatusTextV::Ready, true, true),
                    None => false,
                }
                &&& forall|k: Seq<char>|
                    k != model_id@ ==> assoc(post.db.statuses@, k) == assoc(pre.db.statuses@, k)
                &&& post.db.models == pre.db.models
                &&& post.db.tasks == pre.db.tasks
                &&& post.db.default_llm == pre.db.default_llm
                &&& post.db.next_id == pre.db.next_id
                &&& post.llm_channel == pre.llm_channel
                &&& post.embedding_channel == pre.embedding_channel
                &&& post.transcription_streams == pre.transcription_streams
                &&& post.transcripts == pre.transcripts
                &&& post.next_epoch == pre.next_epoch
            },
            PromptOutcome::EngineCrash { .. } => {
                &&& r == Err::<String, _>(AIServiceError::ModelUnavailable)
                &&& match assoc(pre.llm_channel@, model_id@) {
                    Some(ch) => if ch.epoch == epoch {
                        &&& match assoc(post.llm_channel@, model_id@) {
                            Some(n) => {
                                &&& n.model_id == ch.model_id
                                &&& n.epoch == ch.epoch
                                &&& !n.alive
                                &&& n.engine == ch.engine
                                &&& n.tasks == ch.tasks
                                &&& n.task_descriptions == ch.task_descriptions
                            },
                            None => false,
                        }
                        &&& forall|k: Seq<char>|
                            k != model_id@ ==> assoc(post.llm_channel@, k) == assoc(
                                pre.llm_channel@,
                                k,
                            )
                        &&& post.db == pre.db
                        &&& post.published == pre.published
                        &&& post.embedding_channel == pre.embedding_channel
                        &&& post.transcription_streams == pre.transcription_streams
                        &&& post.transcripts == pre.transcripts
                        &&& post.next_epoch == pre.next_epoch
                    } else {
                        post == pre
                    },
                    None => post == pre,
                }
            },
            _ => false,
        },
        PromptJob::Remote { .. } => {
            &&& post == pre
            &&& match outcome {
                PromptOutcome::RemoteChoices { choices } => {
                    if choices@.len() > 0 {
                        r == Ok::<String, AIServiceError>(choices@[0])
                    } else {
                        r == Err::<String, _>(AIServiceError::RemoteNoChoice)
                    }
                },
                PromptOutcome::RemoteFailure { message } => match r {
                    Err(AIServiceError::RemoteApiError { message: m }) => m@
                        == "Error connecting to remote LLM API: "@ + message@,
                    _ => false,
                },
                _ => false,
            }
        },
    }
}

/// How `post` relates to `pre` after initializing one model, whichever
/// family it belongs to.
pub open spec fn init_model_post(
    pre: AIService,
    post: AIService,
    model: Model,
    build: EngineBuild,
    r: Result<(), AIServiceError>,
) -> bool {
    match model.model_type {
        ModelType::Llm => match r {
            Ok(_) => spawn_llm_ok_post(pre, post, model, build),
            Err(e) => {
                &&& model.local is None && model.api is None
                &&& post == pre
                &&& e matches AIServiceError::BuildFailed { message }
            },
        },
        ModelType::Embedding => r is Ok && spawn_embedding_post(pre, post, model, build),
        ModelType::Transcription => r is Ok && load_transcriber_post(pre, post, model),
    }
}

/// `mid` is `pre` with exactly one new model persisted: `input` under the
/// next counter id. Nothing else moves.
pub open spec fn db_model_added(pre: AIService, mid: AIService, input: ModelInput) -> bool {
    &&& mid.db.models@.len() == pre.db.models@.len() + 1
    &&& mid.db.models@ == pre.db.models@.push(mid.db.models@.last())
    &&& mid.db.models@.last() == input.spec_with_id(mid.db.models@.last().id)
    &&& mid.db.models@.last().id@ == dec_digits(pre.db.next_id as nat)
    &&& !pre.db.models.has(mid.db.models@.last().id@)
    &&& forall|k: Seq<char>|
        k != dec_digits(pre.db.next_id as nat) ==> assoc(mid.db.models@, k) == assoc(
            pre.db.models@,
            k,
        )
    &&& mid.db.tasks == pre.db.tasks
    &&& mid.db.statuses == pre.db.statuses
    &&& mid.db.default_llm == pre.db.default_llm
    &&& mid.db.next_id == pre.db.next_id + 1
    &&& mid.llm_channel == pre.llm_channel
    &&& mid.embedding_channel == pre.embedding_channel
    &&& mid.transcription_streams == pre.transcription_streams
    &&& mid.published == pre.published
    &&& mid.transcripts == pre.transcripts
    &&& mid.next_epoch == pre.next_epoch
}

/// How `post` relates to `pre` after removing a model: its worker is shut
/// down and its mailbox dropped (for language models), then the store row
/// goes. A live worker announces its shutdown; other model families keep
/// their workers.
pub open spec fn remove_model_post(
    pre: AIService,
    post: AIService,
    model_id: String,
    r: Result<(), AIServiceError>,
) -> bool {
    match assoc(pre.db.models@, model_id@) {
        None => r == Err::<(), _>(AIServiceError::ModelNotFound) && post == pre,
        Some(m) => {
            &&& r is Ok
            &&& assoc(post.db.models@, model_id@) is None
            &&& exists|i: int|
                0 <= i < pre.db.models@.len() && pre.db.models@[i].key_spec() == model_id@
                    && post.db.models@ == pre.db.models@.remove(i)
            &&& forall|k: Seq<char>|
                k != model_id@ ==> assoc(post.db.models@, k) == assoc(pre.db.models@, k)
            &&& match m.model_type {
                ModelType::Llm => {
                    &&& assoc(post.llm_channel@, model_id@) is None
                    &&& forall|k: Seq<char>|
                        k != model_id@ ==> assoc(post.llm_channel@, k) == assoc(
                            pre.llm_channel@,
                            k,
                        )
                    &&& match assoc(pre.llm_channel@, model_id@) {
                        Some(ch) => if ch.alive {
                            &&& post.published@ == pre.published@.push(
                                (AIModelLoadingStatus {
                                    model: model_id,
                                    progress: 100,
                                    status: StatusText::ShuttingDown,
                                    downloaded: true,
                                    loaded: false,
                                }),
                            )
                            &&& match post.db.statuses.spec_get(model_id@) {
                                Some(row) => row@ == evv(
                                    model_id@,
                                    100,
                                    StatusTextV::ShuttingDown,
                                    true,
                                    false,
                                ),
                                None => false,
                            }
                            &&& forall|k: Seq<char>|
                                k != model_id@ ==> assoc(post.db.statuses@, k) == assoc(
                                    pre.db.statuses@,
                                    k,
                                )
                        } else {
                            post.published == pre.published && post.db.statuses
                                == pre.db.statuses
                        },
                        None => post.published == pre.published && post.db.statuses
                            == pre.db.statuses,
                    }
                },
                _ => post.llm_channel == pre.llm_channel && post.published == pre.published
                    && post.db.statuses == pre.db.statuses,
            }
            &&& post.db.tasks == pre.db.tasks
            &&& post.db.default_llm == pre.db.default_llm
            &&& post.db.next_id == pre.db.next_id
            &&& post.embedding_channel == pre.embedding_channel
            &&& post.transcription_streams == pre.transcription_streams
            &&& post.transcripts == pre.transcripts
            &&& post.next_epoch == pre.next_epoch
        },
    }
}

/// How `post` relates to `pre` after nominating a default model: only the
/// language-model default is observed; every stored task that names the
/// sentinel is re-materialized on the nominated worker, so the change takes
/// effect at once.
pub open spec fn set_default_model_post(
    pre: AIService,
    post: AIService,
    model_type: ModelType,
    model_id: String,
    r: Result<(), AIServiceError>,
) -> bool {
    if model_type != ModelType::Llm {
        post == pre && r is Ok
    } else {
        &&& post.db.default_llm == Some(model_id)
        &&& post.db.models == pre.db.models
        &&& post.db.tasks == pre.db.tasks
        &&& post.db.next_id == pre.db.next_id
        &&& post.published@.len() >= pre.published@.len()
        &&& post.published@.take(pre.published@.len() as int) == pre.published@
        &&& forall|k: Seq<char>|
            k != model_id@ ==> assoc(post.llm_channel@, k) == assoc(pre.llm_channel@, k)
        &&& forall|k: Seq<char>|
            k != model_id@ ==> assoc(post.db.statuses@, k) == assoc(pre.db.statuses@, k)
        &&& post.embedding_channel == pre.embedding_channel
        &&& post.transcription_streams == pre.transcription_streams
        &&& post.transcripts == pre.transcripts
        &&& post.next_epoch == pre.next_epoch
        &&& match r {
            Ok(_) => forall|i: int|
                0 <= i < post.db.tasks@.len() && (#[trigger] post.db.tasks@[i]).model_id@
                    == "default"@ ==> match assoc(post.llm_channel@, model_id@) {
                    Some(ch) => ch.serves_task(post.db.tasks@[i].task_id@),
                    None => false,
                },
            Err(e) => {
                &&& e == AIServiceError::ModelUnavailable
                &&& (match assoc(pre.llm_channel@, model_id@) {
                    None => true,
                    Some(ch) => !ch.alive,
                })
                &&& post.llm_channel == pre.llm_channel
                &&& post.published == pre.published
                &&& post.db.statuses == pre.db.statuses
            },
        }
    }
}

/// The shutdown announcement of the old worker of `model_id`: one event if a
/// live worker existed, nothing otherwise.
pub open spec fn spec_shutdown_events(pre: AIService, model_id: Seq<char>) -> Seq<
    AIModelLoadingStatusV,
> {
    match assoc(pre.llm_channel@, model_id) {
        Some(ch) => if ch.alive {
            seq![evv(model_id, 100, StatusTextV::ShuttingDown, true, false)]
        } else {
            Seq::empty()
        },
        None => Seq::empty(),
    }
}

/// The task-spawning statuses published while the tasks bound to `mid` are
/// re-materialized on a local worker, in stored task order.
pub open spec fn spec_respawn_events(tasks: Seq<AITask>, mid: Seq<char>) -> Seq<
    AIModelLoadingStatusV,
>
    decreases tasks.len(),
{
    if tasks.len() == 0 {
        Seq::empty()
    } else {
        (if tasks.first().model_id@ == mid {
            spec_spawn_task_events(mid)
        } else {
            Seq::empty()
        }) + spec_respawn_events(tasks.drop_first(), mid)
    }
}

/// One step of the respawn event list: extending the prefix by one task
/// appends that task's block.
pub proof fn lemma_respawn_events_take(tasks: Seq<AITask>, mid: Seq<char>, i: int)
    requires
        0 <= i < tasks.len(),
    ensures
        spec_respawn_events(tasks.take(i + 1), mid) == spec_respawn_events(tasks.take(i), mid) + (
        if tasks[i].model_id@ == mid {
            spec_spawn_task_events(mid)
        } else {
            Seq::empty()
        }),
    decreases i,
{
    let block = if tasks[i].model_id@ == mid {
        spec_spawn_task_events(mid)
    } else {
        Seq::<AIModelLoadingStatusV>::empty()
    };
    if i == 0 {
        assert(tasks.take(1) =~= seq![tasks[0]]);
        assert(tasks.take(1).drop_first() =~= Seq::<AITask>::empty());
        assert(tasks.take(0) =~= Seq::<AITask>::empty());
        assert(spec_respawn_events(Seq::<AITask>::empty(), mid) == Seq::<
            AIModelLoadingStatusV,
        >::empty());
        assert(tasks.take(1).first() == tasks[0]);
        assert(spec_respawn_events(tasks.take(1), mid) == block + spec_respawn_events(
            tasks.take(1).drop_first(),
            mid,
        ));
        assert(spec_respawn_events(tasks.take(1), mid) =~= block);
    } else {
        lemma_respawn_events_take(tasks.drop_first(), mid, i - 1);
        let head_block = if tasks[0].model_id@ == mid {
            spec_spawn_task_events(mid)
        } else {
            Seq::<AIModelLoadingStatusV>::empty()
        };
        assert(tasks.take(i + 1)[0] == tasks[0]);
        assert(tasks.take(i)[0] == tasks[0]);
        assert(tasks.take(i + 1).drop_first() =~= tasks.drop_first().take(i));
        assert(tasks.take(i).drop_first() =~= tasks.drop_first().take(i - 1));
        assert(tasks.drop_first()[i - 1] == tasks[i]);
        assert(spec_respawn_events(tasks.take(i + 1), mid) == head_block + spec_respawn_events(
            tasks.drop_first().take(i),
            mid,
        ));
        assert(spec_respawn_events(tasks.drop_first().take(i), mid) == spec_respawn_events(
            tasks.drop_first().take(i - 1),
            mid,
        ) + block);
        assert(head_block + (spec_respawn_events(tasks.drop_first().take(i - 1), mid) + block)
            =~= (head_block + spec_respawn_events(tasks.drop_first().take(i - 1), mid)) + block);
    }
}

/// The store's model table in `post` is that of `pre` with the row of
/// `model_id` replaced by `input` under the same id.
pub open spec fn db_model_updated(
    pre: AIService,
    post: AIService,
    model_id: String,
    input: ModelInput,
) -> bool {
    &&& pre.db.models.has(model_id@)
    &&& post.db.models.spec_get(model_id@) == Some(input.spec_with_id(model_id))
    &&& forall|k: Seq<char>|
        k != model_id@ ==> assoc(post.db.models@, k) == assoc(pre.db.models@, k)
    &&& post.db.tasks == pre.db.tasks
    &&& post.db.default_llm == pre.db.default_llm
    &&& post.db.next_id == pre.db.next_id
}

/// How `post` relates to `pre` after updating a model. For a language model
/// the old worker is shut down and a fresh one spawned from the new
/// configuration; the tasks stored against the id are then re-materialized
/// on it, so callers keep prompting without re-adding them. Updates of other
/// families touch only the store.
pub open spec fn update_model_post(
    pre: AIService,
    post: AIService,
    model_id: String,
    input: ModelInput,
    build: EngineBuild,
    r: Result<(), AIServiceError>,
) -> bool {
    match assoc(pre.db.models@, model_id@) {
        None => r == Err::<(), _>(AIServiceError::ModelNotFound) && post == pre,
        Some(existing) => {
            &&& db_model_updated(pre, post, model_id, input)
            &&& if existing.model_type != ModelType::Llm {
                &&& r is Ok
                &&& post.llm_channel == pre.llm_channel
                &&& post.published == pre.published
                &&& post.db.statuses == pre.db.statuses
                &&& post.embedding_channel == pre.embedding_channel
                &&& post.transcription_streams == pre.transcription_streams
                &&& post.transcripts == pre.transcripts
                &&& post.next_epoch == pre.next_epoch
            } else {
                &&& post.published@.len() >= pre.published@.len()
                &&& post.published@.take(pre.published@.len() as int) == pre.published@
                &&& post.embedding_channel == pre.embedding_channel
                &&& post.transcription_streams == pre.transcription_streams
                &&& post.transcripts == pre.transcripts
                &&& model_id@ != "default"@ ==> {
                    let updated = input.spec_with_id(model_id);
                    &&& forall|k: Seq<char>|
                        k != model_id@ ==> assoc(post.llm_channel@, k) == assoc(
                            pre.llm_channel@,
                            k,
                        )
                    &&& forall|k: Seq<char>|
                        k != model_id@ ==> assoc(post.db.statuses@, k) == assoc(
                            pre.db.statuses@,
                            k,
                        )
                    &&& match r {
                        Ok(_) => {
                            &&& spec_spawn_llm_alive(updated, build)
                            &&& post.next_epoch == pre.next_epoch + 1
                            &&& match assoc(post.llm_channel@, model_id@) {
                                Some(ch) => {
                                    &&& ch.epoch == pre.next_epoch
                                    &&& ch.alive
                                    &&& (updated.local is Some <==> ch.engine is Local)
                                    &&& forall|i: int|
                                        0 <= i < post.db.tasks@.len() && (
                                        #[trigger] post.db.tasks@[i]).model_id@ == model_id@
                                            ==> ch.serves_task(post.db.tasks@[i].task_id@)
                                },
                                None => false,
                            }
                            &&& post.published.deep_view() == pre.published.deep_view()
                                + spec_shutdown_events(pre, model_id@) + spec_spawn_llm_events(
                                updated,
                                build,
                            ) + (if updated.local is Some {
                                spec_respawn_events(pre.db.tasks@, model_id@)
                            } else {
                                Seq::empty()
                            })
                        },
                        Err(e) => {
                            ||| {
                                &&& e matches AIServiceError::BuildFailed { .. }
                                &&& updated.local is None && updated.api is None
                                &&& assoc(post.llm_channel@, model_id@) is None
                                &&& post.next_epoch == pre.next_epoch
                                &&& post.published.deep_view() == pre.published.deep_view()
                                    + spec_shutdown_events(pre, model_id@)
                            }
                            ||| {
                                &&& e == AIServiceError::ModelUnavailable
                                &&& !spec_spawn_llm_alive(updated, build)
                                &&& post.next_epoch == pre.next_epoch + 1
                                &&& match assoc(post.llm_channel@, model_id@) {
                                    Some(ch) => ch.epoch == pre.next_epoch && !ch.alive,
                                    None => false,
                                }
                                &&& post.published.deep_view() == pre.published.deep_view()
                                    + spec_shutdown_events(pre, model_id@)
                                    + spec_spawn_llm_events(updated, build)
                            }
                        },
                    }
                }
            }
        },
    }
}

/// The task is materialized in the live worker its stored model id resolves
/// to in state `s`.
pub open spec fn task_served(s: AIService, t: AITask) -> bool {
    match spec_resolved_model_id(s, t.model_id) {
        Some(rid) => match assoc(s.llm_channel@, rid@) {
            Some(ch) => ch.alive && ch.serves_task(t.task_id@),
            None => false,
        },
        None => false,
    }
}

/// How `post` relates to `pre` after loading the service from the store:
/// every persisted model is initialized (on an empty store, a default
/// embedding model is bootstrapped instead), per-model failures do not stop
/// the batch, and the stored tasks are then materialized on their workers.
pub open spec fn load_post(
    pre: AIService,
    post: AIService,
    builds: Seq<BuildReport>,
    r: Result<(), AIServiceError>,
) -> bool {
    &&& post.db.models == pre.db.models
    &&& post.db.tasks == pre.db.tasks
    &&& post.db.default_llm == pre.db.default_llm
    &&& post.db.next_id == pre.db.next_id
    &&& post.published@.len() >= pre.published@.len()
    &&& post.published@.take(pre.published@.len() as int) == pre.published@
    &&& post.transcription_streams == pre.transcription_streams
    &&& post.transcripts == pre.transcripts
    &&& if pre.db.models@.len() == 0 {
        &&& match assoc(post.embedding_channel@, "bert"@) {
            Some(ch) => ch.alive == (spec_build_for(builds, "bert-id"@) is Success),
            None => false,
        }
        &&& match assoc(post.db.statuses@, "bert-id"@) {
            Some(row) => row@.model == "bert-id"@ && row@.downloaded,
            None => false,
        }
        &&& pre.db.tasks@.len() == 0 ==> r is Ok && post.published.deep_view()
            == pre.published.deep_view() + spec_loading_events("bert-id"@)
    } else {
        &&& forall|i: int|
            0 <= i < pre.db.models@.len() && ((#[trigger] pre.db.models@[i]).model_type
                != ModelType::Llm || pre.db.models@[i].local is Some || pre.db.models@[i].api
                is Some) ==> match assoc(post.db.statuses@, pre.db.models@[i].id@) {
                Some(row) => {
                    &&& row@.model == pre.db.models@[i].id@
                    &&& row@.downloaded
                    &&& pre.db.models@[i].model_type == ModelType::Llm ==> (row@.loaded
                        || row@.status matches StatusTextV::FailedToBuildLlm { .. })
                },
                None => false,
            }
        &&& forall|i: int|
            0 <= i < pre.db.models@.len() && (#[trigger] pre.db.models@[i]).model_type
                == ModelType::Llm && (pre.db.models@[i].local is Some || pre.db.models@[i].api
                is Some) ==> match assoc(post.llm_channel@, pre.db.models@[i].id@) {
                Some(ch) => ch.alive == spec_spawn_llm_alive(
                    pre.db.models@[i],
                    spec_build_for(builds, pre.db.models@[i].id@),
                ),
                None => false,
            }
    }
    &&& r is Ok ==> forall|i: int|
        0 <= i < post.db.tasks@.len() ==> task_served(post, #[trigger] post.db.tasks@[i])
    &&& r is Err ==> pre.db.tasks@.len() > 0
}

/// The model worker supervisor: owns the store, one mailbox per worker, the
/// transcription session table, and the logs of everything published on the
/// model-loading and transcription topics.
pub struct AIService {
    pub db: Ad4mDb,
    pub llm_channel: KvList<LlmChannel>,
    pub embedding_channel: KvList<EmbeddingChannel>,
    pub transcription_streams: KvList<TranscriptionSession>,
    /// Everything published on the model-loading topic, oldest first.
    pub published: Vec<AIModelLoadingStatus>,
    /// Everything published on the transcription topic, oldest first.
    pub transcripts: Vec<TranscriptionText>,
    /// Epochs already used by some worker lie strictly below this.
    pub next_epoch: u64,
}

impl AIService {
    /// Well-formed: the store and all tables have distinct keys, workers are
    /// well-formed, and no live worker carries an epoch that is still to be
    /// assigned.
    pub open spec fn wf(self) -> bool {
        &&& self.db.wf()
        &&& self.llm_channel.wf()
        &&& self.embedding_channel.wf()
        &&& self.transcription_streams.wf()
        &&& forall|i: int|
            0 <= i < self.llm_channel@.len() ==> (#[trigger] self.llm_channel@[i]).wf()
        &&& forall|i: int|
            0 <= i < self.llm_channel@.len() ==> (#[trigger] self.llm_channel@[i]).epoch
                < self.next_epoch
        &&& forall|i: int|
            0 <= i < self.embedding_channel@.len() ==> (
            #[trigger] self.embedding_channel@[i]).epoch < self.next_epoch
    }

    /// A fresh supervisor over an empty store: no workers, no streams,
    /// nothing published.
    pub fn new() -> (r: Self)
        ensures
            r.wf(),
            r.db.models@ =~= Seq::<Model>::empty(),
            r.db.tasks@ =~= Seq::<AITask>::empty(),
            r.db.statuses@ =~= Seq::<AIModelLoadingStatus>::empty(),
            r.db.default_llm is None,
            r.llm_channel@ =~= Seq::<LlmChannel>::empty(),
            r.embedding_channel@ =~= Seq::<EmbeddingChannel>::empty(),
            r.transcription_streams@ =~= Seq::<TranscriptionSession>::empty(),
            r.published@ =~= Seq::<AIModelLoadingStatus>::empty(),
            r.transcripts@ =~= Seq::<TranscriptionText>::empty(),
    {
        AIService {
            db: Ad4mDb::new(),
            llm_channel: KvList::new(),
            embedding_channel: KvList::new(),
            transcription_streams: KvList::new(),
            published: Vec::new(),
            transcripts: Vec::new(),
            next_epoch: 0,
        }
    }

    /// Upserts the model's status row in the store and publishes the same
    /// payload on the model-loading topic.
    fn publish_model_status(
        &mut self,
        model: &String,
        progress: u8,
        status: StatusText,
        downloaded: bool,
        loaded: bool,
    )
        requires
            old(self).db.wf(),
        ensures
            final(self).db.wf(),
            final(self).db.statuses.spec_get(model@) == Some(
                (AIModelLoadingStatus {
                    model: *model,
                    progress: progress,
                    status: status,
                    downloaded: downloaded,
                    loaded: loaded,
                }),
            ),
            forall|k: Seq<char>|
                k != model@ ==> assoc(final(self).db.statuses@, k) == assoc(
                    old(self).db.statuses@,
                    k,
                ),
            final(self).db.models == old(self).db.models,
            final(self).db.tasks == old(self).db.tasks,
            final(self).db.default_llm == old(self).db.default_llm,
            final(self).db.next_id == old(self).db.next_id,
            final(self).published@ == old(self).published@.push(
                (AIModelLoadingStatus {
                    model: *model,
                    progress: progress,
                    status: status,
                    downloaded: downloaded,
                    loaded: loaded,
                }),
            ),
            final(self).llm_channel == old(self).llm_channel,
            final(self).embedding_channel == old(self).embedding_channel,
            final(self).transcription_streams == old(self).transcription_streams,
            final(self).transcripts == old(self).transcripts,
            final(self).next_epoch == old(self).next_epoch,
    {
        self.db.create_or_update_model_status(
            model,
            progress,
            status.duplicate(),
            downloaded,
            loaded,
        );
        self.published.push(
            AIModelLoadingStatus {
                model: model.clone(),
                progress,
                status,
                downloaded,
                loaded,
            },
        );
    }

    /// Forwards one builder progress report: below one hundred percent the
    /// model is loading, at one hundred it is loaded.
    pub fn handle_progress(&mut self, model_id: &String, progress: u8)
        requires
            old(self).wf(),
        ensures
            final(self).wf(),
            final(self).published@ == old(self).published@.push(
                (AIModelLoadingStatus {
                    model: *model_id,
                    progress: progress,
                    status: if progress < 100 {
                        StatusText::Loading
                    } else {
                        StatusText::Loaded
                    },
                    downloaded: false,
                    loaded: false,
                }),
            ),
            final(self).db.statuses.spec_get(model_id@) == Some(
                (AIModelLoadingStatus {
                    model: *model_id,
                    progress: progress,
                    status: if progress < 100 {
                        StatusText::Loading
                    } else {
                        StatusText::Loaded
                    },
                    downloaded: false,
                    loaded: false,
                }),
            ),
            forall|k: Seq<char>|
                k != model_id@ ==> assoc(final(self).db.statuses@, k) == assoc(
                    old(self).db.statuses@,
                    k,
                ),
            final(self).db.models == old(self).db.models,
            final(self).db.tasks == old(self).db.tasks,
            final(self).db.default_llm == old(self).db.default_llm,
            final(self).db.next_id == old(self).db.next_id,
            final(self).llm_channel == old(self).llm_channel,
            final(self).embedding_channel == old(self).embedding_channel,
            final(self).transcription_streams == old(self).transcription_streams,
            final(self).transcripts == old(self).transcripts,
            final(self).next_epoch == old(self).next_epoch,
    {
        let status = if progress < 100 {
            StatusText::Loading
        } else {
            StatusText::Loaded
        };
        self.publish_model_status(model_id, progress, status, false, false);
    }

    /// Spawns the worker of a language model: registers a fresh mailbox under
    /// the model's id and publishes the build's lifecycle statuses. The
    /// caller reports in `build` what the outside engine construction did;
    /// a configuration with no backing is refused, an unlocatable weights
    /// source or a failed build leaves a dead mailbox behind.
    pub fn spawn_llm_model(&mut self, model: Model, build: EngineBuild) -> (r: Result<
        (),
        AIServiceError,
    >)
        requires
            old(self).wf(),
            old(self).next_epoch < u64::MAX,
        ensures
            final(self).wf(),
            match r {
                Err(e) => {
                    &&& model.local is None && model.api is None
                    &&& *final(self) == *old(self)
                    &&& e matches AIServiceError::BuildFailed { message }
                    &&& (e matches AIServiceError::BuildFailed { message } ==> message@
                        == spec_no_body_message(model.name@))
                },
                Ok(_) => spawn_llm_ok_post(*old(self), *final(self), model, build),
            },
    {
        let ghost pre = *old(self);
        if let Some(local) = &model.local {
            let epoch = self.next_epoch;
            self.next_epoch = self.next_epoch + 1;
            self.publish_model_status(
                &model.id,
                100,
                StatusText::SpawningModelThread,
                true,
                false,
            );
            self.publish_model_status(&model.id, 0, StatusText::Loading, false, false);
            let alive: bool;
            match resolve_llama_source(local) {
                Err(_) => {
                    let mut m = String::from_str("Unknown model string: ");
                    m.append(local.file_name.as_str());
                    m.append(
                        " and no Huggingface repo provided. Don't know where to get model weights from for: ",
                    );
                    m.append(model.id.as_str());
                    self.publish_model_status(
                        &model.id,
                        100,
                        StatusText::FailedToBuildLlm { message: m },
                        true,
                        false,
                    );
                    alive = false;
                },
                Ok(_src) => {
                    match build {
                        EngineBuild::Success => {
                            self.publish_model_status(
                                &model.id,
                                100,
                                StatusText::Downloaded,
                                true,
                                false,
                            );
                            self.publish_model_status(
                                &model.id,
                                100,
                                StatusText::Ready,
                                true,
                                true,
                            );
                            alive = true;
                        },
                        EngineBuild::Failure { message } => {
                            self.publish_model_status(
                                &model.id,
                                100,
                                StatusText::FailedToBuildLlm { message },
                                true,
                                false,
                            );
                            alive = false;
                        },
                    }
                },
            }
            let channel = LlmChannel {
                model_id: model.id.clone(),
                epoch,
                alive,
                engine: LlmEngine::Local,
                tasks: KvList::new(),
                task_descriptions: KvList::new(),
            };
            let ghost before = self.llm_channel@;
            self.llm_channel.upsert(channel);
            proof {
                self.lemma_channel_table_wf(pre, before, channel);
                assert(self.published.deep_view() =~= pre.published.deep_view()
                    + spec_spawn_llm_events(model, build));
                assert(self.published@.take(pre.published@.len() as int) =~= pre.published@);
            }
            Ok(())
        } else if let Some(api) = &model.api {
            let epoch = self.next_epoch;
            self.next_epoch = self.next_epoch + 1;
            self.publish_model_status(
                &model.id,
                100,
                StatusText::SpawningModelThread,
                true,
                false,
            );
            self.publish_model_status(&model.id, 0, StatusText::Initializing, false, false);
            self.publish_model_status(&model.id, 100, StatusText::Initializing, true, false);
            self.publish_model_status(&model.id, 100, StatusText::Ready, true, true);
            let channel = LlmChannel {
                model_id: model.id.clone(),
                epoch,
                alive: true,
                engine: LlmEngine::Remote {
                    remote_model: api.model.clone(),
                    base_url: normalize_base_url(&api.base_url),
                    api_key: api.api_key.clone(),
                },
                tasks: KvList::new(),
                task_descriptions: KvList::new(),
            };
            let ghost before = self.llm_channel@;
            self.llm_channel.upsert(channel);
            proof {
                self.lemma_channel_table_wf(pre, before, channel);
                assert(self.published.deep_view() =~= pre.published.deep_view()
                    + spec_spawn_llm_events(model, build));
                assert(self.published@.take(pre.published@.len() as int) =~= pre.published@);
            }
            Ok(())
        } else {
            let mut msg = String::from_str("AI model definition ");
            msg.append(model.name.as_str());
            msg.append(" doesn't have a body, nothing to spawn!");
            Err(AIServiceError::BuildFailed { message: msg })
        }
    }

    /// Spawns the worker of an embedding model: registers a fresh mailbox
    /// under the model's name and publishes the loading statuses. The worker
    /// reports itself loaded before inspecting the build, so the statuses do
    /// not depend on the build's outcome; a failed build leaves a dead
    /// mailbox behind.
    pub fn spawn_embedding_model(&mut self, model: Model, build: EngineBuild)
        requires
            old(self).wf(),
            old(self).next_epoch < u64::MAX,
        ensures
            final(self).wf(),
            spawn_embedding_post(*old(self), *final(self), model, build),
    {
        let ghost pre = *old(self);
        let epoch = self.next_epoch;
        self.next_epoch = self.next_epoch + 1;
        self.publish_model_status(&model.id, 0, StatusText::Loading, false, false);
        self.publish_model_status(&model.id, 100, StatusText::Loaded, true, false);
        let alive = match build {
            EngineBuild::Success => true,
            EngineBuild::Failure { .. } => false,
        };
        let channel = EmbeddingChannel { name: model.name.clone(), epoch, alive };
        let ghost before = self.embedding_channel@;
        self.embedding_channel.upsert(channel);
        proof {
            if assoc(before, channel.name@) is Some {
                let j = choose|j: int|
                    0 <= j < before.len() && before[j].key_spec() == channel.key_spec()
                        && self.embedding_channel@ == before.update(j, channel);
                assert forall|i: int|
                    0 <= i < self.embedding_channel@.len() implies (
                #[trigger] self.embedding_channel@[i]).epoch < self.next_epoch by {
                    if i != j {
                        assert(self.embedding_channel@[i] == before[i]);
                    }
                }
            } else {
                assert forall|i: int|
                    0 <= i < self.embedding_channel@.len() implies (
                #[trigger] self.embedding_channel@[i]).epoch < self.next_epoch by {
                    if i < before.len() {
                        assert(self.embedding_channel@[i] == before[i]);
                    } else {
                        assert(self.embedding_channel@[i] == channel);
                    }
                }
            }
            assert(self.published.deep_view() =~= pre.published.deep_view()
                + spec_loading_events(model.id@));
            assert(self.published@.take(pre.published@.len() as int) =~= pre.published@);
        }
    }

    /// Loads a transcriber model once so its weights are present, publishing
    /// the loading statuses. No worker is registered: transcription workers
    /// are spawned per stream.
    pub fn load_transcriber_model(&mut self, model: &Model)
        requires
            old(self).wf(),
        ensures
            final(self).wf(),
            load_transcriber_post(*old(self), *final(self), *model),
    {
        let ghost pre = *old(self);
        self.publish_model_status(&model.id, 0, StatusText::Loading, false, false);
        self.publish_model_status(&model.id, 100, StatusText::Loaded, true, false);
        proof {
            assert(self.published.deep_view() =~= pre.published.deep_view()
                + spec_loading_events(model.id@));
            assert(self.published@.take(pre.published@.len() as int) =~= pre.published@);
        }
    }

    /// Initializes one model by spawning the worker its family asks for. The
    /// caller reports in `build` what the outside engine construction did.
    pub fn init_model(&mut self, model: Model, build: EngineBuild) -> (r: Result<
        (),
        AIServiceError,
    >)
        requires
            old(self).wf(),
            old(self).next_epoch < u64::MAX,
        ensures
            final(self).wf(),
            init_model_post(*old(self), *final(self), model, build, r),
    {
        match model.model_type {
            ModelType::Llm => self.spawn_llm_model(model, build),
            ModelType::Embedding => {
                self.spawn_embedding_model(model, build);
                Ok(())
            },
            ModelType::Transcription => {
                self.load_transcriber_model(&model);
                Ok(())
            },
        }
    }

    /// Resolves the sentinel model id: the literal `default` names the
    /// nominated default language model, anything else names itself. This
    /// runs at every dispatch, so a change of default takes effect on next
    /// use.
    pub fn replace_model_variables(&self, model_id: &String) -> (r: Result<
        String,
        AIServiceError,
    >)
        ensures
            match r {
                Ok(id) => spec_resolved_model_id(*self, *model_id) == Some(id),
                Err(e) => spec_resolved_model_id(*self, *model_id) is None && e
                    == AIServiceError::NoDefaultModel,
            },
    {
        if crate::llm::str_eq(model_id, "default") {
            match self.db.get_default_model(ModelType::Llm) {
                Some(id) => Ok(id),
                None => Err(AIServiceError::NoDefaultModel),
            }
        } else {
            Ok(model_id.clone())
        }
    }

    /// Materializes a task inside the worker its model id resolves to: a
    /// local worker binds the prompt and examples to its engine and reports
    /// the task spawn, a remote worker records the description for replay.
    pub fn spawn_task(&mut self, task: AITask) -> (r: Result<(), AIServiceError>)
        requires
            old(self).wf(),
        ensures
            final(self).wf(),
            spawn_task_post(*old(self), *final(self), task, r),
    {
        let ghost pre = *old(self);
        let model_id = match self.replace_model_variables(&task.model_id) {
            Ok(id) => id,
            Err(e) => {
                return Err(e);
            },
        };
        let is_local: bool;
        match self.llm_channel.get(&model_id) {
            None => {
                return Err(AIServiceError::ModelUnavailable);
            },
            Some(ch) => {
                if !ch.alive {
                    return Err(AIServiceError::ModelUnavailable);
                }
                is_local = matches!(ch.engine, LlmEngine::Local);
            },
        }
        if is_local {
            self.publish_model_status(&model_id, 100, StatusText::SpawningTask, true, true);
        }
        let mut ch = match self.llm_channel.remove(&model_id) {
            Some(c) => c,
            None => {
                proof {
                    assert(false);
                }
                return Err(AIServiceError::ModelUnavailable);
            },
        };
        let ghost oldch = ch;
        let ghost before = self.llm_channel@;
        proof {
            crate::kv::lemma_assoc_mem(pre.llm_channel@, model_id@);
            let i = choose|i: int|
                0 <= i < pre.llm_channel@.len() && pre.llm_channel@[i] == oldch
                    && oldch.key_spec() == model_id@;
            assert(pre.llm_channel@[i].wf());
            assert(pre.llm_channel@[i].epoch < pre.next_epoch);
        }
        if is_local {
            ch.tasks.upsert(task);
        } else {
            ch.task_descriptions.upsert(task);
        }
        let ghost newch = ch;
        self.llm_channel.upsert(ch);
        proof {
            self.lemma_channel_table_wf(pre, before, newch);
            assert(channel_with_task(oldch, newch, task));
        }
        if is_local {
            self.publish_model_status(&model_id, 100, StatusText::Ready, true, true);
            proof {
                assert(self.published.deep_view() =~= pre.published.deep_view()
                    + spec_spawn_task_events(model_id@));
                assert(self.published@.take(pre.published@.len() as int) =~= pre.published@);
            }
        }
        proof {
            assert(self.published@.take(pre.published@.len() as int) =~= pre.published@);
        }
        Ok(())
    }

    /// Drops a task from the worker its stored model id resolves to. The
    /// store's task table itself is left alone.
    pub fn remove_task(&mut self, task_id: String) -> (r: Result<(), AIServiceError>)
        requires
            old(self).wf(),
        ensures
            final(self).wf(),
            remove_task_post(*old(self), *final(self), task_id, r),
    {
        let ghost pre = *old(self);
        let task = match self.db.get_task(&task_id) {
            Some(t) => t,
            None => {
                return Err(AIServiceError::TaskNotFound);
            },
        };
        let model_id = match self.replace_model_variables(&task.model_id) {
            Ok(id) => id,
            Err(e) => {
                return Err(e);
            },
        };
        match self.llm_channel.get(&model_id) {
            None => {
                return Err(AIServiceError::ModelUnavailable);
            },
            Some(ch) => {
                if !ch.alive {
                    return Err(AIServiceError::ModelUnavailable);
                }
            },
        }
        let mut ch = match self.llm_channel.remove(&model_id) {
            Some(c) => c,
            None => {
                proof {
                    assert(false);
                }
                return Err(AIServiceError::ModelUnavailable);
            },
        };
        let ghost oldch = ch;
        let ghost before = self.llm_channel@;
        proof {
            crate::kv::lemma_assoc_mem(pre.llm_channel@, model_id@);
            let i = choose|i: int|
                0 <= i < pre.llm_channel@.len() && pre.llm_channel@[i] == oldch
                    && oldch.key_spec() == model_id@;
            assert(pre.llm_channel@[i].wf());
            assert(pre.llm_channel@[i].epoch < pre.next_epoch);
        }
        let _ = ch.tasks.remove(&task_id);
        let _ = ch.task_descriptions.remove(&task_id);
        let ghost newch = ch;
        self.llm_channel.upsert(ch);
        proof {
            self.lemma_channel_table_wf(pre, before, newch);
            assert(channel_without_task(oldch, newch, task_id@));
        }
        Ok(())
    }

    /// Creates a task: persists it under a fresh id, then materializes it in
    /// the worker its model id resolves to, and returns the stored task.
    pub fn add_task(&mut self, task: AITaskInput) -> (r: Result<AITask, AIServiceError>)
        requires
            old(self).wf(),
            old(self).db.next_id < u64::MAX,
        ensures
            final(self).wf(),
            add_task_post(*old(self), *final(self), task, r),
    {
        let id = self.db.add_task(&task);
        let stored = match self.db.get_task(&id) {
            Some(t) => t,
            None => {
                proof {
                    assert(false);
                }
                return Err(AIServiceError::TaskNotFound);
            },
        };
        match self.spawn_task(stored.duplicate()) {
            Ok(_) => Ok(stored),
            Err(e) => Err(e),
        }
    }

    /// Updates a task: replaces its store row, removes the old binding from
    /// its worker, and materializes the new one. Returns the stored task.
    pub fn update_task(&mut self, task: AITask) -> (r: Result<AITask, AIServiceError>)
        requires
            old(self).wf(),
        ensures
            final(self).wf(),
            update_task_post(*old(self), *final(self), task, r),
    {
        let existed = self.db.update_task(&task);
        if !existed {
            return Err(AIServiceError::TaskNotFound);
        }
        match self.remove_task(task.task_id.clone()) {
            Ok(_) => {},
            Err(e) => {
                return Err(e);
            },
        }
        let updated = match self.db.get_task(&task.task_id) {
            Some(t) => t,
            None => {
                proof {
                    assert(false);
                }
                return Err(AIServiceError::TaskNotFound);
            },
        };
        match self.spawn_task(updated.duplicate()) {
            Ok(_) => Ok(updated),
            Err(e) => {
                proof {
                    assert(false);
                }
                Err(e)
            },
        }
    }

    /// Deletes a task: drops it from its worker, then from the store.
    pub fn delete_task(&mut self, task_id: String) -> (r: Result<bool, AIServiceError>)
        requires
            old(self).wf(),
        ensures
            final(self).wf(),
            delete_task_post(*old(self), *final(self), task_id, r),
    {
        match self.remove_task(task_id.clone()) {
            Ok(_) => {},
            Err(e) => {
                return Err(e);
            },
        }
        let _ = self.db.remove_task(&task_id);
        Ok(true)
    }

    /// All stored tasks, in insertion order (copies equal up to the view).
    pub fn get_tasks(&self) -> (r: Vec<AITask>)
        ensures
            r@.len() == self.db.tasks@.len(),
            forall|i: int|
                0 <= i < r@.len() ==> crate::types::task_copy(#[trigger] r@[i], self.db.tasks@[i]),
    {
        self.db.get_tasks()
    }

    /// Dispatches a prompt on a task: resolves the task's stored model id,
    /// finds the live worker, and hands back the job the caller must run
    /// outside — one local inference, or one remote chat call with the full
    /// message list. A local dispatch announces the running inference.
    pub fn prompt(&mut self, task_id: String, prompt_text: String) -> (r: Result<
        PromptJob,
        AIServiceError,
    >)
        requires
            old(self).wf(),
        ensures
            final(self).wf(),
            prompt_post(*old(self), *final(self), task_id, prompt_text, r),
    {
        let task = match self.db.get_task(&task_id) {
            Some(t) => t,
            None => {
                return Err(AIServiceError::TaskNotFound);
            },
        };
        let model_id = match self.replace_model_variables(&task.model_id) {
            Ok(id) => id,
            Err(e) => {
                return Err(e);
            },
        };
        let mut is_local = false;
        let mut epoch: u64 = 0;
        let mut spawned = false;
        let mut rm = String::new();
        let mut bu = String::new();
        let mut ak = String::new();
        let mut desc: Option<AITask> = None;
        match self.llm_channel.get(&model_id) {
            None => {
                return Err(AIServiceError::ModelUnavailable);
            },
            Some(ch) => {
                if !ch.alive {
                    return Err(AIServiceError::ModelUnavailable);
                }
                epoch = ch.epoch;
                match &ch.engine {
                    LlmEngine::Local => {
                        is_local = true;
                        spawned = ch.tasks.contains(&task_id);
                    },
                    LlmEngine::Remote { remote_model, base_url, api_key } => {
                        rm = remote_model.clone();
                        bu = base_url.clone();
                        ak = api_key.clone();
                        desc = match ch.task_descriptions.get(&task_id) {
                            Some(d) => Some(d.duplicate()),
                            None => None,
                        };
                    },
                }
            },
        }
        if is_local {
            if !spawned {
                return Err(AIServiceError::TaskNotSpawned);
            }
            self.publish_model_status(&model_id, 100, StatusText::RunningInference, true, true);
            Ok(PromptJob::Local { model_id, epoch, task_id, prompt: prompt_text })
        } else {
            match desc {
                None => Err(AIServiceError::TaskNotSpawned),
                Some(d) => {
                    let messages = crate::llm::build_chat_messages(&d, &prompt_text);
                    Ok(
                        PromptJob::Remote {
                            model_id,
                            epoch,
                            remote_model: rm,
                            base_url: bu,
                            api_key: ak,
                            messages,
                        },
                    )
                },
            }
        }
    }

    /// Applies the outside outcome of a dispatched prompt: local success
    /// reports the worker ready again and yields the text, a crash closes
    /// the worker's mailbox, and a remote reply yields its first choice or
    /// the matching error.
    pub fn complete_prompt(&mut self, job: PromptJob, outcome: PromptOutcome) -> (r: Result<
        String,
        AIServiceError,
    >)
        requires
            old(self).wf(),
            outcome_fits(job, outcome),
        ensures
            final(self).wf(),
            complete_prompt_post(*old(self), *final(self), job, outcome, r),
    {
        let ghost pre = *old(self);
        match job {
            PromptJob::Local { model_id, epoch, .. } => match outcome {
                PromptOutcome::LocalText { text } => {
                    self.publish_model_status(&model_id, 100, StatusText::Ready, true, true);
                    Ok(text)
                },
                PromptOutcome::EngineCrash { .. } => {
                    let matching = match self.llm_channel.get(&model_id) {
                        Some(ch) => ch.epoch == epoch,
                        None => false,
                    };
                    if matching {
                        let mut ch = match self.llm_channel.remove(&model_id) {
                            Some(c) => c,
                            None => {
                                proof {
                                    assert(false);
                                }
                                return Err(AIServiceError::ModelUnavailable);
                            },
                        };
                        let ghost oldch = ch;
                        let ghost before = self.llm_channel@;
                        proof {
                            crate::kv::lemma_assoc_mem(pre.llm_channel@, model_id@);
                            let i = choose|i: int|
                                0 <= i < pre.llm_channel@.len() && pre.llm_channel@[i] == oldch
                                    && oldch.key_spec() == model_id@;
                            assert(pre.llm_channel@[i].wf());
                            assert(pre.llm_channel@[i].epoch < pre.next_epoch);
                        }
                        ch.alive = false;
                        let ghost newch = ch;
                        self.llm_channel.upsert(ch);
                        proof {
                            self.lemma_channel_table_wf(pre, before, newch);
                        }
                    }
                    Err(AIServiceError::ModelUnavailable)
                },
                _ => {
                    proof {
                        assert(false);
                    }
                    Err(AIServiceError::ModelUnavailable)
                },
            },
            PromptJob::Remote { .. } => match outcome {
                PromptOutcome::RemoteChoices { choices } => {
                    if choices.len() > 0 {
                        Ok(choices[0].clone())
                    } else {
                        Err(AIServiceError::RemoteNoChoice)
                    }
                },
                PromptOutcome::RemoteFailure { message } => {
                    let mut m = String::from_str("Error connecting to remote LLM API: ");
                    m.append(message.as_str());
                    Err(AIServiceError::RemoteApiError { message: m })
                },
                _ => {
                    proof {
                        assert(false);
                    }
                    Err(AIServiceError::ModelUnavailable)
                },
            },
        }
    }

    /// Checks that the embedding worker a request would go to can take it.
    /// Embedding mailboxes are keyed by the model's name, so callers pass
    /// the name here; the request itself, and its vector reply, travel on
    /// the mailbox outside.
    pub fn embed(&self, model_id: &String) -> (r: Result<(), AIServiceError>)
        ensures
            match assoc(self.embedding_channel@, model_id@) {
                Some(ch) => if ch.alive {
                    r is Ok
                } else {
                    r == Err::<(), _>(AIServiceError::ModelUnavailable)
                },
                None => r == Err::<(), _>(AIServiceError::ModelUnavailable),
            },
    {
        match self.embedding_channel.get(model_id) {
            Some(ch) => if ch.alive {
                Ok(())
            } else {
                Err(AIServiceError::ModelUnavailable)
            },
            None => Err(AIServiceError::ModelUnavailable),
        }
    }

    /// The status row of a model, which mirrors the last published event.
    pub fn model_status(&self, model_id: String) -> (r: Result<
        AIModelLoadingStatus,
        AIServiceError,
    >)
        ensures
            match r {
                Ok(s) => self.db.statuses.spec_get(model_id@) == Some(s),
                Err(e) => self.db.statuses.spec_get(model_id@) is None && e
                    == AIServiceError::ModelNotFound,
            },
    {
        match self.db.get_model_status(&model_id) {
            Some(s) => Ok(s),
            None => Err(AIServiceError::ModelNotFound),
        }
    }

    /// Opens a transcription stream: the caller reports in `build` what the
    /// outside transcriber construction did. On success a session is
    /// registered under a fresh stream id, which is returned; a failed build
    /// registers nothing and surfaces the builder's message.
    pub fn open_transcription_stream(&mut self, model_id: String, build: EngineBuild) -> (r:
        Result<String, AIServiceError>)
        requires
            old(self).wf(),
        ensures
            final(self).wf(),
            match build {
                EngineBuild::Failure { message } => *final(self) == *old(self) && r == Err::<
                    String,
                    _,
                >(AIServiceError::BuildFailed { message }),
                EngineBuild::Success => match r {
                    Ok(id) => {
                        &&& id@.len() == 36
                        &&& match assoc(final(self).transcription_streams@, id@) {
                            Some(s) => s.stream_id == id && s.alive && s.fed_chunks == 0,
                            None => false,
                        }
                        &&& forall|k: Seq<char>|
                            k != id@ ==> assoc(final(self).transcription_streams@, k) == assoc(
                                old(self).transcription_streams@,
                                k,
                            )
                        &&& final(self).db == old(self).db
                        &&& final(self).llm_channel == old(self).llm_channel
                        &&& final(self).embedding_channel == old(self).embedding_channel
                        &&& final(self).published == old(self).published
                        &&& final(self).transcripts == old(self).transcripts
                        &&& final(self).next_epoch == old(self).next_epoch
                    },
                    Err(_) => false,
                },
            },
    {
        let _ = model_id;
        match build {
            EngineBuild::Failure { message } => Err(AIServiceError::BuildFailed { message }),
            EngineBuild::Success => {
                let id = new_stream_id();
                let session = TranscriptionSession {
                    stream_id: id.clone(),
                    alive: true,
                    fed_chunks: 0,
                };
                self.transcription_streams.upsert(session);
                Ok(id)
            },
        }
    }

    /// Accepts one chunk of samples for a stream: the session must exist and
    /// its worker must still be reading. The samples themselves travel on
    /// the session's sink outside.
    pub fn feed_transcription_stream(&mut self, stream_id: &String) -> (r: Result<
        (),
        AIServiceError,
    >)
        requires
            old(self).wf(),
        ensures
            final(self).wf(),
            match assoc(old(self).transcription_streams@, stream_id@) {
                None => r == Err::<(), _>(AIServiceError::StreamNotFound) && *final(self) == *old(
                    self,
                ),
                Some(s) => if !s.alive {
                    r == Err::<(), _>(AIServiceError::StreamClosed) && *final(self) == *old(self)
                } else {
                    &&& r is Ok
                    &&& match assoc(final(self).transcription_streams@, stream_id@) {
                        Some(n) => {
                            &&& n.stream_id == s.stream_id
                            &&& n.alive
                            &&& n.fed_chunks == (if s.fed_chunks < u64::MAX {
                                s.fed_chunks + 1
                            } else {
                                s.fed_chunks as int
                            })
                        },
                        None => false,
                    }
                    &&& forall|k: Seq<char>|
                        k != stream_id@ ==> assoc(final(self).transcription_streams@, k) == assoc(
                            old(self).transcription_streams@,
                            k,
                        )
                    &&& final(self).db == old(self).db
                    &&& final(self).llm_channel == old(self).llm_channel
                    &&& final(self).embedding_channel == old(self).embedding_channel
                    &&& final(self).published == old(self).published
                    &&& final(self).transcripts == old(self).transcripts
                    &&& final(self).next_epoch == old(self).next_epoch
                },
            },
    {
        match self.transcription_streams.get(stream_id) {
            None => {
                return Err(AIServiceError::StreamNotFound);
            },
            Some(s) => {
                if !s.alive {
                    return Err(AIServiceError::StreamClosed);
                }
            },
        }
        let ghost pre = *self;
        let mut session = match self.transcription_streams.remove(stream_id) {
            Some(s) => s,
            None => {
                proof {
                    assert(false);
                }
                return Err(AIServiceError::StreamNotFound);
            },
        };
        if session.fed_chunks < u64::MAX {
            session.fed_chunks = session.fed_chunks + 1;
        }
        proof {
            crate::kv::lemma_assoc_mem(pre.transcription_streams@, stream_id@);
        }
        self.transcription_streams.upsert(session);
        Ok(())
    }

    /// Closes a transcription stream: the session is dropped either way; if
    /// its worker had already died, the drop signal cannot be delivered and
    /// the crash is reported.
    pub fn close_transcription_stream(&mut self, stream_id: &String) -> (r: Result<
        (),
        AIServiceError,
    >)
        requires
            old(self).wf(),
        ensures
            final(self).wf(),
            close_stream_post(*old(self), *final(self), *stream_id, r),
    {
        match self.transcription_streams.remove(stream_id) {
            None => Err(AIServiceError::StreamNotFound),
            Some(s) => {
                if s.alive {
                    Ok(())
                } else {
                    let mut m = String::from_str("Failed to close stream ");
                    m.append(stream_id.as_str());
                    m.append(": Whisper thread may have crashed");
                    Err(AIServiceError::SessionCrashed { message: m })
                }
            },
        }
    }

    /// Publishes one transcript segment of a stream on the transcription
    /// topic. The worker calls this for each segment it emits.
    pub fn transcription_segment(&mut self, stream_id: &String, text: String)
        requires
            old(self).wf(),
        ensures
            final(self).wf(),
            final(self).transcripts@ == old(self).transcripts@.push(
                (TranscriptionText { stream_id: *stream_id, text: text }),
            ),
            final(self).db == old(self).db,
            final(self).llm_channel == old(self).llm_channel,
            final(self).embedding_channel == old(self).embedding_channel,
            final(self).transcription_streams == old(self).transcription_streams,
            final(self).published == old(self).published,
            final(self).next_epoch == old(self).next_epoch,
    {
        self.transcripts.push(TranscriptionText { stream_id: stream_id.clone(), text });
    }

    /// Records that a stream's transcriber worker died: the session stays in
    /// the table, but no longer accepts samples, and closing it reports the
    /// crash.
    pub fn fail_transcription_worker(&mut self, stream_id: &String)
        requires
            old(self).wf(),
        ensures
            final(self).wf(),
            match assoc(old(self).transcription_streams@, stream_id@) {
                None => *final(self) == *old(self),
                Some(s) => {
                    &&& match assoc(final(self).transcription_streams@, stream_id@) {
                        Some(n) => n.stream_id == s.stream_id && !n.alive && n.fed_chunks
                            == s.fed_chunks,
                        None => false,
                    }
                    &&& forall|k: Seq<char>|
                        k != stream_id@ ==> assoc(final(self).transcription_streams@, k) == assoc(
                            old(self).transcription_streams@,
                            k,
                        )
                    &&& final(self).db == old(self).db
                    &&& final(self).llm_channel == old(self).llm_channel
                    &&& final(self).embedding_channel == old(self).embedding_channel
                    &&& final(self).published == old(self).published
                    &&& final(self).transcripts == old(self).transcripts
                    &&& final(self).next_epoch == old(self).next_epoch
                },
            },
    {
        match self.transcription_streams.get(stream_id) {
            None => {},
            Some(_) => {
                let mut session = match self.transcription_streams.remove(stream_id) {
                    Some(s) => s,
                    None => {
                        proof {
                            assert(false);
                        }
                        return ;
                    },
                };
                proof {
                    crate::kv::lemma_assoc_mem(old(self).transcription_streams@, stream_id@);
                }
                session.alive = false;
                self.transcription_streams.upsert(session);
            },
        }
    }

    /// Persists a new model and spawns its worker, reporting in `build` what
    /// the outside engine construction did. Returns the fresh id; the model
    /// is stored even where the spawn is refused.
    pub fn add_model(&mut self, model: ModelInput, build: EngineBuild) -> (r: Result<
        String,
        AIServiceError,
    >)
        requires
            old(self).wf(),
            old(self).db.next_id < u64::MAX,
            old(self).next_epoch < u64::MAX,
        ensures
            final(self).wf(),
            exists|mid: AIService|
                {
                    &&& #[trigger] db_model_added(*old(self), mid, model)
                    &&& match r {
                        Ok(id) => id == mid.db.models@.last().id && init_model_post(
                            mid,
                            *final(self),
                            mid.db.models@.last(),
                            build,
                            Ok(()),
                        ),
                        Err(e) => init_model_post(
                            mid,
                            *final(self),
                            mid.db.models@.last(),
                            build,
                            Err(e),
                        ),
                    }
                },
    {
        let ghost pre = *old(self);
        let id = self.db.add_model(&model);
        let stored = match self.db.get_model(&id) {
            Some(m) => m,
            None => {
                proof {
                    assert(false);
                }
                return Err(AIServiceError::ModelNotFound);
            },
        };
        let ghost mid = *self;
        proof {
            assert(db_model_added(pre, mid, model));
        }
        match self.init_model(stored, build) {
            Ok(_) => Ok(id),
            Err(e) => Err(e),
        }
    }

    /// Removes a model: a language model's worker is told to shut down and
    /// its mailbox dropped, then the store row goes. Other families keep
    /// their workers.
    pub fn remove_model(&mut self, model_id: String) -> (r: Result<(), AIServiceError>)
        requires
            old(self).wf(),
        ensures
            final(self).wf(),
            remove_model_post(*old(self), *final(self), model_id, r),
    {
        let ghost pre = *old(self);
        let existing = match self.db.get_model(&model_id) {
            Some(m) => m,
            None => {
                return Err(AIServiceError::ModelNotFound);
            },
        };
        if existing.model_type == ModelType::Llm {
            let mut present = false;
            let mut alive = false;
            match self.llm_channel.get(&model_id) {
                None => {},
                Some(ch) => {
                    present = true;
                    alive = ch.alive;
                },
            }
            if present {
                if alive {
                    self.publish_model_status(
                        &model_id,
                        100,
                        StatusText::ShuttingDown,
                        true,
                        false,
                    );
                }
                let removed = self.llm_channel.remove(&model_id);
                proof {
                    if removed is Some {
                        let i = choose|i: int|
                            0 <= i < pre.llm_channel@.len() && pre.llm_channel@[i].key_spec()
                                == model_id@ && self.llm_channel@ == pre.llm_channel@.remove(i);
                        assert forall|x: int|
                            0 <= x < self.llm_channel@.len() implies (
                        #[trigger] self.llm_channel@[x]).wf() && self.llm_channel@[x].epoch
                            < self.next_epoch by {
                            let x0 = if x < i {
                                x
                            } else {
                                x + 1
                            };
                            assert(self.llm_channel@[x] == pre.llm_channel@[x0]);
                        }
                    }
                }
            }
        }
        let _ = self.db.remove_model(&model_id);
        Ok(())
    }

    /// Nominates the default model of a kind. Only the language-model
    /// default is observed: every stored task naming the sentinel is then
    /// re-materialized on the nominated worker.
    pub fn set_default_model(&mut self, model_type: ModelType, model_id: String) -> (r: Result<
        (),
        AIServiceError,
    >)
        requires
            old(self).wf(),
        ensures
            final(self).wf(),
            set_default_model_post(*old(self), *final(self), model_type, model_id, r),
    {
        let ghost pre = *old(self);
        proof {
            assert(pre.published@.take(pre.published@.len() as int) =~= pre.published@);
        }
        if model_type != ModelType::Llm {
            return Ok(());
        }
        self.db.set_default_model(model_type, &model_id);
        let ghost mid0 = *self;
        let tasks = self.db.get_tasks();
        let n = tasks.len();
        let mut i: usize = 0;
        while i < n
            invariant
                self.wf(),
                pre == *old(self),
                model_type == ModelType::Llm,
                n == tasks@.len(),
                i <= n,
                tasks@.len() == self.db.tasks@.len(),
                forall|j: int|
                    0 <= j < n ==> crate::types::task_copy(#[trigger] tasks@[j], self.db.tasks@[j]),
                self.db.default_llm == Some(model_id),
                self.db.models == pre.db.models,
                self.db.tasks == pre.db.tasks,
                self.db.next_id == pre.db.next_id,
                self.published@.len() >= pre.published@.len(),
                self.published@.take(pre.published@.len() as int) == pre.published@,
                forall|k: Seq<char>|
                    k != model_id@ ==> assoc(self.llm_channel@, k) == assoc(pre.llm_channel@, k),
                forall|k: Seq<char>|
                    k != model_id@ ==> assoc(self.db.statuses@, k) == assoc(pre.db.statuses@, k),
                self.embedding_channel == pre.embedding_channel,
                self.transcription_streams == pre.transcription_streams,
                self.transcripts == pre.transcripts,
                self.next_epoch == pre.next_epoch,
                match (assoc(pre.llm_channel@, model_id@), assoc(self.llm_channel@, model_id@)) {
                    (Some(p), Some(c)) => c.alive == p.alive,
                    (None, None) => true,
                    _ => false,
                },
                (match assoc(pre.llm_channel@, model_id@) {
                    None => *self == mid0,
                    Some(ch) => !ch.alive ==> *self == mid0,
                }),
                mid0.llm_channel == pre.llm_channel,
                mid0.published == pre.published,
                mid0.db.statuses == pre.db.statuses,
                forall|j: int|
                    0 <= j < i && (#[trigger] tasks@[j]).model_id@ == "default"@ ==> match assoc(
                        self.llm_channel@,
                        model_id@,
                    ) {
                        Some(ch) => ch.serves_task(tasks@[j].task_id@),
                        None => false,
                    },
            decreases n - i,
        {
            if crate::llm::str_eq(&tasks[i].model_id, "default") {
                let t = tasks[i].duplicate();
                let ghost it_pre = *self;
                match self.spawn_task(t) {
                    Ok(_) => {},
                    Err(e) => {
                        proof {
                            assert(model_type == ModelType::Llm);
                            assert(spec_resolved_model_id(it_pre, t.model_id) == Some(model_id));
                            assert(spec_task_route(it_pre, t.model_id) is Unavailable);
                            assert(*self == it_pre);
                            assert(*self == mid0);
                            assert(match assoc(it_pre.llm_channel@, model_id@) {
                                None => true,
                                Some(ch) => !ch.alive,
                            });
                            assert(match assoc(pre.llm_channel@, model_id@) {
                                None => true,
                                Some(ch) => !ch.alive,
                            });
                            assert(e == AIServiceError::ModelUnavailable);
                        }
                        return Err(e);
                    },
                }
            }
            i = i + 1;
        }
        proof {
            assert forall|j: int|
                0 <= j < self.db.tasks@.len() && (#[trigger] self.db.tasks@[j]).model_id@
                    == "default"@ implies match assoc(self.llm_channel@, model_id@) {
                Some(ch) => ch.serves_task(self.db.tasks@[j].task_id@),
                None => false,
            } by {
                assert(crate::types::task_copy(tasks@[j], self.db.tasks@[j]));
            }
        }
        Ok(())
    }

    /// Updates a model's configuration. For a language model the old worker
    /// is shut down and its mailbox dropped, a fresh worker is spawned from
    /// the new configuration (the caller reports the engine build in
    /// `build`), and once it is ready every task stored against the id is
    /// re-materialized on it. Other families only have their store row
    /// replaced.
    pub fn update_model(
        &mut self,
        model_id: String,
        model_config: ModelInput,
        build: EngineBuild,
    ) -> (r: Result<(), AIServiceError>)
        requires
            old(self).wf(),
            old(self).next_epoch < u64::MAX,
        ensures
            final(self).wf(),
            update_model_post(*old(self), *final(self), model_id, model_config, build, r),
    {
        let ghost pre = *old(self);
        proof {
            assert(pre.published@.take(pre.published@.len() as int) =~= pre.published@);
        }
        let existing = match self.db.get_model(&model_id) {
            Some(m) => m,
            None => {
                return Err(AIServiceError::ModelNotFound);
            },
        };
        let _ = self.db.update_model(&model_id, &model_config);
        let updated = match self.db.get_model(&model_id) {
            Some(m) => m,
            None => {
                proof {
                    assert(false);
                }
                return Err(AIServiceError::ModelNotFound);
            },
        };
        if !(existing.model_type == ModelType::Llm) {
            return Ok(());
        }
        let mut present = false;
        let mut was_alive = false;
        match self.llm_channel.get(&model_id) {
            None => {},
            Some(ch) => {
                present = true;
                was_alive = ch.alive;
            },
        }
        if present {
            if was_alive {
                self.publish_model_status(&model_id, 100, StatusText::ShuttingDown, true, false);
            }
            let removed = self.llm_channel.remove(&model_id);
            proof {
                if removed is Some {
                    let i = choose|i: int|
                        0 <= i < pre.llm_channel@.len() && pre.llm_channel@[i].key_spec()
                            == model_id@ && self.llm_channel@ == pre.llm_channel@.remove(i);
                    assert forall|x: int|
                        0 <= x < self.llm_channel@.len() implies (
                    #[trigger] self.llm_channel@[x]).wf() && self.llm_channel@[x].epoch
                        < self.next_epoch by {
                        let x0 = if x < i {
                            x
                        } else {
                            x + 1
                        };
                        assert(self.llm_channel@[x] == pre.llm_channel@[x0]);
                    }
                }
            }
        }
        let ghost updated_g = updated;
        let ghost build_g = build;
        let ghost mid1 = *self;
        proof {
            assert(self.published@.take(pre.published@.len() as int) =~= pre.published@);
            assert(self.published.deep_view() =~= pre.published.deep_view()
                + spec_shutdown_events(pre, model_id@));
        }
        match self.spawn_llm_model(updated, build) {
            Ok(_) => {},
            Err(e) => {
                proof {
                    assert(self.published@.take(pre.published@.len() as int) =~= pre.published@);
                }
                return Err(e);
            },
        }
        proof {
            assert(self.published@.take(pre.published@.len() as int) =~= self.published@.take(
                mid1.published@.len() as int,
            ).take(pre.published@.len() as int));
            assert(self.published@.take(pre.published@.len() as int) =~= pre.published@);
            assert(self.published.deep_view() =~= pre.published.deep_view()
                + spec_shutdown_events(pre, model_id@) + spec_spawn_llm_events(
                updated_g,
                build_g,
            ));
        }
        let mut engine_local = false;
        let new_alive: bool;
        match self.llm_channel.get(&model_id) {
            Some(ch) => {
                new_alive = ch.alive;
                engine_local = matches!(ch.engine, LlmEngine::Local);
            },
            None => {
                proof {
                    assert(false);
                }
                new_alive = false;
            },
        }
        if !new_alive {
            return Err(AIServiceError::ModelUnavailable);
        }
        let ghost shutdown_ev = spec_shutdown_events(pre, model_id@);
        let ghost spawn_ev = spec_spawn_llm_events(updated_g, build_g);
        proof {
            assert(pre.db.tasks@.take(0) =~= Seq::<AITask>::empty());
        }
        let tasks = self.db.get_tasks();
        let n = tasks.len();
        let mut i: usize = 0;
        while i < n
            invariant
                self.wf(),
                pre == *old(self),
                i <= n,
                n == tasks@.len(),
                tasks@.len() == self.db.tasks@.len(),
                forall|j: int|
                    0 <= j < n ==> crate::types::task_copy(#[trigger] tasks@[j], self.db.tasks@[j]),
                assoc(pre.db.models@, model_id@) == Some(existing),
                existing.model_type == ModelType::Llm,
                db_model_updated(pre, *self, model_id, model_config),
                updated_g == model_config.spec_with_id(model_id),
                self.published@.len() >= pre.published@.len(),
                self.published@.take(pre.published@.len() as int) == pre.published@,
                self.embedding_channel == pre.embedding_channel,
                self.transcription_streams == pre.transcription_streams,
                self.transcripts == pre.transcripts,
                model_id@ != "default"@ ==> {
                    &&& self.next_epoch == pre.next_epoch + 1
                    &&& spec_spawn_llm_alive(updated_g, build_g)
                    &&& forall|k: Seq<char>|
                        k != model_id@ ==> assoc(self.llm_channel@, k) == assoc(
                            pre.llm_channel@,
                            k,
                        )
                    &&& forall|k: Seq<char>|
                        k != model_id@ ==> assoc(self.db.statuses@, k) == assoc(
                            pre.db.statuses@,
                            k,
                        )
                    &&& match assoc(self.llm_channel@, model_id@) {
                        Some(ch) => {
                            &&& ch.epoch == pre.next_epoch
                            &&& ch.alive
                            &&& (engine_local <==> ch.engine is Local)
                            &&& (updated_g.local is Some <==> ch.engine is Local)
                            &&& forall|j: int|
                                0 <= j < i && (#[trigger] tasks@[j]).model_id@ == model_id@
                                    ==> ch.serves_task(tasks@[j].task_id@)
                        },
                        None => false,
                    }
                    &&& self.published.deep_view() == pre.published.deep_view() + shutdown_ev
                        + spawn_ev + (if updated_g.local is Some {
                        spec_respawn_events(pre.db.tasks@.take(i as int), model_id@)
                    } else {
                        Seq::empty()
                    })
                },
            decreases n - i,
        {
            let matching = tasks[i].model_id == model_id;
            if matching {
                let t = tasks[i].duplicate();
                let ghost it_pre = *self;
                match self.spawn_task(t) {
                    Ok(_) => {
                        proof {
                            if model_id@ != "default"@ {
                                lemma_respawn_events_take(pre.db.tasks@, model_id@, i as int);
                                assert(self.published@.take(pre.published@.len() as int)
                                    =~= it_pre.published@.take(pre.published@.len() as int));
                            }
                        }
                    },
                    Err(e) => {
                        proof {
                            if model_id@ != "default"@ {
                                assert(spec_resolved_model_id(it_pre, t.model_id) == Some(
                                    t.model_id,
                                ));
                                assert(spec_task_route(it_pre, t.model_id) is To);
                                assert(false);
                            }
                        }
                        return Err(e);
                    },
                }
            } else {
                proof {
                    if model_id@ != "default"@ {
                        lemma_respawn_events_take(pre.db.tasks@, model_id@, i as int);
                    }
                }
            }
            i = i + 1;
        }
        proof {
            assert(pre.db.tasks@.take(n as int) =~= pre.db.tasks@);
            if model_id@ != "default"@ {
                assert forall|j: int|
                    0 <= j < self.db.tasks@.len() && (#[trigger] self.db.tasks@[j]).model_id@
                        == model_id@ implies match assoc(self.llm_channel@, model_id@) {
                    Some(ch) => ch.serves_task(self.db.tasks@[j].task_id@),
                    None => false,
                } by {
                    assert(crate::types::task_copy(tasks@[j], self.db.tasks@[j]));
                }
            }
        }
        Ok(())
    }

    /// Loads the service from the store: initializes every persisted model
    /// (on an empty store, bootstraps a default embedding model so an
    /// embedder is always available), then materializes every stored task on
    /// its worker. The caller reports each model's engine build in `builds`;
    /// one model's failure never stops the batch, but a task that cannot be
    /// routed does.
    pub fn load(&mut self, builds: &KvList<BuildReport>) -> (r: Result<(), AIServiceError>)
        requires
            old(self).wf(),
            old(self).next_epoch as int + old(self).db.models@.len() + 1 <= u64::MAX as int,
        ensures
            final(self).wf(),
            load_post(*old(self), *final(self), builds@, r),
    {
        let ghost pre = *old(self);
        proof {
            assert(pre.published@.take(pre.published@.len() as int) =~= pre.published@);
        }
        let models = self.db.get_models();
        if models.len() == 0 {
            let bert = Model {
                id: String::from_str("bert-id"),
                name: String::from_str("bert"),
                model_type: ModelType::Embedding,
                local: Some(
                    LocalModel {
                        file_name: String::from_str("bert"),
                        tokenizer_source: None,
                        huggingface_repo: None,
                        revision: None,
                    },
                ),
                api: None,
            };
            let b = build_for(builds, &bert.id);
            let _ = self.init_model(bert, b);
        } else {
            let n = models.len();
            let mut i: usize = 0;
            while i < n
                invariant
                    self.wf(),
                    pre == *old(self),
                    i <= n,
                    n == models@.len(),
                    models@ == pre.db.models@,
                    n > 0,
                    self.db.models == pre.db.models,
                    self.db.tasks == pre.db.tasks,
                    self.db.default_llm == pre.db.default_llm,
                    self.db.next_id == pre.db.next_id,
                    self.published@.len() >= pre.published@.len(),
                    self.published@.take(pre.published@.len() as int) == pre.published@,
                    self.transcription_streams == pre.transcription_streams,
                    self.transcripts == pre.transcripts,
                    self.next_epoch as int <= pre.next_epoch as int + i,
                    pre.next_epoch as int + n + 1 <= u64::MAX as int,
                    forall|j: int|
                        0 <= j < i && ((#[trigger] pre.db.models@[j]).model_type
                            != ModelType::Llm || pre.db.models@[j].local is Some
                            || pre.db.models@[j].api is Some) ==> match assoc(
                            self.db.statuses@,
                            pre.db.models@[j].id@,
                        ) {
                            Some(row) => {
                                &&& row@.model == pre.db.models@[j].id@
                                &&& row@.downloaded
                                &&& pre.db.models@[j].model_type == ModelType::Llm ==> (
                                row@.loaded || row@.status matches StatusTextV::FailedToBuildLlm {
                                    ..
                                })
                            },
                            None => false,
                        },
                    forall|j: int|
                        0 <= j < i && (#[trigger] pre.db.models@[j]).model_type == ModelType::Llm
                            && (pre.db.models@[j].local is Some || pre.db.models@[j].api is Some)
                            ==> match assoc(self.llm_channel@, pre.db.models@[j].id@) {
                            Some(ch) => ch.alive == spec_spawn_llm_alive(
                                pre.db.models@[j],
                                spec_build_for(builds@, pre.db.models@[j].id@),
                            ),
                            None => false,
                        },
                decreases n - i,
            {
                let m = models[i].duplicate();
                let b = build_for(builds, &m.id);
                let ghost it_pre = *self;
                let _ = self.init_model(m, b);
                proof {
                    assert(self.published@.take(pre.published@.len() as int)
                        =~= it_pre.published@.take(pre.published@.len() as int));
                }
                i = i + 1;
            }
        }
        let tasks = self.db.get_tasks();
        let n2 = tasks.len();
        let mut i2: usize = 0;
        while i2 < n2
            invariant
                self.wf(),
                pre == *old(self),
                i2 <= n2,
                n2 == tasks@.len(),
                tasks@.len() == self.db.tasks@.len(),
                forall|j: int|
                    0 <= j < n2 ==> crate::types::task_copy(
                        #[trigger] tasks@[j],
                        self.db.tasks@[j],
                    ),
                self.db.models == pre.db.models,
                self.db.tasks == pre.db.tasks,
                self.db.default_llm == pre.db.default_llm,
                self.db.next_id == pre.db.next_id,
                self.published@.len() >= pre.published@.len(),
                self.published@.take(pre.published@.len() as int) == pre.published@,
                self.transcription_streams == pre.transcription_streams,
                self.transcripts == pre.transcripts,
                if pre.db.models@.len() == 0 {
                    &&& match assoc(self.embedding_channel@, "bert"@) {
                        Some(ch) => ch.alive == (spec_build_for(builds@, "bert-id"@) is Success),
                        None => false,
                    }
                    &&& match assoc(self.db.statuses@, "bert-id"@) {
                        Some(row) => row@.model == "bert-id"@ && row@.downloaded,
                        None => false,
                    }
                    &&& pre.db.tasks@.len() == 0 ==> self.published.deep_view()
                        == pre.published.deep_view() + spec_loading_events("bert-id"@)
                } else {
                    &&& forall|j: int|
                        0 <= j < pre.db.models@.len() && ((
                        #[trigger] pre.db.models@[j]).model_type != ModelType::Llm
                            || pre.db.models@[j].local is Some || pre.db.models@[j].api is Some)
                            ==> match assoc(self.db.statuses@, pre.db.models@[j].id@) {
                            Some(row) => {
                                &&& row@.model == pre.db.models@[j].id@
                                &&& row@.downloaded
                                &&& pre.db.models@[j].model_type == ModelType::Llm ==> (
                                row@.loaded || row@.status matches StatusTextV::FailedToBuildLlm {
                                    ..
                                })
                            },
                            None => false,
                        }
                    &&& forall|j: int|
                        0 <= j < pre.db.models@.len() && (#[trigger] pre.db.models@[j]).model_type
                            == ModelType::Llm && (pre.db.models@[j].local is Some
                            || pre.db.models@[j].api is Some) ==> match assoc(
                            self.llm_channel@,
                            pre.db.models@[j].id@,
                        ) {
                            Some(ch) => ch.alive == spec_spawn_llm_alive(
                                pre.db.models@[j],
                                spec_build_for(builds@, pre.db.models@[j].id@),
                            ),
                            None => false,
                        }
                },
                forall|j: int| 0 <= j < i2 ==> task_served(*self, #[trigger] tasks@[j]),
            decreases n2 - i2,
        {
            let t = tasks[i2].duplicate();
            match self.spawn_task(t) {
                Ok(_) => {},
                Err(e) => {
                    return Err(e);
                },
            }
            i2 = i2 + 1;
        }
        proof {
            assert forall|j: int| 0 <= j < self.db.tasks@.len() implies task_served(
                *self,
                #[trigger] self.db.tasks@[j],
            ) by {
                assert(crate::types::task_copy(tasks@[j], self.db.tasks@[j]));
                assert(task_served(*self, tasks@[j]));
            }
        }
        Ok(())
    }

    /// After an upsert of a well-formed channel with a used epoch, the worker
    /// table invariants still hold.
    proof fn lemma_channel_table_wf(
        self,
        pre: AIService,
        before: Seq<LlmChannel>,
        channel: LlmChannel,
    )
        requires
            forall|i: int| 0 <= i < before.len() ==> (#[trigger] before[i]).wf(),
            forall|i: int|
                0 <= i < before.len() ==> (#[trigger] before[i]).epoch < self.next_epoch,
            channel.wf(),
            channel.epoch < self.next_epoch,
            self.llm_channel@ == before.push(channel) || exists|i: int|
                0 <= i < before.len() && self.llm_channel@ == before.update(i, channel),
        ensures
            forall|i: int|
                0 <= i < self.llm_channel@.len() ==> (#[trigger] self.llm_channel@[i]).wf(),
            forall|i: int|
                0 <= i < self.llm_channel@.len() ==> (#[trigger] self.llm_channel@[i]).epoch
                    < self.next_epoch,
    {
        if self.llm_channel@ == before.push(channel) {
            assert forall|i: int| 0 <= i < self.llm_channel@.len() implies (
            #[trigger] self.llm_channel@[i]).wf() && self.llm_channel@[i].epoch
                < self.next_epoch by {
                if i < before.len() {
                    assert(self.llm_channel@[i] == before[i]);
                } else {
                    assert(self.llm_channel@[i] == channel);
                }
            }
        } else {
            let j = choose|j: int|
                0 <= j < before.len() && self.llm_channel@ == before.update(j, channel);
            assert forall|i: int| 0 <= i < self.llm_channel@.len() implies (
            #[trigger] self.llm_channel@[i]).wf() && self.llm_channel@[i].epoch
                < self.next_epoch by {
                if i != j {
                    assert(self.llm_channel@[i] == before[i]);
                } else {
                    assert(self.llm_channel@[i] == channel);
                }
            }
        }
    }
}

} // verus!
