//! The data model: model configurations, prompting tasks, and the status
//! events published on the model-loading topic, together with their
//! mathematical views.

use vstd::prelude::*;
use crate::kv::Keyed;

verus! {

/// The family of a model: large language model, text embedder, or
/// speech-to-text transcriber.
#[derive(Clone, Copy, PartialEq, Eq, Structural, Debug)]
pub enum ModelType {
    Llm,
    Embedding,
    Transcription,
}

/// Where the tokenizer of a local model comes from.
#[derive(Debug)]
pub struct TokenizerSource {
    pub repo: String,
    pub revision: String,
    pub file_name: String,
}

/// The mathematical content of a tokenizer source.
pub ghost struct TokenizerSourceV {
    pub repo: Seq<char>,
    pub revision: Seq<char>,
    pub file_name: Seq<char>,
}

impl View for TokenizerSource {
    type V = TokenizerSourceV;

    open spec fn view(&self) -> TokenizerSourceV {
        TokenizerSourceV {
            repo: self.repo@,
            revision: self.revision@,
            file_name: self.file_name@,
        }
    }
}

impl DeepView for TokenizerSource {
    type V = TokenizerSourceV;

    open spec fn deep_view(&self) -> TokenizerSourceV {
        self.view()
    }
}

impl TokenizerSource {
    /// An equal copy.
    pub fn duplicate(&self) -> (r: Self)
        ensures
            r == *self,
    {
        TokenizerSource {
            repo: self.repo.clone(),
            revision: self.revision.clone(),
            file_name: self.file_name.clone(),
        }
    }
}

/// The weights descriptor of a locally hosted model.
#[derive(Debug)]
pub struct LocalModel {
    pub file_name: String,
    pub tokenizer_source: Option<TokenizerSource>,
    pub huggingface_repo: Option<String>,
    pub revision: Option<String>,
}

/// An equal copy of an optional string.
pub fn copy_opt_string(s: &Option<String>) -> (r: Option<String>)
    ensures
        r == *s,
{
    match s {
        Some(x) => Some(x.clone()),
        None => None,
    }
}

/// The mathematical content of a local weights descriptor.
pub ghost struct LocalModelV {
    pub file_name: Seq<char>,
    pub tokenizer_source: Option<TokenizerSourceV>,
    pub huggingface_repo: Option<Seq<char>>,
    pub revision: Option<Seq<char>>,
}

impl View for LocalModel {
    type V = LocalModelV;

    open spec fn view(&self) -> LocalModelV {
        LocalModelV {
            file_name: self.file_name@,
            tokenizer_source: self.tokenizer_source.deep_view(),
            huggingface_repo: self.huggingface_repo.deep_view(),
            revision: self.revision.deep_view(),
        }
    }
}

impl DeepView for LocalModel {
    type V = LocalModelV;

    open spec fn deep_view(&self) -> LocalModelV {
        self.view()
    }
}

impl LocalModel {
    /// An equal copy.
    pub fn duplicate(&self) -> (r: Self)
        ensures
            r == *self,
    {
        LocalModel {
            file_name: self.file_name.clone(),
            tokenizer_source: match &self.tokenizer_source {
                Some(t) => Some(t.duplicate()),
                None => None,
            },
            huggingface_repo: copy_opt_string(&self.huggingface_repo),
            revision: copy_opt_string(&self.revision),
        }
    }
}

/// A remote chat API backing.
#[derive(Debug)]
pub struct ApiModel {
    pub base_url: String,
    pub api_key: String,
    pub model: String,
}

impl ApiModel {
    /// An equal copy.
    pub fn duplicate(&self) -> (r: Self)
        ensures
            r == *self,
    {
        ApiModel {
            base_url: self.base_url.clone(),
            api_key: self.api_key.clone(),
            model: self.model.clone(),
        }
    }
}

/// A model configuration persisted in the store.
#[derive(Debug)]
pub struct Model {
    pub id: String,
    pub name: String,
    pub model_type: ModelType,
    pub local: Option<LocalModel>,
    pub api: Option<ApiModel>,
}

impl Keyed for Model {
    open spec fn key_spec(&self) -> Seq<char> {
        self.id@
    }

    fn key(&self) -> (r: &String) {
        &self.id
    }
}

impl Model {
    /// An equal copy.
    pub fn duplicate(&self) -> (r: Self)
        ensures
            r == *self,
    {
        Model {
            id: self.id.clone(),
            name: self.name.clone(),
            model_type: self.model_type,
            local: match &self.local {
                Some(l) => Some(l.duplicate()),
                None => None,
            },
            api: match &self.api {
                Some(a) => Some(a.duplicate()),
                None => None,
            },
        }
    }
}

/// Input for creating or updating a model; the store assigns the id.
#[derive(Debug)]
pub struct ModelInput {
    pub name: String,
    pub model_type: ModelType,
    pub local: Option<LocalModel>,
    pub api: Option<ApiModel>,
}

impl ModelInput {
    /// An equal copy.
    pub fn duplicate(&self) -> (r: Self)
        ensures
            r == *self,
    {
        ModelInput {
            name: self.name.clone(),
            model_type: self.model_type,
            local: match &self.local {
                Some(l) => Some(l.duplicate()),
                None => None,
            },
            api: match &self.api {
                Some(a) => Some(a.duplicate()),
                None => None,
            },
        }
    }

    /// The persisted model this input makes under id `id`.
    pub open spec fn spec_with_id(self, id: String) -> Model {
        Model {
            id: id,
            name: self.name,
            model_type: self.model_type,
            local: self.local,
            api: self.api,
        }
    }

    /// Builds the persisted model for id `id`.
    pub fn with_id(&self, id: String) -> (r: Model)
        ensures
            r == self.spec_with_id(id),
    {
        let d = self.duplicate();
        Model { id, name: d.name, model_type: d.model_type, local: d.local, api: d.api }
    }
}

/// One example exchange bound to a task.
#[derive(Debug)]
pub struct AIPromptExamples {
    pub input: String,
    pub output: String,
}

/// The mathematical content of one example exchange.
pub ghost struct AIPromptExamplesV {
    pub input: Seq<char>,
    pub output: Seq<char>,
}

impl View for AIPromptExamples {
    type V = AIPromptExamplesV;

    open spec fn view(&self) -> AIPromptExamplesV {
        AIPromptExamplesV { input: self.input@, output: self.output@ }
    }
}

impl DeepView for AIPromptExamples {
    type V = AIPromptExamplesV;

    open spec fn deep_view(&self) -> AIPromptExamplesV {
        self.view()
    }
}

impl AIPromptExamples {
    /// An equal copy.
    pub fn duplicate(&self) -> (r: Self)
        ensures
            r == *self,
    {
        AIPromptExamples { input: self.input.clone(), output: self.output.clone() }
    }
}

/// An equal copy of a list of examples.
pub fn copy_examples(v: &Vec<AIPromptExamples>) -> (r: Vec<AIPromptExamples>)
    ensures
        r@ == v@,
{
    let mut out: Vec<AIPromptExamples> = Vec::new();
    let n = v.len();
    let mut i: usize = 0;
    while i < n
        invariant
            n == v@.len(),
            i <= n,
            out@ =~= v@.subrange(0, i as int),
        decreases n - i,
    {
        out.push(v[i].duplicate());
        proof {
            assert(out@ =~= v@.subrange(0, i as int + 1));
        }
        i = i + 1;
    }
    proof {
        assert(out@ =~= v@);
    }
    out
}

/// A task: a system prompt plus example exchanges pinned to a model id.
#[derive(Debug)]
pub struct AITask {
    pub task_id: String,
    pub name: String,
    pub model_id: String,
    pub system_prompt: String,
    pub prompt_examples: Vec<AIPromptExamples>,
    pub meta_data: Option<String>,
}

/// The mathematical content of a task.
pub ghost struct AITaskV {
    pub task_id: Seq<char>,
    pub name: Seq<char>,
    pub model_id: Seq<char>,
    pub system_prompt: Seq<char>,
    pub prompt_examples: Seq<AIPromptExamplesV>,
    pub meta_data: Option<Seq<char>>,
}

impl AITaskV {
    /// Everything about a task but its identity: what the task materializes
    /// to inside a worker.
    pub open spec fn body(self) -> AITaskV {
        AITaskV { task_id: Seq::empty(), ..self }
    }
}

impl View for AITask {
    type V = AITaskV;

    open spec fn view(&self) -> AITaskV {
        AITaskV {
            task_id: self.task_id@,
            name: self.name@,
            model_id: self.model_id@,
            system_prompt: self.system_prompt@,
            prompt_examples: self.prompt_examples.deep_view(),
            meta_data: self.meta_data.deep_view(),
        }
    }
}

impl DeepView for AITask {
    type V = AITaskV;

    open spec fn deep_view(&self) -> AITaskV {
        self.view()
    }
}

impl Keyed for AITask {
    open spec fn key_spec(&self) -> Seq<char> {
        self.task_id@
    }

    fn key(&self) -> (r: &String) {
        &self.task_id
    }
}

/// `a` is a copy of `b`: equal views, and every field holds the same value,
/// up to the example vector which holds the same entries.
pub open spec fn task_copy(a: AITask, b: AITask) -> bool {
    &&& a@ == b@
    &&& a.task_id == b.task_id
    &&& a.name == b.name
    &&& a.model_id == b.model_id
    &&& a.system_prompt == b.system_prompt
    &&& a.prompt_examples@ == b.prompt_examples@
    &&& a.meta_data == b.meta_data
}

impl AITask {
    /// An equal copy, up to the view: all fields carry the same characters.
    pub fn duplicate(&self) -> (r: Self)
        ensures
            task_copy(r, *self),
    {
        let r = AITask {
            task_id: self.task_id.clone(),
            name: self.name.clone(),
            model_id: self.model_id.clone(),
            system_prompt: self.system_prompt.clone(),
            prompt_examples: copy_examples(&self.prompt_examples),
            meta_data: copy_opt_string(&self.meta_data),
        };
        proof {
            assert(r.prompt_examples.deep_view() =~= self.prompt_examples.deep_view());
        }
        r
    }
}

/// Input for creating a task; the store assigns the task id.
#[derive(Debug)]
pub struct AITaskInput {
    pub name: String,
    pub model_id: String,
    pub system_prompt: String,
    pub prompt_examples: Vec<AIPromptExamples>,
    pub meta_data: Option<String>,
}

impl AITaskInput {
    /// The content of the persisted task this input makes under task id `id`.
    pub open spec fn spec_with_id(self, id: Seq<char>) -> AITaskV {
        AITaskV {
            task_id: id,
            name: self.name@,
            model_id: self.model_id@,
            system_prompt: self.system_prompt@,
            prompt_examples: self.prompt_examples.deep_view(),
            meta_data: self.meta_data.deep_view(),
        }
    }

    /// Builds the persisted task for task id `id`.
    pub fn with_id(&self, id: String) -> (r: AITask)
        ensures
            r@ == self.spec_with_id(id@),
            r.task_id == id,
            r.name == self.name,
            r.model_id == self.model_id,
            r.system_prompt == self.system_prompt,
            r.prompt_examples@ == self.prompt_examples@,
            r.meta_data == self.meta_data,
    {
        let r = AITask {
            task_id: id,
            name: self.name.clone(),
            model_id: self.model_id.clone(),
            system_prompt: self.system_prompt.clone(),
            prompt_examples: copy_examples(&self.prompt_examples),
            meta_data: copy_opt_string(&self.meta_data),
        };
        proof {
            assert(r.prompt_examples.deep_view() =~= self.prompt_examples.deep_view());
        }
        r
    }
}

/// Canonical lifecycle status texts published for a model.
#[derive(Debug)]
pub enum StatusText {
    Loading,
    Downloaded,
    Initializing,
    SpawningModelThread,
    SpawningTask,
    RunningInference,
    Ready,
    ShuttingDown,
    Loaded,
    /// Carries the builder's error message.
    FailedToBuildLlm { message: String },
}

/// The mathematical content of a status text.
pub ghost enum StatusTextV {
    Loading,
    Downloaded,
    Initializing,
    SpawningModelThread,
    SpawningTask,
    RunningInference,
    Ready,
    ShuttingDown,
    Loaded,
    FailedToBuildLlm { message: Seq<char> },
}

impl View for StatusText {
    type V = StatusTextV;

    open spec fn view(&self) -> StatusTextV {
        match self {
            StatusText::Loading => StatusTextV::Loading,
            StatusText::Downloaded => StatusTextV::Downloaded,
            StatusText::Initializing => StatusTextV::Initializing,
            StatusText::SpawningModelThread => StatusTextV::SpawningModelThread,
            StatusText::SpawningTask => StatusTextV::SpawningTask,
            StatusText::RunningInference => StatusTextV::RunningInference,
            StatusText::Ready => StatusTextV::Ready,
            StatusText::ShuttingDown => StatusTextV::ShuttingDown,
            StatusText::Loaded => StatusTextV::Loaded,
            StatusText::FailedToBuildLlm { message } => StatusTextV::FailedToBuildLlm {
                message: message@,
            },
        }
    }
}

impl DeepView for StatusText {
    type V = StatusTextV;

    open spec fn deep_view(&self) -> StatusTextV {
        self.view()
    }
}

impl StatusText {
    /// An equal copy.
    pub fn duplicate(&self) -> (r: Self)
        ensures
            r == *self,
    {
        match self {
            StatusText::Loading => StatusText::Loading,
            StatusText::Downloaded => StatusText::Downloaded,
            StatusText::Initializing => StatusText::Initializing,
            StatusText::SpawningModelThread => StatusText::SpawningModelThread,
            StatusText::SpawningTask => StatusText::SpawningTask,
            StatusText::RunningInference => StatusText::RunningInference,
            StatusText::Ready => StatusText::Ready,
            StatusText::ShuttingDown => StatusText::ShuttingDown,
            StatusText::Loaded => StatusText::Loaded,
            StatusText::FailedToBuildLlm { message } => StatusText::FailedToBuildLlm {
                message: message.clone(),
            },
        }
    }
}

/// The most recent lifecycle event of a model: a status row in the store and
/// the payload published on the model-loading topic.
#[derive(Debug)]
pub struct AIModelLoadingStatus {
    pub model: String,
    /// Percent, 0 to 100.
    pub progress: u8,
    pub status: StatusText,
    pub downloaded: bool,
    pub loaded: bool,
}

/// The mathematical content of a status event.
pub ghost struct AIModelLoadingStatusV {
    pub model: Seq<char>,
    pub progress: u8,
    pub status: StatusTextV,
    pub downloaded: bool,
    pub loaded: bool,
}

impl View for AIModelLoadingStatus {
    type V = AIModelLoadingStatusV;

    open spec fn view(&self) -> AIModelLoadingStatusV {
        AIModelLoadingStatusV {
            model: self.model@,
            progress: self.progress,
            status: self.status@,
            downloaded: self.downloaded,
            loaded: self.loaded,
        }
    }
}

impl DeepView for AIModelLoadingStatus {
    type V = AIModelLoadingStatusV;

    open spec fn deep_view(&self) -> AIModelLoadingStatusV {
        self.view()
    }
}

impl Keyed for AIModelLoadingStatus {
    open spec fn key_spec(&self) -> Seq<char> {
        self.model@
    }

    fn key(&self) -> (r: &String) {
        &self.model
    }
}

impl AIModelLoadingStatus {
    /// An equal copy.
    pub fn duplicate(&self) -> (r: Self)
        ensures
            r == *self,
    {
        AIModelLoadingStatus {
            model: self.model.clone(),
            progress: self.progress,
            status: self.status.duplicate(),
            downloaded: self.downloaded,
            loaded: self.loaded,
        }
    }
}

} // verus!
