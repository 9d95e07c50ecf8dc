//! The language-model side of the service: weights-source resolution,
//! compute-device policy, the chat message list sent to remote endpoints,
//! endpoint normalization, and the modeled state of one worker.

use vstd::prelude::*;
use vstd::string::{StringExecFns, StrSliceExecFns};
use crate::error::AIServiceError;
use crate::kv::{assoc, Keyed, KvList};
use crate::types::{AITask, LocalModel, LocalModelV, TokenizerSource, TokenizerSourceV};

verus! {

/// The outcome of probing one accelerated compute backend.
#[derive(Clone, Copy, PartialEq, Eq, Structural, Debug)]
pub enum DeviceProbe {
    /// The backend is not compiled in.
    Disabled,
    /// The backend is compiled in but failed to initialize.
    InitFailed,
    /// The backend initialized at index 0.
    Available,
}

/// The compute device a worker is fixed to for its whole life.
#[derive(Clone, Copy, PartialEq, Eq, Structural, Debug)]
pub enum Device {
    Cuda0,
    Metal0,
    Cpu,
}

/// CUDA 0 when it initializes; with CUDA compiled in, any probe failure falls
/// through to the CPU; otherwise Metal 0 when it initializes; else the CPU.
pub open spec fn spec_select_device(cuda: DeviceProbe, metal: DeviceProbe) -> Device {
    match cuda {
        DeviceProbe::Available => Device::Cuda0,
        DeviceProbe::InitFailed => Device::Cpu,
        DeviceProbe::Disabled => match metal {
            DeviceProbe::Available => Device::Metal0,
            DeviceProbe::InitFailed => Device::Cpu,
            DeviceProbe::Disabled => Device::Cpu,
        },
    }
}

/// Chooses the compute device from the caller's backend probes.
pub fn new_candle_device(cuda: DeviceProbe, metal: DeviceProbe) -> (r: Device)
    ensures
        r == spec_select_device(cuda, metal),
{
    match cuda {
        DeviceProbe::Available => Device::Cuda0,
        DeviceProbe::InitFailed => Device::Cpu,
        DeviceProbe::Disabled => match metal {
            DeviceProbe::Available => Device::Metal0,
            DeviceProbe::InitFailed => Device::Cpu,
            DeviceProbe::Disabled => Device::Cpu,
        },
    }
}

/// Where the weights of a local language model come from.
#[derive(Debug)]
pub enum WeightsSource {
    /// A preset of the inference library, named by its shortcut.
    Preset { name: String },
    /// An explicit repository source.
    HuggingFace {
        repo: String,
        revision: String,
        file_name: String,
        tokenizer: Option<TokenizerSource>,
    },
}

/// The mathematical content of a weights source.
pub ghost enum WeightsSourceV {
    Preset { name: Seq<char> },
    HuggingFace {
        repo: Seq<char>,
        revision: Seq<char>,
        file_name: Seq<char>,
        tokenizer: Option<TokenizerSourceV>,
    },
}

impl View for WeightsSource {
    type V = WeightsSourceV;

    open spec fn view(&self) -> WeightsSourceV {
        match self {
            WeightsSource::Preset { name } => WeightsSourceV::Preset { name: name@ },
            WeightsSource::HuggingFace { repo, revision, file_name, tokenizer } =>
                WeightsSourceV::HuggingFace {
                repo: repo@,
                revision: revision@,
                file_name: file_name@,
                tokenizer: tokenizer.deep_view(),
            },
        }
    }
}

/// The file-name shortcuts that name a preset of the inference library.
pub open spec fn is_known_shortcut(s: Seq<char>) -> bool {
    ||| s == "deepseek_r1_distill_qwen_1_5b"@
    ||| s == "deepseek_r1_distill_qwen_7b"@
    ||| s == "deepseek_r1_distill_qwen_14b"@
    ||| s == "deepseek_r1_distill_llama_8b"@
    ||| s == "llama_tiny"@
    ||| s == "llama_tiny_1_1b_chat"@
    ||| s == "llama_7b"@
    ||| s == "llama_7b_chat"@
    ||| s == "llama_7b_code"@
    ||| s == "llama_8b"@
    ||| s == "llama_8b_chat"@
    ||| s == "llama_3_1_8b_chat"@
    ||| s == "llama_13b"@
    ||| s == "llama_13b_chat"@
    ||| s == "llama_13b_code"@
    ||| s == "llama_34b_code"@
    ||| s == "llama_70b"@
    ||| s == "mistral_7b"@
    ||| s == "mistral_7b_instruct"@
    ||| s == "mistral_7b_instruct_2"@
    ||| s == "solar_10_7b"@
    ||| s == "solar_10_7b_instruct"@
}

/// Resolution of a local model's weights source, by the two-level rule: a
/// fixed shortcut table first, then an explicit repository, else nothing.
pub open spec fn spec_resolve_llama_source(cfg: LocalModelV) -> Option<WeightsSourceV> {
    if cfg.file_name == "Qwen2.5.1-Coder-7B-Instruct"@ {
        Some(
            WeightsSourceV::HuggingFace {
                repo: "bartowski/Qwen2.5.1-Coder-7B-Instruct-GGUF"@,
                revision: "main"@,
                file_name: "Qwen2.5.1-Coder-7B-Instruct-Q4_K_M.gguf"@,
                tokenizer: None,
            },
        )
    } else if is_known_shortcut(cfg.file_name) {
        Some(WeightsSourceV::Preset { name: cfg.file_name })
    } else {
        match cfg.huggingface_repo {
            Some(repo) => Some(
                WeightsSourceV::HuggingFace {
                    repo: repo,
                    revision: match cfg.revision {
                        Some(rev) => rev,
                        None => "main"@,
                    },
                    file_name: cfg.file_name,
                    tokenizer: cfg.tokenizer_source,
                },
            ),
            None => None,
        }
    }
}

/// Whether `a` holds exactly the characters of `b`.
pub(crate) fn str_eq(a: &String, b: &str) -> (r: bool)
    ensures
        r == (a@ == b@),
{
    *a == String::from_str(b)
}

/// Resolves where a local model's weights come from: a known shortcut maps to
/// the library preset (one shortcut maps to a fixed repository source), any
/// other name requires an explicit repository.
pub fn resolve_llama_source(cfg: &LocalModel) -> (r: Result<WeightsSource, AIServiceError>)
    ensures
        match r {
            Ok(w) => spec_resolve_llama_source(cfg@) == Some(w@),
            Err(e) => spec_resolve_llama_source(cfg@) is None && e
                == AIServiceError::UnknownModelSource,
        },
{
    if str_eq(&cfg.file_name, "Qwen2.5.1-Coder-7B-Instruct") {
        return Ok(
            WeightsSource::HuggingFace {
                repo: String::from_str("bartowski/Qwen2.5.1-Coder-7B-Instruct-GGUF"),
                revision: String::from_str("main"),
                file_name: String::from_str("Qwen2.5.1-Coder-7B-Instruct-Q4_K_M.gguf"),
                tokenizer: None,
            },
        );
    }
    let known = str_eq(&cfg.file_name, "deepseek_r1_distill_qwen_1_5b") || str_eq(
        &cfg.file_name,
        "deepseek_r1_distill_qwen_7b",
    ) || str_eq(&cfg.file_name, "deepseek_r1_distill_qwen_14b") || str_eq(
        &cfg.file_name,
        "deepseek_r1_distill_llama_8b",
    ) || str_eq(&cfg.file_name, "llama_tiny") || str_eq(&cfg.file_name, "llama_tiny_1_1b_chat")
        || str_eq(&cfg.file_name, "llama_7b") || str_eq(&cfg.file_name, "llama_7b_chat") || str_eq(
        &cfg.file_name,
        "llama_7b_code",
    ) || str_eq(&cfg.file_name, "llama_8b") || str_eq(&cfg.file_name, "llama_8b_chat") || str_eq(
        &cfg.file_name,
        "llama_3_1_8b_chat",
    ) || str_eq(&cfg.file_name, "llama_13b") || str_eq(&cfg.file_name, "llama_13b_chat")
        || str_eq(&cfg.file_name, "llama_13b_code") || str_eq(&cfg.file_name, "llama_34b_code")
        || str_eq(&cfg.file_name, "llama_70b") || str_eq(&cfg.file_name, "mistral_7b") || str_eq(
        &cfg.file_name,
        "mistral_7b_instruct",
    ) || str_eq(&cfg.file_name, "mistral_7b_instruct_2") || str_eq(&cfg.file_name, "solar_10_7b")
        || str_eq(&cfg.file_name, "solar_10_7b_instruct");
    if known {
        return Ok(WeightsSource::Preset { name: cfg.file_name.clone() });
    }
    match &cfg.huggingface_repo {
        Some(repo) => Ok(
            WeightsSource::HuggingFace {
                repo: repo.clone(),
                revision: match &cfg.revision {
                    Some(rev) => rev.clone(),
                    None => String::from_str("main"),
                },
                file_name: cfg.file_name.clone(),
                tokenizer: match &cfg.tokenizer_source {
                    Some(t) => Some(t.duplicate()),
                    None => None,
                },
            },
        ),
        None => Err(AIServiceError::UnknownModelSource),
    }
}

/// A party in a chat exchange with a remote model.
#[derive(Clone, Copy, PartialEq, Eq, Structural, Debug)]
pub enum ChatRole {
    System,
    User,
    Assistant,
}

/// One message of the list sent to a remote chat endpoint.
#[derive(Debug)]
pub struct ChatMessage {
    pub role: ChatRole,
    pub content: String,
}

/// The mathematical content of one chat message.
pub ghost struct ChatMessageV {
    pub role: ChatRole,
    pub content: Seq<char>,
}

impl View for ChatMessage {
    type V = ChatMessageV;

    open spec fn view(&self) -> ChatMessageV {
        ChatMessageV { role: self.role, content: self.content@ }
    }
}

impl DeepView for ChatMessage {
    type V = ChatMessageV;

    open spec fn deep_view(&self) -> ChatMessageV {
        self.view()
    }
}

/// Each example as a user message followed by the assistant's answer.
pub open spec fn spec_example_messages(exs: Seq<crate::types::AIPromptExamplesV>) -> Seq<
    ChatMessageV,
>
    decreases exs.len(),
{
    if exs.len() == 0 {
        Seq::empty()
    } else {
        seq![
            ChatMessageV { role: ChatRole::User, content: exs.first().input },
            ChatMessageV { role: ChatRole::Assistant, content: exs.first().output },
        ] + spec_example_messages(exs.drop_first())
    }
}

/// The shape of the example block: two messages per example, user input then
/// assistant output.
pub proof fn lemma_example_messages(exs: Seq<crate::types::AIPromptExamplesV>)
    ensures
        spec_example_messages(exs).len() == 2 * exs.len(),
        forall|i: int|
            0 <= i < exs.len() ==> #[trigger] spec_example_messages(exs)[2 * i]
                == (ChatMessageV { role: ChatRole::User, content: exs[i].input }),
        forall|i: int|
            0 <= i < exs.len() ==> #[trigger] spec_example_messages(exs)[2 * i + 1]
                == (ChatMessageV { role: ChatRole::Assistant, content: exs[i].output }),
    decreases exs.len(),
{
    if exs.len() > 0 {
        lemma_example_messages(exs.drop_first());
        assert forall|i: int|
            0 <= i < exs.len() implies #[trigger] spec_example_messages(exs)[2 * i]
            == (ChatMessageV { role: ChatRole::User, content: exs[i].input }) by {
            if i > 0 {
                assert(exs.drop_first()[i - 1] == exs[i]);
                assert(spec_example_messages(exs)[2 * i] == spec_example_messages(
                    exs.drop_first(),
                )[2 * (i - 1)]);
            }
        }
        assert forall|i: int|
            0 <= i < exs.len() implies #[trigger] spec_example_messages(exs)[2 * i + 1]
            == (ChatMessageV { role: ChatRole::Assistant, content: exs[i].output }) by {
            if i > 0 {
                assert(exs.drop_first()[i - 1] == exs[i]);
                assert(spec_example_messages(exs)[2 * i + 1] == spec_example_messages(
                    exs.drop_first(),
                )[2 * (i - 1) + 1]);
            }
        }
    }
}

/// The full message list of a remote prompt: the system prompt, the example
/// block, then the prompt as the final user message.
pub open spec fn spec_chat_messages(t: crate::types::AITaskV, prompt: Seq<char>) -> Seq<
    ChatMessageV,
> {
    seq![ChatMessageV { role: ChatRole::System, content: t.system_prompt }]
        + spec_example_messages(t.prompt_examples) + seq![
        ChatMessageV { role: ChatRole::User, content: prompt },
    ]
}

/// The message list a remote prompt sends: the task's system prompt, then each
/// example as a user/assistant exchange, then the prompt itself.
pub fn build_chat_messages(task: &AITask, prompt: &String) -> (r: Vec<ChatMessage>)
    ensures
        r@.len() == 2 + 2 * task.prompt_examples@.len(),
        r@[0].role == ChatRole::System,
        r@[0].content == task.system_prompt,
        forall|i: int|
            0 <= i < task.prompt_examples@.len() ==> {
                &&& (#[trigger] r@[1 + 2 * i]).role == ChatRole::User
                &&& r@[1 + 2 * i].content == task.prompt_examples@[i].input
                &&& r@[2 + 2 * i].role == ChatRole::Assistant
                &&& r@[2 + 2 * i].content == task.prompt_examples@[i].output
            },
        r@.last().role == ChatRole::User,
        r@.last().content == *prompt,
        r.deep_view() == spec_chat_messages(task@, prompt@),
{
    let mut messages: Vec<ChatMessage> = Vec::new();
    messages.push(
        ChatMessage { role: ChatRole::System, content: task.system_prompt.clone() },
    );
    let n = task.prompt_examples.len();
    let mut i: usize = 0;
    while i < n
        invariant
            n == task.prompt_examples@.len(),
            i <= n,
            messages@.len() == 1 + 2 * i,
            messages@[0].role == ChatRole::System,
            messages@[0].content == task.system_prompt,
            forall|j: int|
                0 <= j < i ==> {
                    &&& (#[trigger] messages@[1 + 2 * j]).role == ChatRole::User
                    &&& messages@[1 + 2 * j].content == task.prompt_examples@[j].input
                    &&& messages@[2 + 2 * j].role == ChatRole::Assistant
                    &&& messages@[2 + 2 * j].content == task.prompt_examples@[j].output
                },
        decreases n - i,
    {
        let example = &task.prompt_examples[i];
        messages.push(ChatMessage { role: ChatRole::User, content: example.input.clone() });
        messages.push(
            ChatMessage { role: ChatRole::Assistant, content: example.output.clone() },
        );
        i = i + 1;
    }
    messages.push(ChatMessage { role: ChatRole::User, content: prompt.clone() });
    proof {
        lemma_example_messages(task@.prompt_examples);
        let n2 = task.prompt_examples@.len() as int;
        let spec = spec_chat_messages(task@, prompt@);
        assert forall|k: int|
            0 <= k < messages@.len() implies messages.deep_view()[k] == spec[k] by {
            if k == 0 {
            } else if k < 1 + 2 * n2 {
                let i = (k - 1) / 2;
                if (k - 1) % 2 == 0 {
                    assert(k == 1 + 2 * i);
                    assert(spec[k] == spec_example_messages(task@.prompt_examples)[2 * i]);
                    assert(messages@[1 + 2 * i].content == task.prompt_examples@[i].input);
                } else {
                    assert(k == 2 + 2 * i);
                    assert(spec[k] == spec_example_messages(task@.prompt_examples)[2 * i + 1]);
                    assert(messages@[2 + 2 * i].content == task.prompt_examples@[i].output);
                }
            } else {
                assert(k == messages@.len() - 1);
            }
        }
        assert(messages.deep_view() =~= spec_chat_messages(task@, prompt@));
    }
    messages
}

/// A `://` separator sits at `j`.
pub open spec fn scheme_sep_at(s: Seq<char>, j: int) -> bool {
    &&& 0 <= j
    &&& j + 3 <= s.len()
    &&& s[j] == ':'
    &&& s[j + 1] == '/'
    &&& s[j + 2] == '/'
}

/// The first `://` separator at or after `i`.
pub open spec fn first_scheme_sep(s: Seq<char>, i: int) -> Option<int>
    decreases s.len() - i,
{
    if i < 0 || i + 3 > s.len() {
        None
    } else if scheme_sep_at(s, i) {
        Some(i)
    } else {
        first_scheme_sep(s, i + 1)
    }
}

/// The first `/` at or after `i`.
pub open spec fn first_slash(s: Seq<char>, i: int) -> Option<int>
    decreases s.len() - i,
{
    if i < 0 || i >= s.len() {
        None
    } else if s[i] == '/' {
        Some(i)
    } else {
        first_slash(s, i + 1)
    }
}

/// The path segment starting at the slash at `p` is exactly `v1`.
pub open spec fn v1_at(s: Seq<char>, p: int) -> bool {
    &&& p + 3 <= s.len()
    &&& s[p + 1] == 'v'
    &&& s[p + 2] == '1'
    &&& (p + 3 == s.len() || s[p + 3] == '/')
}

/// A base URL with its first path segment dropped when that segment is `v1`:
/// the path begins at the first slash after the first `://`.
pub open spec fn spec_normalize_base_url(s: Seq<char>) -> Seq<char> {
    match first_scheme_sep(s, 0) {
        None => s,
        Some(j) => match first_slash(s, j + 3) {
            None => s,
            Some(p) => if v1_at(s, p) {
                s.take(p) + s.skip(p + 3)
            } else {
                s
            },
        },
    }
}

/// Finds the first `://` separator.
fn find_scheme_sep(s: &str) -> (r: Option<usize>)
    ensures
        match r {
            Some(j) => first_scheme_sep(s@, 0) == Some(j as int) && j + 3 <= s@.len(),
            None => first_scheme_sep(s@, 0) is None,
        },
{
    let n = s.unicode_len();
    if n < 3 {
        return None;
    }
    let mut i: usize = 0;
    while i <= n - 3
        invariant
            3 <= n == s@.len(),
            i <= n - 2,
            first_scheme_sep(s@, 0) == first_scheme_sep(s@, i as int),
        decreases n - i,
    {
        if s.get_char(i) == ':' && s.get_char(i + 1) == '/' && s.get_char(i + 2) == '/' {
            return Some(i);
        }
        proof {
            assert(first_scheme_sep(s@, i as int) == first_scheme_sep(s@, i as int + 1));
        }
        i = i + 1;
    }
    None
}

/// Finds the first `/` at or after `start`.
fn find_slash_from(s: &str, start: usize) -> (r: Option<usize>)
    ensures
        match r {
            Some(p) => first_slash(s@, start as int) == Some(p as int) && p < s@.len(),
            None => first_slash(s@, start as int) is None,
        },
{
    let n = s.unicode_len();
    let mut i: usize = start;
    if i > n {
        proof {
            assert(first_slash(s@, start as int) is None);
        }
        return None;
    }
    while i < n
        invariant
            n == s@.len(),
            i <= n,
            first_slash(s@, start as int) == first_slash(s@, i as int),
        decreases n - i,
    {
        if s.get_char(i) == '/' {
            return Some(i);
        }
        proof {
            assert(first_slash(s@, i as int) == first_slash(s@, i as int + 1));
        }
        i = i + 1;
    }
    None
}

/// Normalizes a remote endpoint: drops a leading `v1` path segment, so that
/// the chat client can append its own versioned paths.
pub fn normalize_base_url(url: &String) -> (r: String)
    ensures
        r@ == spec_normalize_base_url(url@),
{
    let s = url.as_str();
    let n = s.unicode_len();
    match find_scheme_sep(s) {
        None => url.clone(),
        Some(j) => match find_slash_from(s, j + 3) {
            None => url.clone(),
            Some(p) => {
                let v1 = n - p >= 3 && s.get_char(p + 1) == 'v' && s.get_char(p + 2) == '1' && (n
                    - p == 3 || s.get_char(p + 3) == '/');
                if v1 {
                    let prefix = s.substring_char(0, p);
                    let suffix = s.substring_char(p + 3, n);
                    let mut out = String::from_str(prefix);
                    out.append(suffix);
                    proof {
                        assert(out@ =~= url@.take(p as int) + url@.skip(p as int + 3));
                    }
                    out
                } else {
                    url.clone()
                }
            },
        },
    }
}

/// What a language-model worker serves: a locally built engine, or a remote
/// chat endpoint.
pub enum LlmEngine {
    Local,
    Remote { remote_model: String, base_url: String, api_key: String },
}

/// The modeled state of one language-model worker and its mailbox.
pub struct LlmChannel {
    pub model_id: String,
    /// Distinguishes successive workers spawned for the same id.
    pub epoch: u64,
    /// False once the worker has exited or failed: sends then fail.
    pub alive: bool,
    pub engine: LlmEngine,
    /// Tasks materialized on a local engine.
    pub tasks: KvList<AITask>,
    /// Task descriptions recorded for a remote engine.
    pub task_descriptions: KvList<AITask>,
}

impl Keyed for LlmChannel {
    open spec fn key_spec(&self) -> Seq<char> {
        self.model_id@
    }

    fn key(&self) -> (r: &String) {
        &self.model_id
    }
}

impl LlmChannel {
    /// Well-formed: the worker's task maps have distinct keys.
    pub open spec fn wf(self) -> bool {
        &&& self.tasks.wf()
        &&& self.task_descriptions.wf()
    }

    /// The task id is materialized in this worker, whichever engine it runs.
    pub open spec fn serves_task(self, task_id: Seq<char>) -> bool {
        match self.engine {
            LlmEngine::Local => self.tasks.has(task_id),
            LlmEngine::Remote { .. } => self.task_descriptions.has(task_id),
        }
    }
}

/// `newm` is `oldm` with a copy of `task` bound to its id: replaced in place
/// when the id was present, appended otherwise.
pub open spec fn task_map_with(oldm: KvList<AITask>, newm: KvList<AITask>, task: AITask) -> bool {
    &&& match newm.spec_get(task.task_id@) {
        Some(t) => crate::types::task_copy(t, task),
        None => false,
    }
    &&& forall|k: Seq<char>| k != task.task_id@ ==> assoc(newm@, k) == assoc(oldm@, k)
    &&& !oldm.has(task.task_id@) ==> newm@ == oldm@.push(newm@.last()) && newm@.len() == oldm@.len()
        + 1
    &&& oldm.has(task.task_id@) ==> exists|i: int|
        0 <= i < oldm@.len() && oldm@[i].key_spec() == task.task_id@ && newm@ == oldm@.update(
            i,
            newm@[i],
        )
}

/// `newm` is `oldm` with the binding of `task_id` gone.
pub open spec fn task_map_without(oldm: KvList<AITask>, newm: KvList<AITask>, tid: Seq<char>)
    -> bool {
    &&& newm.spec_get(tid) is None
    &&& forall|k: Seq<char>| k != tid ==> assoc(newm@, k) == assoc(oldm@, k)
    &&& oldm.has(tid) ==> exists|i: int|
        0 <= i < oldm@.len() && oldm@[i].key_spec() == tid && newm@ == oldm@.remove(i)
    &&& !oldm.has(tid) ==> newm == oldm
}

/// `newm` is `oldm` with the binding of `task.task_id` first removed and a
/// copy of `task` then appended.
pub open spec fn task_map_retasked(oldm: KvList<AITask>, newm: KvList<AITask>, task: AITask)
    -> bool {
    &&& match newm.spec_get(task.task_id@) {
        Some(t) => crate::types::task_copy(t, task),
        None => false,
    }
    &&& forall|k: Seq<char>| k != task.task_id@ ==> assoc(newm@, k) == assoc(oldm@, k)
    &&& newm@.len() > 0
    &&& oldm.has(task.task_id@) ==> exists|i: int|
        0 <= i < oldm@.len() && oldm@[i].key_spec() == task.task_id@ && newm@ == oldm@.remove(
            i,
        ).push(newm@.last())
    &&& !oldm.has(task.task_id@) ==> newm@ == oldm@.push(newm@.last())
}

/// `newch` is `oldch` with a copy of `task` materialized: a local engine
/// stores it in its task map, a remote engine records its description.
pub open spec fn channel_with_task(oldch: LlmChannel, newch: LlmChannel, task: AITask) -> bool {
    &&& newch.model_id == oldch.model_id
    &&& newch.epoch == oldch.epoch
    &&& newch.alive == oldch.alive
    &&& newch.engine == oldch.engine
    &&& match oldch.engine {
        LlmEngine::Local => newch.task_descriptions == oldch.task_descriptions && task_map_with(
            oldch.tasks,
            newch.tasks,
            task,
        ),
        LlmEngine::Remote { .. } => newch.tasks == oldch.tasks && task_map_with(
            oldch.task_descriptions,
            newch.task_descriptions,
            task,
        ),
    }
}

/// `newch` is `oldch` after re-materializing `task`: the old binding is
/// dropped from both maps, then a copy of `task` is appended where the
/// engine keeps its tasks.
pub open spec fn channel_retasked(oldch: LlmChannel, newch: LlmChannel, task: AITask) -> bool {
    &&& newch.model_id == oldch.model_id
    &&& newch.epoch == oldch.epoch
    &&& newch.alive == oldch.alive
    &&& newch.engine == oldch.engine
    &&& match oldch.engine {
        LlmEngine::Local => task_map_retasked(oldch.tasks, newch.tasks, task) && task_map_without(
            oldch.task_descriptions,
            newch.task_descriptions,
            task.task_id@,
        ),
        LlmEngine::Remote { .. } => task_map_retasked(
            oldch.task_descriptions,
            newch.task_descriptions,
            task,
        ) && task_map_without(oldch.tasks, newch.tasks, task.task_id@),
    }
}

/// `newch` is `oldch` with every trace of `task_id` dropped from both maps.
pub open spec fn channel_without_task(oldch: LlmChannel, newch: LlmChannel, tid: Seq<char>)
    -> bool {
    &&& newch.model_id == oldch.model_id
    &&& newch.epoch == oldch.epoch
    &&& newch.alive == oldch.alive
    &&& newch.engine == oldch.engine
    &&& task_map_without(oldch.tasks, newch.tasks, tid)
    &&& task_map_without(oldch.task_descriptions, newch.task_descriptions, tid)
}

} // verus!
