use ad4m_executor::llm::{build_chat_messages, new_candle_device, normalize_base_url,
    resolve_llama_source, ChatRole, Device, DeviceProbe, WeightsSource};
use ad4m_executor::error::AIServiceError;
use ad4m_executor::ids::u64_to_string;
use ad4m_executor::types::{AIPromptExamples, AITask, LocalModel};

fn local(file_name: &str, repo: Option<&str>, revision: Option<&str>) -> LocalModel {
    LocalModel {
        file_name: file_name.to_string(),
        tokenizer_source: None,
        huggingface_repo: repo.map(|s| s.to_string()),
        revision: revision.map(|s| s.to_string()),
    }
}

#[test]
fn known_shortcut_resolves_to_preset() {
    match resolve_llama_source(&local("llama_tiny", None, None)) {
        Ok(WeightsSource::Preset { name }) => assert_eq!(name, "llama_tiny"),
        other => panic!("expected a preset, got {:?}", other.is_ok()),
    }
}

#[test]
fn qwen_shortcut_resolves_to_fixed_repository() {
    match resolve_llama_source(&local("Qwen2.5.1-Coder-7B-Instruct", None, None)) {
        Ok(WeightsSource::HuggingFace { repo, revision, file_name, tokenizer }) => {
            assert_eq!(repo, "bartowski/Qwen2.5.1-Coder-7B-Instruct-GGUF");
            assert_eq!(revision, "main");
            assert_eq!(file_name, "Qwen2.5.1-Coder-7B-Instruct-Q4_K_M.gguf");
            assert!(tokenizer.is_none());
        },
        _ => panic!("expected a repository source"),
    }
}

#[test]
fn unknown_name_with_repository_defaults_to_main() {
    match resolve_llama_source(&local("weights.gguf", Some("some/repo"), None)) {
        Ok(WeightsSource::HuggingFace { repo, revision, file_name, .. }) => {
            assert_eq!(repo, "some/repo");
            assert_eq!(revision, "main");
            assert_eq!(file_name, "weights.gguf");
        },
        _ => panic!("expected a repository source"),
    }
}

#[test]
fn unknown_name_without_repository_is_refused() {
    match resolve_llama_source(&local("nonsense", None, None)) {
        Err(AIServiceError::UnknownModelSource) => {},
        _ => panic!("expected the unknown-source error"),
    }
}

#[test]
fn device_selection_prefers_cuda_then_metal_then_cpu() {
    assert_eq!(new_candle_device(DeviceProbe::Available, DeviceProbe::Available), Device::Cuda0);
    assert_eq!(new_candle_device(DeviceProbe::InitFailed, DeviceProbe::Available), Device::Cpu);
    assert_eq!(new_candle_device(DeviceProbe::Disabled, DeviceProbe::Available), Device::Metal0);
    assert_eq!(new_candle_device(DeviceProbe::Disabled, DeviceProbe::InitFailed), Device::Cpu);
    assert_eq!(new_candle_device(DeviceProbe::Disabled, DeviceProbe::Disabled), Device::Cpu);
}

#[test]
fn chat_messages_follow_system_examples_prompt_order() {
    let task = AITask {
        task_id: "1".to_string(),
        name: "t".to_string(),
        model_id: "m".to_string(),
        system_prompt: "be brief".to_string(),
        prompt_examples: vec![
            AIPromptExamples { input: "ping".to_string(), output: "pong".to_string() },
            AIPromptExamples { input: "two".to_string(), output: "2".to_string() },
        ],
        meta_data: None,
    };
    let messages = build_chat_messages(&task, &"hello".to_string());
    assert_eq!(messages.len(), 6);
    assert_eq!(messages[0].role, ChatRole::System);
    assert_eq!(messages[0].content, "be brief");
    assert_eq!(messages[1].role, ChatRole::User);
    assert_eq!(messages[1].content, "ping");
    assert_eq!(messages[2].role, ChatRole::Assistant);
    assert_eq!(messages[2].content, "pong");
    assert_eq!(messages[3].role, ChatRole::User);
    assert_eq!(messages[3].content, "two");
    assert_eq!(messages[4].role, ChatRole::Assistant);
    assert_eq!(messages[4].content, "2");
    assert_eq!(messages[5].role, ChatRole::User);
    assert_eq!(messages[5].content, "hello");
}

#[test]
fn base_url_normalization_strips_leading_v1() {
    assert_eq!(
        normalize_base_url(&"https://api.openai.com/v1".to_string()),
        "https://api.openai.com",
    );
    assert_eq!(
        normalize_base_url(&"https://api.example.org/v1/chat".to_string()),
        "https://api.example.org/chat",
    );
    assert_eq!(
        normalize_base_url(&"https://api.example.org/api/v1".to_string()),
        "https://api.example.org/api/v1",
    );
    assert_eq!(normalize_base_url(&"https://plain.example".to_string()), "https://plain.example");
    assert_eq!(normalize_base_url(&"not a url".to_string()), "not a url");
}

#[test]
fn decimal_rendering_matches_expected_digits() {
    assert_eq!(u64_to_string(0), "0");
    assert_eq!(u64_to_string(7), "7");
    assert_eq!(u64_to_string(10), "10");
    assert_eq!(u64_to_string(1234567890), "1234567890");
    assert_eq!(u64_to_string(u64::MAX), "18446744073709551615");
}
