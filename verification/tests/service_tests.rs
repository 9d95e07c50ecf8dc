use ad4m_executor::ai_service::{AIService, BuildReport, EngineBuild, PromptJob, PromptOutcome};
use ad4m_executor::error::AIServiceError;
use ad4m_executor::kv::KvList;
use ad4m_executor::types::{
    AIPromptExamples, AITaskInput, LocalModel, ModelInput, ModelType, StatusText,
};

fn local_llm_input(name: &str, file_name: &str) -> ModelInput {
    ModelInput {
        name: name.to_string(),
        model_type: ModelType::Llm,
        local: Some(LocalModel {
            file_name: file_name.to_string(),
            tokenizer_source: None,
            huggingface_repo: None,
            revision: None,
        }),
        api: None,
    }
}

fn task_input(model_id: &str, system: &str, examples: Vec<(&str, &str)>) -> AITaskInput {
    AITaskInput {
        name: "Test task".to_string(),
        model_id: model_id.to_string(),
        system_prompt: system.to_string(),
        prompt_examples: examples
            .into_iter()
            .map(|(i, o)| AIPromptExamples { input: i.to_string(), output: o.to_string() })
            .collect(),
        meta_data: None,
    }
}

#[test]
fn bootstrap_publishes_bert_statuses_and_serves_embeddings() {
    let mut service = AIService::new();
    let builds: KvList<BuildReport> = KvList::new();
    service.load(&builds).expect("loading an empty store to work");
    assert!(service.published.iter().any(|e| {
        e.model == "bert-id" && matches!(e.status, StatusText::Loaded) && e.downloaded
    }));
    // embedding mailboxes are keyed by the model's name, not its id
    assert!(service.embed(&"bert".to_string()).is_ok());
    assert_eq!(
        service.embed(&"bert-id".to_string()).unwrap_err(),
        AIServiceError::ModelUnavailable,
    );
}

#[test]
fn llm_roundtrip_returns_text_and_status_trace() {
    let mut service = AIService::new();
    let model_id = service
        .add_model(local_llm_input("Test Model", "llama_tiny_1_1b_chat"), EngineBuild::Success)
        .expect("model to be added");
    let task = service
        .add_task(task_input(&model_id, "echo", vec![("ping", "pong")]))
        .expect("add_task to work without error");
    let job = service
        .prompt(task.task_id.clone(), "ping".to_string())
        .expect("prompt to dispatch");
    assert!(matches!(
        service.published.last().unwrap().status,
        StatusText::RunningInference
    ));
    let reply = service
        .complete_prompt(job, PromptOutcome::LocalText { text: "pong".to_string() })
        .expect("prompt to return a result");
    assert_eq!(reply, "pong");
    assert!(matches!(service.published.last().unwrap().status, StatusText::Ready));
}

#[test]
fn default_rerouting_moves_prompts_between_models() {
    let mut service = AIService::new();
    let a = service
        .add_model(local_llm_input("A", "llama_tiny"), EngineBuild::Success)
        .expect("first model to be added");
    let b = service
        .add_model(local_llm_input("B", "llama_tiny_1_1b_chat"), EngineBuild::Success)
        .expect("second model to be added");
    service
        .set_default_model(ModelType::Llm, a.clone())
        .expect("nominating the first default to work");
    let task = service
        .add_task(task_input("default", "route me", vec![]))
        .expect("task on the sentinel to be added");
    let job = service
        .prompt(task.task_id.clone(), "one".to_string())
        .expect("prompt to dispatch");
    match job {
        PromptJob::Local { model_id, .. } => assert_eq!(model_id, a),
        _ => panic!("expected a local job"),
    }
    service
        .set_default_model(ModelType::Llm, b.clone())
        .expect("nominating the second default to work");
    let job2 = service
        .prompt(task.task_id.clone(), "two".to_string())
        .expect("prompt to dispatch after the change");
    match job2 {
        PromptJob::Local { model_id, .. } => assert_eq!(model_id, b),
        _ => panic!("expected a local job"),
    }
}

#[test]
fn update_model_swaps_worker_and_keeps_tasks() {
    let mut service = AIService::new();
    let model_id = service
        .add_model(local_llm_input("Test Model", "llama_tiny_1_1b_chat"), EngineBuild::Success)
        .expect("model to be added");
    let task = service
        .add_task(task_input(&model_id, "Test prompt", vec![]))
        .expect("task to be created");
    let before = service.published.len();
    service
        .update_model(
            model_id.clone(),
            local_llm_input("Updated Test Model", "llama_tiny_1_1b_chat"),
            EngineBuild::Success,
        )
        .expect("model to be updated");
    let fresh = &service.published[before..];
    let shutdown = fresh
        .iter()
        .position(|e| matches!(e.status, StatusText::ShuttingDown))
        .expect("a shutdown event");
    let ready = fresh
        .iter()
        .rposition(|e| matches!(e.status, StatusText::Ready) && e.loaded)
        .expect("a fresh ready event");
    assert!(shutdown < ready);
    // the store row kept the id and took the new name
    let stored = service.db.get_model(&model_id).expect("to get model");
    assert_eq!(stored.name, "Updated Test Model");
    // the previously bound task accepts prompts without being re-added
    service
        .prompt(task.task_id.clone(), "Test input".to_string())
        .expect("prompt to work after model update");
}

#[test]
fn model_lifecycle_add_update_remove() {
    let mut service = AIService::new();
    let model_id = service
        .add_model(local_llm_input("Test Model", "llama_tiny_1_1b_chat"), EngineBuild::Success)
        .expect("model to be added");
    service
        .update_model(
            model_id.clone(),
            local_llm_input("Updated Test Model", "llama_tiny_1_1b_chat"),
            EngineBuild::Success,
        )
        .expect("model to be updated");
    let stored = service.db.get_model(&model_id).expect("to get model");
    assert_eq!(stored.name, "Updated Test Model");
    service.remove_model(model_id.clone()).expect("model to be removed");
    assert!(service.db.get_model(&model_id).is_none());
    assert!(service.published.iter().any(|e| {
        e.model == model_id && matches!(e.status, StatusText::ShuttingDown)
    }));
}

#[test]
fn unknown_source_leaves_dead_worker_behind() {
    let mut service = AIService::new();
    let model_id = service
        .add_model(local_llm_input("Broken", "nonsense"), EngineBuild::Success)
        .expect("adding the model itself to work");
    assert!(service.published.iter().any(|e| {
        e.model == model_id && matches!(&e.status, StatusText::FailedToBuildLlm { .. })
    }));
    // the task is persisted, but materializing it fails on the dead mailbox
    let added = service.add_task(task_input(&model_id, "sys", vec![]));
    assert_eq!(added.unwrap_err(), AIServiceError::ModelUnavailable);
    let stored = service.db.get_tasks();
    assert_eq!(stored.len(), 1);
    let r = service.prompt(stored[0].task_id.clone(), "hi".to_string());
    assert_eq!(r.unwrap_err(), AIServiceError::ModelUnavailable);
}

#[test]
fn engine_build_failure_reports_its_message() {
    let mut service = AIService::new();
    let model_id = service
        .add_model(
            local_llm_input("Flaky", "llama_tiny"),
            EngineBuild::Failure { message: "no disk space".to_string() },
        )
        .expect("adding the model itself to work");
    assert!(service.published.iter().any(|e| {
        e.model == model_id
            && matches!(&e.status, StatusText::FailedToBuildLlm { message } if message == "no disk space")
    }));
}

#[test]
fn model_without_backing_is_refused() {
    let mut service = AIService::new();
    let r = service.add_model(
        ModelInput {
            name: "empty".to_string(),
            model_type: ModelType::Llm,
            local: None,
            api: None,
        },
        EngineBuild::Success,
    );
    match r.unwrap_err() {
        AIServiceError::BuildFailed { message } => {
            assert_eq!(
                message,
                "AI model definition empty doesn't have a body, nothing to spawn!"
            );
        },
        _ => panic!("expected the build refusal"),
    }
}

#[test]
fn remote_prompt_replays_examples_and_takes_first_choice() {
    let mut service = AIService::new();
    let model_id = service
        .add_model(
            ModelInput {
                name: "remote".to_string(),
                model_type: ModelType::Llm,
                local: None,
                api: Some(ad4m_executor::types::ApiModel {
                    base_url: "https://api.example.org/v1".to_string(),
                    api_key: "k".to_string(),
                    model: "gpt-test".to_string(),
                }),
            },
            EngineBuild::Success,
        )
        .expect("remote model to be added");
    let task = service
        .add_task(task_input(&model_id, "sys", vec![("in", "out")]))
        .expect("task to be added");
    let job = service
        .prompt(task.task_id.clone(), "question".to_string())
        .expect("prompt to dispatch");
    match &job {
        PromptJob::Remote { remote_model, base_url, messages, .. } => {
            assert_eq!(remote_model, "gpt-test");
            assert_eq!(base_url, "https://api.example.org");
            assert_eq!(messages.len(), 4);
        },
        _ => panic!("expected a remote job"),
    }
    let reply = service
        .complete_prompt(
            job,
            PromptOutcome::RemoteChoices {
                choices: vec!["first".to_string(), "second".to_string()],
            },
        )
        .expect("the first choice to come back");
    assert_eq!(reply, "first");
}

#[test]
fn remote_prompt_error_variants() {
    let mut service = AIService::new();
    let model_id = service
        .add_model(
            ModelInput {
                name: "remote".to_string(),
                model_type: ModelType::Llm,
                local: None,
                api: Some(ad4m_executor::types::ApiModel {
                    base_url: "https://api.example.org".to_string(),
                    api_key: "k".to_string(),
                    model: "gpt-test".to_string(),
                }),
            },
            EngineBuild::Success,
        )
        .expect("remote model to be added");
    let task = service
        .add_task(task_input(&model_id, "sys", vec![]))
        .expect("task to be added");
    let job = service.prompt(task.task_id.clone(), "q".to_string()).unwrap();
    let no_choice = service.complete_prompt(job, PromptOutcome::RemoteChoices { choices: vec![] });
    assert_eq!(no_choice.unwrap_err(), AIServiceError::RemoteNoChoice);
    let job2 = service.prompt(task.task_id.clone(), "q".to_string()).unwrap();
    match service
        .complete_prompt(job2, PromptOutcome::RemoteFailure { message: "timeout".to_string() })
        .unwrap_err()
    {
        AIServiceError::RemoteApiError { message } => {
            assert_eq!(message, "Error connecting to remote LLM API: timeout");
        },
        _ => panic!("expected the remote error"),
    }
}

#[test]
fn engine_crash_closes_the_mailbox() {
    let mut service = AIService::new();
    let model_id = service
        .add_model(local_llm_input("M", "llama_tiny"), EngineBuild::Success)
        .expect("model to be added");
    let task = service
        .add_task(task_input(&model_id, "sys", vec![]))
        .expect("task to be added");
    let job = service.prompt(task.task_id.clone(), "q".to_string()).unwrap();
    let crashed = service.complete_prompt(
        job,
        PromptOutcome::EngineCrash { message: "inference panicked".to_string() },
    );
    assert_eq!(crashed.unwrap_err(), AIServiceError::ModelUnavailable);
    // every later send on the mailbox fails too
    let after = service.prompt(task.task_id.clone(), "again".to_string());
    assert_eq!(after.unwrap_err(), AIServiceError::ModelUnavailable);
}

#[test]
fn task_errors_are_distinguished() {
    let mut service = AIService::new();
    // prompting an unknown task
    let r = service.prompt("77".to_string(), "hi".to_string());
    assert_eq!(r.unwrap_err(), AIServiceError::TaskNotFound);
    // a task on the sentinel with no default nominated
    let r2 = service.add_task(task_input("default", "sys", vec![]));
    assert_eq!(r2.unwrap_err(), AIServiceError::NoDefaultModel);
    // a stored task whose worker forgot it
    let model_id = service
        .add_model(local_llm_input("M", "llama_tiny"), EngineBuild::Success)
        .expect("model to be added");
    let task = service
        .add_task(task_input(&model_id, "sys", vec![]))
        .expect("task to be added");
    service.remove_task(task.task_id.clone()).expect("removal from the worker to work");
    let r3 = service.prompt(task.task_id.clone(), "hi".to_string());
    assert_eq!(r3.unwrap_err(), AIServiceError::TaskNotSpawned);
}

#[test]
fn update_task_equals_delete_then_add_for_the_worker() {
    let mut service = AIService::new();
    let model_id = service
        .add_model(local_llm_input("M", "llama_tiny"), EngineBuild::Success)
        .expect("model to be added");
    let task = service
        .add_task(task_input(&model_id, "old prompt", vec![]))
        .expect("task to be added");

    let mut updated = task;
    updated.system_prompt = "new prompt".to_string();
    let task_id = updated.task_id.clone();
    service.update_task(updated).expect("update to work");
    let job = service.prompt(task_id.clone(), "q".to_string()).expect("prompt after update");
    drop(job);

    // the other route: delete, then add the same content back
    service.delete_task(task_id).expect("delete to work");
    let replacement = service
        .add_task(task_input(&model_id, "new prompt", vec![]))
        .expect("re-adding to work");
    service
        .prompt(replacement.task_id.clone(), "q".to_string())
        .expect("prompt after delete and add");
}

#[test]
fn model_status_mirrors_the_last_event() {
    let mut service = AIService::new();
    let r = service.model_status("8".to_string());
    assert_eq!(r.unwrap_err(), AIServiceError::ModelNotFound);
    let model_id = service
        .add_model(local_llm_input("M", "llama_tiny"), EngineBuild::Success)
        .expect("model to be added");
    let status = service.model_status(model_id.clone()).expect("a status row");
    assert_eq!(status.model, model_id);
    assert!(matches!(status.status, StatusText::Ready));
    assert!(status.downloaded);
    assert!(status.loaded);
}

#[test]
fn removing_an_unknown_model_is_reported() {
    let mut service = AIService::new();
    assert_eq!(
        service.remove_model("9".to_string()).unwrap_err(),
        AIServiceError::ModelNotFound,
    );
    assert_eq!(
        service
            .update_model("9".to_string(), local_llm_input("M", "llama_tiny"), EngineBuild::Success)
            .unwrap_err(),
        AIServiceError::ModelNotFound,
    );
}

#[test]
fn load_spawns_persisted_models_and_tasks() {
    let mut service = AIService::new();
    let model_id = service
        .add_model(local_llm_input("M", "llama_tiny"), EngineBuild::Success)
        .expect("model to be added");
    let task = service
        .add_task(task_input(&model_id, "sys", vec![]))
        .expect("task to be added");
    // a fresh supervisor over the same store, as after a restart
    let mut restarted = AIService::new();
    restarted.db = service.db;
    let builds: KvList<BuildReport> = KvList::new();
    restarted.load(&builds).expect("loading to work");
    restarted
        .prompt(task.task_id.clone(), "hello".to_string())
        .expect("a persisted task to be prompt-ready after the load");
    let status = restarted.model_status(model_id).expect("a status row");
    assert!(status.downloaded);
}

#[test]
fn update_model_gives_the_worker_a_fresh_epoch() {
    let mut service = AIService::new();
    let model_id = service
        .add_model(local_llm_input("M", "llama_tiny"), EngineBuild::Success)
        .expect("model to be added");
    let first_epoch = service.llm_channel.get(&model_id).expect("a mailbox").epoch;
    service
        .update_model(
            model_id.clone(),
            local_llm_input("M", "llama_tiny"),
            EngineBuild::Success,
        )
        .expect("model to be updated");
    let second_epoch = service.llm_channel.get(&model_id).expect("a mailbox").epoch;
    assert_ne!(first_epoch, second_epoch);
}

#[test]
fn load_leaves_terminal_status_flags_for_every_llm() {
    let mut service = AIService::new();
    let good = service
        .add_model(local_llm_input("good", "llama_tiny"), EngineBuild::Success)
        .expect("model to be added");
    let bad = service
        .add_model(local_llm_input("bad", "nonsense"), EngineBuild::Success)
        .expect("model to be added");
    let mut restarted = AIService::new();
    restarted.db = service.db;
    let builds: KvList<BuildReport> = KvList::new();
    restarted.load(&builds).expect("loading to work");
    let good_row = restarted.model_status(good).expect("a status row");
    assert!(good_row.downloaded && good_row.loaded);
    let bad_row = restarted.model_status(bad).expect("a status row");
    assert!(bad_row.downloaded);
    assert!(!bad_row.loaded);
    assert!(matches!(bad_row.status, StatusText::FailedToBuildLlm { .. }));
}
