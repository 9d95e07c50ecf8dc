use ad4m_executor::db::Ad4mDb;
use ad4m_executor::types::{
    AIPromptExamples, AITaskInput, LocalModel, ModelInput, ModelType, StatusText,
};

fn embedding_input(name: &str) -> ModelInput {
    ModelInput {
        name: name.to_string(),
        model_type: ModelType::Embedding,
        local: Some(LocalModel {
            file_name: "bert".to_string(),
            tokenizer_source: None,
            huggingface_repo: None,
            revision: None,
        }),
        api: None,
    }
}

#[test]
fn store_assigns_counter_ids() {
    let mut db = Ad4mDb::new();
    let first = db.add_model(&embedding_input("one"));
    let second = db.add_model(&embedding_input("two"));
    assert_eq!(first, "0");
    assert_eq!(second, "1");
    assert_eq!(db.get_model(&first).unwrap().name, "one");
    assert_eq!(db.get_model(&second).unwrap().name, "two");
    assert!(db.get_model(&"2".to_string()).is_none());
}

#[test]
fn store_updates_keep_the_id_and_removal_forgets_it() {
    let mut db = Ad4mDb::new();
    let id = db.add_model(&embedding_input("before"));
    assert!(db.update_model(&id, &embedding_input("after")));
    let stored = db.get_model(&id).unwrap();
    assert_eq!(stored.id, id);
    assert_eq!(stored.name, "after");
    assert!(db.remove_model(&id));
    assert!(db.get_model(&id).is_none());
    assert!(!db.remove_model(&id));
}

#[test]
fn store_task_round_trip() {
    let mut db = Ad4mDb::new();
    let task_id = db.add_task(&AITaskInput {
        name: "t".to_string(),
        model_id: "m".to_string(),
        system_prompt: "sys".to_string(),
        prompt_examples: vec![AIPromptExamples {
            input: "i".to_string(),
            output: "o".to_string(),
        }],
        meta_data: Some("meta".to_string()),
    });
    let stored = db.get_task(&task_id).unwrap();
    assert_eq!(stored.task_id, task_id);
    assert_eq!(stored.name, "t");
    assert_eq!(stored.model_id, "m");
    assert_eq!(stored.system_prompt, "sys");
    assert_eq!(stored.prompt_examples.len(), 1);
    assert_eq!(stored.prompt_examples[0].input, "i");
    assert_eq!(stored.meta_data.as_deref(), Some("meta"));
    assert!(db.remove_task(&task_id));
    assert!(db.get_task(&task_id).is_none());
}

#[test]
fn status_rows_are_last_writer_wins() {
    let mut db = Ad4mDb::new();
    let id = "m1".to_string();
    db.create_or_update_model_status(&id, 10, StatusText::Loading, false, false);
    db.create_or_update_model_status(&id, 100, StatusText::Ready, true, true);
    let row = db.get_model_status(&id).unwrap();
    assert_eq!(row.progress, 100);
    assert!(matches!(row.status, StatusText::Ready));
    assert!(row.downloaded);
    assert!(row.loaded);
    assert!(db.get_model_status(&"other".to_string()).is_none());
}

#[test]
fn only_the_language_model_default_is_observed() {
    let mut db = Ad4mDb::new();
    assert!(db.get_default_model(ModelType::Llm).is_none());
    db.set_default_model(ModelType::Llm, &"a".to_string());
    assert_eq!(db.get_default_model(ModelType::Llm).as_deref(), Some("a"));
    db.set_default_model(ModelType::Embedding, &"b".to_string());
    assert_eq!(db.get_default_model(ModelType::Llm).as_deref(), Some("a"));
    assert!(db.get_default_model(ModelType::Embedding).is_none());
}
