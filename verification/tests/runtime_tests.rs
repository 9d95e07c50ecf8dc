use ad4m_executor::runtime::{
    add_friend, add_know_link_language, add_message_to_outbox, add_trusted_agent, get_friends,
    get_know_link_languages, get_outbox, get_trusted_agents, remove_friend,
    remove_know_link_language, remove_trusted_agent, Runtime, SentMessage,
};

#[test]
fn trusted_agents_append_and_remove_all_occurrences() {
    let mut rt = Runtime::new();
    add_trusted_agent(&mut rt, vec!["did:a".to_string(), "did:b".to_string()]);
    add_trusted_agent(&mut rt, vec!["did:a".to_string()]);
    assert_eq!(get_trusted_agents(&rt), vec!["did:a", "did:b", "did:a"]);
    remove_trusted_agent(&mut rt, vec!["did:a".to_string()]);
    assert_eq!(get_trusted_agents(&rt), vec!["did:b"]);
    remove_trusted_agent(&mut rt, vec!["did:missing".to_string()]);
    assert_eq!(get_trusted_agents(&rt), vec!["did:b"]);
}

#[test]
fn know_link_languages_keep_order() {
    let mut rt = Runtime::new();
    add_know_link_language(&mut rt, vec!["lang1".to_string(), "lang2".to_string()]);
    add_know_link_language(&mut rt, vec!["lang3".to_string()]);
    assert_eq!(get_know_link_languages(&rt), vec!["lang1", "lang2", "lang3"]);
    remove_know_link_language(&mut rt, vec!["lang2".to_string()]);
    assert_eq!(get_know_link_languages(&rt), vec!["lang1", "lang3"]);
}

#[test]
fn friends_list_round_trip() {
    let mut rt = Runtime::new();
    assert!(get_friends(&rt).is_empty());
    add_friend(&mut rt, vec!["alice".to_string()]);
    add_friend(&mut rt, vec!["bob".to_string(), "alice".to_string()]);
    assert_eq!(get_friends(&rt), vec!["alice", "bob", "alice"]);
    remove_friend(&mut rt, vec!["alice".to_string(), "carol".to_string()]);
    assert_eq!(get_friends(&rt), vec!["bob"]);
}

#[test]
fn outbox_keeps_messages_in_order() {
    let mut rt = Runtime::new();
    add_message_to_outbox(
        &mut rt,
        SentMessage { recipient: "alice".to_string(), message: "hi".to_string() },
    );
    add_message_to_outbox(
        &mut rt,
        SentMessage { recipient: "bob".to_string(), message: "hello".to_string() },
    );
    let outbox = get_outbox(&rt);
    assert_eq!(outbox.len(), 2);
    assert_eq!(outbox[0].recipient, "alice");
    assert_eq!(outbox[0].message, "hi");
    assert_eq!(outbox[1].recipient, "bob");
    assert_eq!(outbox[1].message, "hello");
}
