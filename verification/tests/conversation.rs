use pocket_llama::conversation::{ConversationManager, Message, Role};

#[test]
fn test_conversation_manager_formatting() {
    let mut manager = ConversationManager::new(Some("You are a helpful assistant.".to_string()));

    let initial_prompt = manager.get_formatted_prompt();
    assert_eq!(
        initial_prompt,
        "<|system|>\nYou are a helpful assistant.<|end|>\n<|assistant|>\n"
    );

    manager.add_message(Role::User, "Hello!".to_string());
    let after_user = manager.get_formatted_prompt();
    assert_eq!(
        after_user,
        "<|system|>\nYou are a helpful assistant.<|end|>\n<|user|>\nHello!<|end|>\n<|assistant|>\n"
    );

    manager.add_message(Role::Assistant, "Hi there!".to_string());
    manager.add_message(Role::User, "Tell me a story.".to_string());
    let final_prompt = manager.get_formatted_prompt();
    assert_eq!(
        final_prompt,
        "<|system|>\nYou are a helpful assistant.<|end|>\n<|user|>\nHello!<|end|>\n<|assistant|>\nHi there!<|end|>\n<|user|>\nTell me a story.<|end|>\n<|assistant|>\n"
    );
}

#[test]
fn default_system_prompt_is_used_without_override() {
    let manager = ConversationManager::new(None);
    assert_eq!(manager.system_prompt, "You are a helpful, highly capable AI assistant.");
    assert!(manager.messages.is_empty());
    assert_eq!(
        manager.get_formatted_prompt(),
        "<|system|>\nYou are a helpful, highly capable AI assistant.<|end|>\n<|assistant|>\n"
    );
}

#[test]
fn empty_system_prompt_has_no_system_block() {
    let mut manager = ConversationManager::new(Some(String::new()));
    assert_eq!(manager.get_formatted_prompt(), "<|assistant|>\n");
    manager.add_message(Role::System, "Be brief.".to_string());
    manager.add_message(Role::User, "Hi".to_string());
    assert_eq!(
        manager.get_formatted_prompt(),
        "<|system|>\nBe brief.<|end|>\n<|user|>\nHi<|end|>\n<|assistant|>\n"
    );
}

#[test]
fn clear_keeps_system_prompt_and_drops_turns() {
    let mut manager = ConversationManager::new(Some("S".to_string()));
    manager.add_message(Role::User, "one".to_string());
    manager.add_message(Role::Assistant, "two".to_string());
    assert_eq!(manager.messages.len(), 2);
    manager.clear();
    assert!(manager.messages.is_empty());
    assert_eq!(manager.system_prompt, "S");
    assert_eq!(
        manager.get_formatted_prompt(),
        ConversationManager::new(Some("S".to_string())).get_formatted_prompt()
    );
}

#[test]
fn adding_a_turn_extends_the_prompt_by_its_block() {
    let mut manager = ConversationManager::new(Some("S".to_string()));
    manager.add_message(Role::User, "first".to_string());
    let before = manager.get_formatted_prompt();
    manager.add_message(Role::Assistant, "reply".to_string());
    let after = manager.get_formatted_prompt();
    let kept = &before[..before.len() - "<|assistant|>\n".len()];
    assert_eq!(after, format!("{}<|assistant|>\nreply<|end|>\n<|assistant|>\n", kept));
    assert!(after.ends_with("<|assistant|>\n"));
}

#[test]
fn messages_compare_by_role_and_content() {
    let a = Message { role: Role::User, content: "x".to_string() };
    let b = Message { role: Role::User, content: "x".to_string() };
    let c = Message { role: Role::Assistant, content: "x".to_string() };
    let d = Message { role: Role::User, content: "y".to_string() };
    assert!(a == b);
    assert!(a != c);
    assert!(a != d);
    assert_eq!(a.clone(), b);
}
