use pocket_llama::cli;
use pocket_llama::conversation::{ConversationManager, Role};
use pocket_llama::server;

fn manager_with(turns: &[(Role, &str)]) -> ConversationManager {
    let mut m = ConversationManager::new(None);
    for (role, text) in turns {
        m.add_message(*role, text.to_string());
    }
    m
}

const DOG_PREFIX: &str = "You previously mentioned that your dog's name is ";
const DOG_SUFFIX: &str = "! This is proof that my multi-turn conversation memory (Phase 3) is working flawlessly in offline demo mode. What else would you like to discuss?";

#[test]
fn repl_recalls_the_dogs_name() {
    let prompt = "What is my dog's name?";
    let m = manager_with(&[
        (Role::User, "My dog's name is Winnie."),
        (Role::Assistant, "Nice!"),
        (Role::User, prompt),
    ]);
    let r = cli::get_conversational_mock_response(prompt, &m);
    assert_eq!(r, format!("{}Winnie.{}", DOG_PREFIX, DOG_SUFFIX));
}

#[test]
fn repl_recalls_a_dog_is_named_phrase_and_trims_junk() {
    let prompt = "what is the name of my dog";
    let m = manager_with(&[(Role::User, "my dog is named \"Rex\", he is old"), (Role::User, prompt)]);
    let r = cli::get_conversational_mock_response(prompt, &m);
    assert_eq!(r, format!("{}Rex{}", DOG_PREFIX, DOG_SUFFIX));
}

#[test]
fn latest_mention_of_the_name_wins() {
    let prompt = "dog name?";
    let m = manager_with(&[
        (Role::User, "my dog's name is Winnie"),
        (Role::User, "Actually my DOG'S NAME IS Bolt now"),
        (Role::Assistant, "my dog's name is Robo"),
        (Role::User, prompt),
    ]);
    assert_eq!(
        cli::get_conversational_mock_response(prompt, &m),
        format!("{}Bolt{}", DOG_PREFIX, DOG_SUFFIX)
    );
}

#[test]
fn empty_name_is_not_remembered() {
    let prompt = "what is my dog called";
    let m = manager_with(&[(Role::User, "my dog's name is !!!"), (Role::User, prompt)]);
    // No name is left after trimming, so the fallback answers.
    assert_eq!(
        cli::get_conversational_mock_response(prompt, &m),
        "This is a mock conversational response. Once a real GGUF model is loaded with -m and -t, the entire multi-turn conversation history will be compiled and executed using candle-core."
    );
}

#[test]
fn repl_recalls_the_previous_prompt() {
    let prompt = "What did I say before?";
    let m = manager_with(&[
        (Role::User, "Tell me about Rust"),
        (Role::Assistant, "Rust is great"),
        (Role::User, prompt),
    ]);
    assert_eq!(
        cli::get_conversational_mock_response(prompt, &m),
        "Your previous prompt in this session was: \"Tell me about Rust\". My ConversationManager tracks all of our historical turns perfectly!"
    );
}

#[test]
fn recall_without_history_falls_back() {
    let prompt = "what was my last prompt";
    let m = manager_with(&[(Role::User, prompt)]);
    assert_eq!(
        cli::get_conversational_mock_response(prompt, &m),
        "This is a mock conversational response. Once a real GGUF model is loaded with -m and -t, the entire multi-turn conversation history will be compiled and executed using candle-core."
    );
}

#[test]
fn repl_fallbacks() {
    let m = ConversationManager::new(None);
    assert_eq!(
        cli::get_conversational_mock_response("HELLO there", &m),
        "Hello! I am Pocket LLaMA, now running with Phase 3 active memory and dynamic ChatML templating. How can I help you today?"
    );
    assert_eq!(
        cli::get_conversational_mock_response("Which GGUF file?", &m),
        "Hello! I am Pocket LLaMA, now running with Phase 3 active memory and dynamic ChatML templating. How can I help you today?"
    );
    assert_eq!(
        cli::get_conversational_mock_response("load a GGUF", &m),
        "With Phase 3 complete, we can format full conversational histories into quantized GGUF CPU models like LLaMA or Phi using unified templates and stream the answers in real-time."
    );
    assert_eq!(
        cli::get_conversational_mock_response("HELP", &m),
        "You are in the interactive CLI REPL. I now maintain full multi-turn conversational history. You can mention facts (like 'my dog's name is Winnie') and ask me about them later to test my memory!"
    );
    assert_eq!(
        cli::get_conversational_mock_response("How much RAM?", &m),
        "Pocket LLaMA monitors system memory using sysinfo. In this Phase 3 REPL, the ConversationManager stores all turns to construct cohesive prompt blocks."
    );
    assert_eq!(
        cli::get_conversational_mock_response("tell me a story", &m),
        "This is a mock conversational response. Once a real GGUF model is loaded with -m and -t, the entire multi-turn conversation history will be compiled and executed using candle-core."
    );
}

#[test]
fn lowercasing_shift_is_kept_as_is() {
    // 'İ' lower-cases to two characters, one byte longer: the name is cut one byte late.
    let prompt = "what is my dog's name";
    let m = manager_with(&[(Role::User, "İ think my dog's name is Rex"), (Role::User, prompt)]);
    assert_eq!(
        cli::get_conversational_mock_response(prompt, &m),
        format!("{}ex{}", DOG_PREFIX, DOG_SUFFIX)
    );
}

#[test]
fn offset_off_a_character_boundary_snaps_back_to_one() {
    let prompt = "what is my dog's name";
    // The offset lies past the end of the message: nothing follows, no name.
    let past_end = manager_with(&[(Role::User, "İ dog's name is "), (Role::User, prompt)]);
    assert_eq!(
        cli::get_conversational_mock_response(prompt, &past_end),
        "This is a mock conversational response. Once a real GGUF model is loaded with -m and -t, the entire multi-turn conversation history will be compiled and executed using candle-core."
    );
    // The offset falls inside 'ñ': the name starts at that character.
    let inside_char = manager_with(&[(Role::User, "İ dog's name is ñu"), (Role::User, prompt)]);
    assert_eq!(
        cli::get_conversational_mock_response(prompt, &inside_char),
        format!("{}ñu{}", DOG_PREFIX, DOG_SUFFIX)
    );
}

#[test]
fn server_recalls_a_name_after_a_lengthening_lowercase() {
    let mut m = ConversationManager::new(None);
    m.add_message(Role::User, "İ my dog's name is Émile".to_string());
    m.add_message(Role::User, "What is my dog's name?".to_string());
    assert_eq!(
        server::get_conversational_mock_response("What is my dog's name?", &m),
        format!("{}Émile{}", DOG_PREFIX, DOG_SUFFIX)
    );
    assert_eq!(server::offline_reply(&m), format!("{}Émile{}", DOG_PREFIX, DOG_SUFFIX));
}

#[test]
fn inserted_assistant_turns_change_nothing() {
    let prompt = "what did i say last prompt? and my dog name";
    let base = manager_with(&[
        (Role::User, "my dog is named Bo"),
        (Role::User, "first question"),
        (Role::User, prompt),
    ]);
    let mut padded = manager_with(&[
        (Role::Assistant, "my dog's name is Zed"),
        (Role::User, "my dog is named Bo"),
        (Role::System, "x"),
        (Role::User, "first question"),
        (Role::Assistant, "answer"),
        (Role::User, prompt),
    ]);
    assert_eq!(
        cli::get_conversational_mock_response(prompt, &base),
        cli::get_conversational_mock_response(prompt, &padded)
    );
    assert_eq!(
        server::get_conversational_mock_response(prompt, &base),
        server::get_conversational_mock_response(prompt, &padded)
    );
    padded.clear();
    assert!(padded.messages.is_empty());
}

#[test]
fn server_responder_uses_its_own_fallbacks() {
    let m = ConversationManager::new(None);
    assert_eq!(
        server::get_conversational_mock_response("hi", &m),
        "Hello! This is the Pocket LLaMA Server operating in offline demo mode. I mimic the Gemini API generateContent endpoint beautifully. How can I help you today?"
    );
    assert_eq!(
        server::get_conversational_mock_response("which model", &m),
        "Hello! This is the Pocket LLaMA Server operating in offline demo mode. I mimic the Gemini API generateContent endpoint beautifully. How can I help you today?"
    );
    assert_eq!(
        server::get_conversational_mock_response("load a GGUF", &m),
        "I am currently running in offline mock mode. Provide GGUF model and tokenizer paths to run real CPU inference."
    );
    assert_eq!(
        server::get_conversational_mock_response("help", &m),
        "This is a mock response from the Gemini-compatible pocket-server. Connect your frontend or tooling to start testing offline edge AI!"
    );
}

#[test]
fn server_offline_reply_answers_the_latest_message() {
    let m = manager_with(&[
        (Role::User, "my dog is named Fido"),
        (Role::Assistant, "ok"),
        (Role::User, "What is my dog's name?"),
    ]);
    assert_eq!(server::offline_reply(&m), format!("{}Fido{}", DOG_PREFIX, DOG_SUFFIX));
    let empty = ConversationManager::new(None);
    assert_eq!(
        server::offline_reply(&empty),
        "This is a mock response from the Gemini-compatible pocket-server. Connect your frontend or tooling to start testing offline edge AI!"
    );
}
