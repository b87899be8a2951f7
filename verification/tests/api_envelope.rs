use pocket_llama::conversation::Role;
use pocket_llama::server::{
    asset_head, build_response, content_type_for_extension, content_type_for_path, conversation_from_request,
    join_parts, role_from_gemini, Content, GenerateContentRequest, Part,
};

fn content(role: &str, parts: &[&str]) -> Content {
    Content {
        role: role.to_string(),
        parts: parts.iter().map(|t| Part { text: t.to_string() }).collect(),
    }
}

#[test]
fn gemini_roles_map_onto_conversation_roles() {
    assert_eq!(role_from_gemini("user"), Role::User);
    assert_eq!(role_from_gemini("model"), Role::Assistant);
    assert_eq!(role_from_gemini("system"), Role::User);
    assert_eq!(role_from_gemini("Model"), Role::User);
    assert_eq!(role_from_gemini(""), Role::User);
}

#[test]
fn parts_are_joined_with_newlines() {
    assert_eq!(join_parts(&vec![]), "");
    assert_eq!(join_parts(&content("user", &["a"]).parts), "a");
    assert_eq!(join_parts(&content("user", &["a", "", "b c"]).parts), "a\n\nb c");
}

#[test]
fn request_becomes_a_conversation() {
    let request = GenerateContentRequest {
        contents: vec![
            content("user", &["Hello", "there"]),
            content("model", &["Hi!"]),
            content("user", &["Tell me a story."]),
        ],
    };
    let manager = conversation_from_request(&request);
    assert_eq!(manager.system_prompt, "You are a helpful, highly capable AI assistant.");
    assert_eq!(manager.messages.len(), 3);
    assert_eq!(manager.messages[0].role, Role::User);
    assert_eq!(manager.messages[0].content, "Hello\nthere");
    assert_eq!(manager.messages[1].role, Role::Assistant);
    assert_eq!(manager.messages[2].content, "Tell me a story.");
    assert_eq!(
        manager.get_formatted_prompt(),
        "<|system|>\nYou are a helpful, highly capable AI assistant.<|end|>\n<|user|>\nHello\nthere<|end|>\n<|assistant|>\nHi!<|end|>\n<|user|>\nTell me a story.<|end|>\n<|assistant|>\n"
    );
}

#[test]
fn response_envelope_holds_one_model_candidate() {
    let r = build_response("answer".to_string());
    assert_eq!(r.candidates.len(), 1);
    assert_eq!(r.candidates[0].content.role, "model");
    assert_eq!(r.candidates[0].content.parts.len(), 1);
    assert_eq!(r.candidates[0].content.parts[0].text, "answer");
}

#[test]
fn asset_content_types() {
    assert_eq!(content_type_for_path("index.html"), "text/html");
    assert_eq!(content_type_for_path("css/style.css"), "text/css");
    assert_eq!(content_type_for_path("app.js"), "application/javascript");
    assert_eq!(content_type_for_path("img/logo.png"), "image/png");
    assert_eq!(content_type_for_path("icon.svg"), "image/svg+xml");
    assert_eq!(content_type_for_path("archive.tar.gz"), "application/octet-stream");
    assert_eq!(content_type_for_path("README"), "application/octet-stream");
    assert_eq!(content_type_for_path(".html"), "application/octet-stream");
    assert_eq!(content_type_for_path("page.HTML"), "application/octet-stream");
    assert_eq!(content_type_for_extension(&Some("svg".to_string())), "image/svg+xml");
    assert_eq!(content_type_for_extension(&None), "application/octet-stream");
}

#[test]
fn asset_answers() {
    assert_eq!(asset_head("index.html", true), (200, Some("text/html".to_string())));
    assert_eq!(asset_head("data.bin", true), (200, Some("application/octet-stream".to_string())));
    assert_eq!(asset_head("index.html", false), (404, None));
}
