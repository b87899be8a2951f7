//! The Gemini-compatible request and response envelopes, their mapping onto
//! the conversation, the offline responder of the API, and the content type of
//! the embedded web assets.
use vstd::prelude::*;
use vstd::string::*;

use crate::conversation::{default_system_prompt, ConversationManager, Role};
use crate::memory::{
    has, lemma_dog_question_recalls_latest_name, lemma_other_questions_skip_memory,
    lemma_recall_question_quotes_previous_prompt, message_dog_name, lemma_lowercase_all_insert, lemma_memory_reply_insert_non_user, lowered_inputs, lowercase_all, memory_reply,
    memory_reply_from_lowered, views_of,
};
use crate::text::{contains_seq, lowercase_of, str_is};

verus! {

/// A text part of a Gemini message.
#[derive(Debug, Clone)]
pub struct Part {
    pub text: String,
}

/// A Gemini message: a role (`"user"` or `"model"`) and its text parts.
#[derive(Debug, Clone)]
pub struct Content {
    pub role: String,
    pub parts: Vec<Part>,
}

/// The body of a `generateContent` request.
#[derive(Debug, Clone)]
pub struct GenerateContentRequest {
    pub contents: Vec<Content>,
}

/// One candidate answer.
#[derive(Debug, Clone)]
pub struct Candidate {
    pub content: Content,
}

/// The body of a `generateContent` response.
#[derive(Debug, Clone)]
pub struct GenerateContentResponse {
    pub candidates: Vec<Candidate>,
}

impl View for Part {
    type V = Seq<char>;

    open spec fn view(&self) -> Seq<char> {
        self.text@
    }
}

impl View for Content {
    type V = (Seq<char>, Seq<Seq<char>>);

    open spec fn view(&self) -> (Seq<char>, Seq<Seq<char>>) {
        (self.role@, self.parts@.map_values(|p: Part| p@))
    }
}

impl View for GenerateContentRequest {
    type V = Seq<(Seq<char>, Seq<Seq<char>>)>;

    open spec fn view(&self) -> Seq<(Seq<char>, Seq<Seq<char>>)> {
        self.contents@.map_values(|c: Content| c@)
    }
}

impl View for Candidate {
    type V = (Seq<char>, Seq<Seq<char>>);

    open spec fn view(&self) -> (Seq<char>, Seq<Seq<char>>) {
        self.content@
    }
}

impl View for GenerateContentResponse {
    type V = Seq<(Seq<char>, Seq<Seq<char>>)>;

    open spec fn view(&self) -> Seq<(Seq<char>, Seq<Seq<char>>)> {
        self.candidates@.map_values(|c: Candidate| c@)
    }
}

/// The conversation role of a Gemini role: `"model"` speaks as the
/// assistant, `"user"` and every other role as the user.
pub open spec fn role_of(role: Seq<char>) -> Role {
    if role == "user"@ {
        Role::User
    } else if role == "model"@ {
        Role::Assistant
    } else {
        Role::User
    }
}

/// The texts joined with a newline between each two.
pub open spec fn join_lines(texts: Seq<Seq<char>>) -> Seq<char>
    decreases texts.len(),
{
    if texts.len() == 0 {
        Seq::empty()
    } else if texts.len() == 1 {
        texts[0]
    } else {
        join_lines(texts.drop_last()) + "\n"@ + texts.last()
    }
}

/// The conversation turn that a Gemini message becomes.
pub open spec fn turn_of(content: (Seq<char>, Seq<Seq<char>>)) -> (Role, Seq<char>) {
    (role_of(content.0), join_lines(content.1))
}

/// The conversation history that a request becomes, one turn per message.
pub open spec fn request_history(request: Seq<(Seq<char>, Seq<Seq<char>>)>) -> Seq<(Role, Seq<char>)> {
    request.map_values(|c: (Seq<char>, Seq<Seq<char>>)| turn_of(c))
}

/// Only the `"model"` role speaks as the assistant.
pub proof fn lemma_only_model_is_assistant(role: Seq<char>)
    ensures
        role_of(role) == Role::Assistant <==> role == "model"@,
{
    reveal_strlit("user");
    reveal_strlit("model");
    if role == "user"@ {
        assert("user"@[0] != "model"@[0]);
    }
}

/// Maps a Gemini role onto a conversation role.
pub fn role_from_gemini(role: &str) -> (r: Role)
    ensures
        r == role_of(role@),
{
    if str_is(role, "user") {
        Role::User
    } else if str_is(role, "model") {
        Role::Assistant
    } else {
        Role::User
    }
}

/// The text of all parts of a message, joined with newlines.
pub fn join_parts(parts: &Vec<Part>) -> (r: String)
    ensures
        r@ == join_lines(parts@.map_values(|p: Part| p@)),
{
    let ghost texts = parts@.map_values(|p: Part| p@);
    let n = parts.len();
    let mut r = String::new();
    let mut i: usize = 0;
    while i < n
        invariant
            n == parts@.len(),
            texts == parts@.map_values(|p: Part| p@),
            i <= n,
            r@ == join_lines(texts.take(i as int)),
        decreases n - i,
    {
        assert(texts.take(i + 1).drop_last() =~= texts.take(i as int));
        assert(texts.take(i + 1).last() == parts@[i as int].text@);
        if i != 0 {
            r.append("\n");
        } else {
            assert(texts.take(1)[0] == parts@[0].text@);
        }
        r.append(parts[i].text.as_str());
        i = i + 1;
    }
    assert(texts.take(n as int) =~= texts);
    r
}

/// The conversation that a request describes: the default system prompt and
/// one turn per message, in order.
pub fn conversation_from_request(request: &GenerateContentRequest) -> (r: ConversationManager)
    ensures
        r.system_prompt@ == default_system_prompt(),
        r.history() == request_history(request@),
{
    let mut manager = ConversationManager::new(None);
    let n = request.contents.len();
    let mut i: usize = 0;
    assert(manager.history() =~= request_history(request@).take(0));
    while i < n
        invariant
            n == request.contents@.len(),
            i <= n,
            manager.system_prompt@ == default_system_prompt(),
            manager.history() == request_history(request@).take(i as int),
        decreases n - i,
    {
        let content = &request.contents[i];
        let role = role_from_gemini(content.role.as_str());
        let text = join_parts(&content.parts);
        manager.add_message(role, text);
        assert(request@[i as int] == content@);
        assert(manager.history() =~= request_history(request@).take(i + 1));
        i = i + 1;
    }
    assert(request_history(request@).take(n as int) =~= request_history(request@));
    manager
}

/// The response envelope: one candidate, spoken by `"model"`, whose single
/// part holds the text.
pub fn build_response(text: String) -> (r: GenerateContentResponse)
    ensures
        r@ == seq![("model"@, seq![text@])],
{
    let ghost t = text@;
    let mut parts: Vec<Part> = Vec::new();
    parts.push(Part { text });
    let content = Content { role: String::from_str("model"), parts };
    let mut candidates: Vec<Candidate> = Vec::new();
    candidates.push(Candidate { content });
    let r = GenerateContentResponse { candidates };
    assert(r.candidates@[0].content.parts@.map_values(|p: Part| p@) =~= seq![t]);
    assert(r@ =~= seq![("model"@, seq![t])]);
    r
}

/// The fallback reply of the API's offline responder.
pub open spec fn api_fallback(prompt_lower: Seq<char>) -> Seq<char> {
    if contains_seq(prompt_lower, "hello"@) || contains_seq(prompt_lower, "hi"@) {
        "Hello! This is the Pocket LLaMA Server operating in offline demo mode. I mimic the Gemini API generateContent endpoint beautifully. How can I help you today?"@
    } else if contains_seq(prompt_lower, "model"@) || contains_seq(prompt_lower, "phi"@)
        || contains_seq(prompt_lower, "gguf"@) {
        "I am currently running in offline mock mode. Provide GGUF model and tokenizer paths to run real CPU inference."@
    } else {
        "This is a mock response from the Gemini-compatible pocket-server. Connect your frontend or tooling to start testing offline edge AI!"@
    }
}

/// The reply of the API's offline responder: from memory when it can, else
/// the fallback.
pub open spec fn api_reply(
    prompt_lower: Seq<char>,
    history: Seq<(Role, Seq<char>)>,
    lowers: Seq<Seq<char>>,
) -> Seq<char> {
    match memory_reply(prompt_lower, history, lowers) {
        Some(r) => r,
        None => api_fallback(prompt_lower),
    }
}

/// The fallback reply of the API's offline responder for a lower-cased prompt.
pub fn api_fallback_reply(prompt_lower: &[char]) -> (r: String)
    ensures
        r@ == api_fallback(prompt_lower@),
{
    if has(prompt_lower, "hello") || has(prompt_lower, "hi") {
        String::from_str(
            "Hello! This is the Pocket LLaMA Server operating in offline demo mode. I mimic the Gemini API generateContent endpoint beautifully. How can I help you today?",
        )
    } else if has(prompt_lower, "model") || has(prompt_lower, "phi") || has(prompt_lower, "gguf") {
        String::from_str(
            "I am currently running in offline mock mode. Provide GGUF model and tokenizer paths to run real CPU inference.",
        )
    } else {
        String::from_str(
            "This is a mock response from the Gemini-compatible pocket-server. Connect your frontend or tooling to start testing offline edge AI!",
        )
    }
}

/// The API's offline reply, given the lower-cased prompt and the lower-cased
/// text of every turn.
pub fn api_reply_from_lowered(
    prompt_lower: &[char],
    manager: &ConversationManager,
    lowers: &Vec<Vec<char>>,
) -> (r: String)
    requires
        lowers@.len() == manager.messages@.len(),
    ensures
        r@ == api_reply(prompt_lower@, manager.history(), views_of(lowers@)),
{
    match memory_reply_from_lowered(prompt_lower, &manager.messages, lowers) {
        Some(r) => r,
        None => api_fallback_reply(prompt_lower),
    }
}

/// A conversational offline reply of the API to `prompt`, reflecting the
/// conversation held by `manager`.
pub fn get_conversational_mock_response(prompt: &str, manager: &ConversationManager) -> (r: String)
    ensures
        r@ == api_reply(lowercase_of(prompt@), manager.history(), lowercase_all(manager.history())),
{
    let (prompt_lower, lowers) = lowered_inputs(prompt, manager);
    api_reply_from_lowered(prompt_lower.as_slice(), manager, &lowers)
}

/// The latest message's text, or the empty text for an empty conversation.
pub open spec fn latest_text(history: Seq<(Role, Seq<char>)>) -> Seq<char> {
    if history.len() == 0 {
        Seq::empty()
    } else {
        history.last().1
    }
}

/// The API's offline reply to the latest message of the conversation (the
/// empty text for an empty conversation).
pub fn offline_reply(manager: &ConversationManager) -> (r: String)
    ensures
        r@ == api_reply(
            lowercase_of(latest_text(manager.history())),
            manager.history(),
            lowercase_all(manager.history()),
        ),
        manager.messages@.len() > 0 ==> r@ == api_reply(
            lowercase_of(manager.messages@.last().content@),
            manager.history(),
            lowercase_all(manager.history()),
        ),
        manager.messages@.len() == 0 ==> r@ == api_reply(
            lowercase_of(Seq::empty()),
            manager.history(),
            lowercase_all(manager.history()),
        ),
{
    let n = manager.messages.len();
    let prompt = if n == 0 {
        String::new()
    } else {
        manager.messages[n - 1].content.clone()
    };
    get_conversational_mock_response(prompt.as_str(), manager)
}


/// The API responder's reply does not change when a turn that is not the
/// user's is inserted anywhere before the latest turn.
pub proof fn lemma_api_reply_ignores_inserted_non_user_turn(
    prompt: Seq<char>,
    history: Seq<(Role, Seq<char>)>,
    k: int,
    turn: (Role, Seq<char>),
)
    requires
        0 <= k < history.len(),
        turn.0 != Role::User,
    ensures
        api_reply(lowercase_of(prompt), history.insert(k, turn), lowercase_all(history.insert(k, turn)))
            == api_reply(lowercase_of(prompt), history, lowercase_all(history)),
{
    lemma_lowercase_all_insert(history, k, turn);
    lemma_memory_reply_insert_non_user(
        lowercase_of(prompt),
        history,
        lowercase_all(history),
        k,
        turn,
        lowercase_of(turn.1),
    );
}

/// The extension of a path, as `Path::extension` finds it (the part of the
/// file name after its last dot), taken as text.
pub uninterp spec fn path_extension(path: Seq<char>) -> Option<Seq<char>>;

/// `std::path::Path::extension` of a path given as text. The contract claims
/// that the result is `path_extension` of the path's characters (a function
/// of the path alone) and, as the documentation says, that an extension is
/// the part of the file name after its final dot, so holds no dot. How the
/// file name is found among the path's components is left unstated.
#[verifier::external_body]
fn extension_of(path: &str) -> (r: Option<String>)
    ensures
        r matches Some(e) ==> path_extension(path@) == Some(e@) && !e@.contains('.'),
        r is None ==> path_extension(path@) is None,
{
    std::path::Path::new(path).extension().and_then(|e| e.to_str()).map(|e| e.to_string())
}

/// The media type served for a file with the given extension.
pub open spec fn content_type_spec(extension: Option<Seq<char>>) -> Seq<char> {
    match extension {
        Some(e) => if e == "html"@ {
            "text/html"@
        } else if e == "css"@ {
            "text/css"@
        } else if e == "js"@ {
            "application/javascript"@
        } else if e == "png"@ {
            "image/png"@
        } else if e == "svg"@ {
            "image/svg+xml"@
        } else {
            "application/octet-stream"@
        },
        None => "application/octet-stream"@,
    }
}

/// The media type served for a file with the given extension.
pub fn content_type_for_extension(extension: &Option<String>) -> (r: String)
    ensures
        r@ == content_type_spec(match extension {
            Some(e) => Some(e@),
            None => None,
        }),
{
    match extension {
        Some(e) => {
            let e = e.as_str();
            if str_is(e, "html") {
                String::from_str("text/html")
            } else if str_is(e, "css") {
                String::from_str("text/css")
            } else if str_is(e, "js") {
                String::from_str("application/javascript")
            } else if str_is(e, "png") {
                String::from_str("image/png")
            } else if str_is(e, "svg") {
                String::from_str("image/svg+xml")
            } else {
                String::from_str("application/octet-stream")
            }
        },
        None => String::from_str("application/octet-stream"),
    }
}

/// The media type served for an embedded asset at `path`.
pub fn content_type_for_path(path: &str) -> (r: String)
    ensures
        r@ == content_type_spec(path_extension(path@)),
{
    let extension = extension_of(path);
    content_type_for_extension(&extension)
}

/// How an asset request is answered: the status code, and the media type of
/// the body when the asset exists (else the body is "Not Found").
pub open spec fn asset_head_spec(path: Seq<char>, found: bool) -> (u16, Option<Seq<char>>) {
    if found {
        (200, Some(content_type_spec(path_extension(path))))
    } else {
        (404, None)
    }
}

/// The status and media type of the answer to a request for the asset at
/// `path`, given whether the asset exists.
pub fn asset_head(path: &str, found: bool) -> (r: (u16, Option<String>))
    ensures
        r.0 == asset_head_spec(path@, found).0,
        r.1 matches Some(t) ==> asset_head_spec(path@, found).1 == Some(t@),
        r.1 is None ==> asset_head_spec(path@, found).1 is None,
{
    if found {
        (200, Some(content_type_for_path(path)))
    } else {
        (404, None)
    }
}

/// The API responder answers a question about the dog with the latest name a user
/// turn states, whether the question holds "name" or "what is".
pub proof fn lemma_api_reply_recalls_dog_name(
    prompt_lower: Seq<char>,
    history: Seq<(Role, Seq<char>)>,
    lowers: Seq<Seq<char>>,
    i: int,
    name: Seq<char>,
)
    requires
        contains_seq(prompt_lower, "dog"@),
        contains_seq(prompt_lower, "name"@) || contains_seq(prompt_lower, "what is"@),
        lowers.len() == history.len(),
        0 <= i < history.len(),
        history[i].0 == Role::User,
        message_dog_name(history[i].1, lowers[i]) == Some(name),
        forall|j: int|
            #![trigger history[j]]
            i < j < history.len() && history[j].0 == Role::User ==> message_dog_name(
                history[j].1,
                lowers[j],
            ) is None,
    ensures
        api_reply(prompt_lower, history, lowers) == "You previously mentioned that your dog's name is "@
            + name + "! This is proof that my multi-turn conversation memory (Phase 3) is working flawlessly in offline demo mode. What else would you like to discuss?"@,
{
    lemma_dog_question_recalls_latest_name(prompt_lower, history, lowers, i, name);
}

/// The API responder quotes the user's previous prompt when asked for it (and not
/// about the dog) after an exchange.
pub proof fn lemma_api_reply_quotes_previous_prompt(
    prompt_lower: Seq<char>,
    history: Seq<(Role, Seq<char>)>,
    lowers: Seq<Seq<char>>,
    earlier: Seq<char>,
    answer: Seq<char>,
    current: Seq<char>,
)
    requires
        !contains_seq(prompt_lower, "dog"@),
        contains_seq(prompt_lower, "last prompt"@) || contains_seq(prompt_lower, "did i say"@)
            || contains_seq(prompt_lower, "previous prompt"@),
    ensures
        api_reply(
            prompt_lower,
            history.push((Role::User, earlier)).push((Role::Assistant, answer)).push(
                (Role::User, current),
            ),
            lowers,
        ) == "Your previous prompt in this session was: \""@ + earlier
            + "\". My ConversationManager tracks all of our historical turns perfectly!"@,
{
    lemma_recall_question_quotes_previous_prompt(prompt_lower, history, lowers, earlier, answer, current);
}

/// Without a question for memory, the API responder answers a prompt that holds
/// "hello", "hi" with its fixed reply.
pub proof fn lemma_api_reply_fallback_hello(
    prompt_lower: Seq<char>,
    history: Seq<(Role, Seq<char>)>,
    lowers: Seq<Seq<char>>,
)
    requires
        !contains_seq(prompt_lower, "dog"@),
        !contains_seq(prompt_lower, "last prompt"@),
        !contains_seq(prompt_lower, "did i say"@),
        !contains_seq(prompt_lower, "previous prompt"@),
        contains_seq(prompt_lower, "hello"@) || contains_seq(prompt_lower, "hi"@),
    ensures
        api_reply(prompt_lower, history, lowers) == "Hello! This is the Pocket LLaMA Server operating in offline demo mode. I mimic the Gemini API generateContent endpoint beautifully. How can I help you today?"@,
{
    lemma_other_questions_skip_memory(prompt_lower, history, lowers);
}

/// Without a question for memory, the API responder answers a prompt that holds
/// "model", "phi", "gguf" (and none of the earlier keywords) with its fixed reply.
pub proof fn lemma_api_reply_fallback_model(
    prompt_lower: Seq<char>,
    history: Seq<(Role, Seq<char>)>,
    lowers: Seq<Seq<char>>,
)
    requires
        !contains_seq(prompt_lower, "dog"@),
        !contains_seq(prompt_lower, "last prompt"@),
        !contains_seq(prompt_lower, "did i say"@),
        !contains_seq(prompt_lower, "previous prompt"@),
        !contains_seq(prompt_lower, "hello"@),
        !contains_seq(prompt_lower, "hi"@),
        contains_seq(prompt_lower, "model"@) || contains_seq(prompt_lower, "phi"@) || contains_seq(prompt_lower, "gguf"@),
    ensures
        api_reply(prompt_lower, history, lowers) == "I am currently running in offline mock mode. Provide GGUF model and tokenizer paths to run real CPU inference."@,
{
    lemma_other_questions_skip_memory(prompt_lower, history, lowers);
}

/// Without a question for memory, the API responder answers a prompt that holds
/// none of the keywords (and none of the earlier keywords) with its fixed reply.
pub proof fn lemma_api_reply_fallback_other(
    prompt_lower: Seq<char>,
    history: Seq<(Role, Seq<char>)>,
    lowers: Seq<Seq<char>>,
)
    requires
        !contains_seq(prompt_lower, "dog"@),
        !contains_seq(prompt_lower, "last prompt"@),
        !contains_seq(prompt_lower, "did i say"@),
        !contains_seq(prompt_lower, "previous prompt"@),
        !contains_seq(prompt_lower, "hello"@),
        !contains_seq(prompt_lower, "hi"@),
        !contains_seq(prompt_lower, "model"@),
        !contains_seq(prompt_lower, "phi"@),
        !contains_seq(prompt_lower, "gguf"@),
    ensures
        api_reply(prompt_lower, history, lowers) == "This is a mock response from the Gemini-compatible pocket-server. Connect your frontend or tooling to start testing offline edge AI!"@,
{
    lemma_other_questions_skip_memory(prompt_lower, history, lowers);
}

/// The offline reply answers the latest message: for a non-empty history,
/// the text answered is that of its last turn, and the empty text otherwise.
pub proof fn lemma_offline_reply_answers_latest(history: Seq<(Role, Seq<char>)>)
    ensures
        history.len() > 0 ==> latest_text(history) == history[history.len() - 1].1,
        history.len() == 0 ==> latest_text(history) == Seq::<char>::empty(),
{
}

/// Joining adds one newline between each two texts and keeps every text
/// whole: a single text is itself, and one more text adds a newline and that
/// text at the end.
pub proof fn lemma_join_lines_step(texts: Seq<Seq<char>>, next: Seq<char>)
    ensures
        join_lines(seq![next]) == next,
        texts.len() >= 1 ==> join_lines(texts.push(next)) == join_lines(texts) + "\n"@ + next,
        texts.len() == 0 ==> join_lines(texts.push(next)) == next,
{
    assert(texts.push(next).drop_last() =~= texts);
    if texts.len() == 0 {
        assert(texts.push(next) =~= seq![next]);
    }
}

/// The media types of the embedded assets: HTML, CSS, JavaScript, PNG and SVG
/// by their extensions, and `application/octet-stream` for anything else.
pub proof fn lemma_content_type_table(extension: Option<Seq<char>>)
    ensures
        extension == Some("html"@) ==> content_type_spec(extension) == "text/html"@,
        extension == Some("css"@) ==> content_type_spec(extension) == "text/css"@,
        extension == Some("js"@) ==> content_type_spec(extension) == "application/javascript"@,
        extension == Some("png"@) ==> content_type_spec(extension) == "image/png"@,
        extension == Some("svg"@) ==> content_type_spec(extension) == "image/svg+xml"@,
        extension is None ==> content_type_spec(extension) == "application/octet-stream"@,
        (extension matches Some(e) && e != "html"@ && e != "css"@ && e != "js"@ && e != "png"@
            && e != "svg"@) ==> content_type_spec(extension) == "application/octet-stream"@,
{
    reveal_strlit("html");
    reveal_strlit("css");
    reveal_strlit("js");
    reveal_strlit("png");
    reveal_strlit("svg");
    assert("html"@ != "css"@ && "html"@ != "js"@ && "html"@ != "png"@ && "html"@ != "svg"@) by {
        assert("html"@[0] != "css"@[0] && "html"@[0] != "js"@[0] && "html"@[0] != "png"@[0]
            && "html"@[0] != "svg"@[0]);
    }
    assert("css"@ != "js"@ && "css"@ != "png"@ && "css"@ != "svg"@) by {
        assert("css"@[0] != "js"@[0] && "css"@[0] != "png"@[0] && "css"@[1] != "svg"@[1]);
    }
    assert("js"@ != "png"@ && "js"@ != "svg"@) by {
        assert("js"@.len() != "png"@.len() && "js"@.len() != "svg"@.len());
    }
    assert("png"@ != "svg"@) by {
        assert("png"@[0] != "svg"@[0]);
    }
}

} // verus!
