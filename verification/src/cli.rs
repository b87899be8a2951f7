//! Decisions of the command-line controller and its offline responder.
use vstd::prelude::*;
use vstd::string::*;

use crate::conversation::{ConversationManager, Role};
use crate::memory::{
    has, lemma_dog_question_recalls_latest_name, lemma_other_questions_skip_memory,
    lemma_recall_question_quotes_previous_prompt, message_dog_name, lemma_lowercase_all_insert, lemma_memory_reply_insert_non_user, lowered_inputs, memory_reply,
    memory_reply_from_lowered, lowercase_all, views_of,
};
use crate::text::{
    chars_of, contains_seq, eq_ignore_ascii_case, eq_ignore_ascii_case_spec, is_whitespace_char,
    lemma_strip_ends, lowercase_of, string_of, trim_chars, trim_spec, CharClass,
};

verus! {

/// The fallback reply of the terminal responder.
pub open spec fn repl_fallback(prompt_lower: Seq<char>) -> Seq<char> {
    if contains_seq(prompt_lower, "hello"@) || contains_seq(prompt_lower, "hi"@) {
        "Hello! I am Pocket LLaMA, now running with Phase 3 active memory and dynamic ChatML templating. How can I help you today?"@
    } else if contains_seq(prompt_lower, "model"@) || contains_seq(prompt_lower, "phi"@)
        || contains_seq(prompt_lower, "gguf"@) {
        "With Phase 3 complete, we can format full conversational histories into quantized GGUF CPU models like LLaMA or Phi using unified templates and stream the answers in real-time."@
    } else if contains_seq(prompt_lower, "help"@) {
        "You are in the interactive CLI REPL. I now maintain full multi-turn conversational history. You can mention facts (like 'my dog's name is Winnie') and ask me about them later to test my memory!"@
    } else if contains_seq(prompt_lower, "ram"@) || contains_seq(prompt_lower, "memory"@)
        || contains_seq(prompt_lower, "size"@) {
        "Pocket LLaMA monitors system memory using sysinfo. In this Phase 3 REPL, the ConversationManager stores all turns to construct cohesive prompt blocks."@
    } else {
        "This is a mock conversational response. Once a real GGUF model is loaded with -m and -t, the entire multi-turn conversation history will be compiled and executed using candle-core."@
    }
}

/// The reply of the terminal responder: from memory when it can, else the fallback.
pub open spec fn repl_reply(
    prompt_lower: Seq<char>,
    history: Seq<(Role, Seq<char>)>,
    lowers: Seq<Seq<char>>,
) -> Seq<char> {
    match memory_reply(prompt_lower, history, lowers) {
        Some(r) => r,
        None => repl_fallback(prompt_lower),
    }
}

/// The fallback reply of the terminal responder for a lower-cased prompt.
pub fn repl_fallback_reply(prompt_lower: &[char]) -> (r: String)
    ensures
        r@ == repl_fallback(prompt_lower@),
{
    if has(prompt_lower, "hello") || has(prompt_lower, "hi") {
        String::from_str(
            "Hello! I am Pocket LLaMA, now running with Phase 3 active memory and dynamic ChatML templating. How can I help you today?",
        )
    } else if has(prompt_lower, "model") || has(prompt_lower, "phi") || has(prompt_lower, "gguf") {
        String::from_str(
            "With Phase 3 complete, we can format full conversational histories into quantized GGUF CPU models like LLaMA or Phi using unified templates and stream the answers in real-time.",
        )
    } else if has(prompt_lower, "help") {
        String::from_str(
            "You are in the interactive CLI REPL. I now maintain full multi-turn conversational history. You can mention facts (like 'my dog's name is Winnie') and ask me about them later to test my memory!",
        )
    } else if has(prompt_lower, "ram") || has(prompt_lower, "memory") || has(prompt_lower, "size") {
        String::from_str(
            "Pocket LLaMA monitors system memory using sysinfo. In this Phase 3 REPL, the ConversationManager stores all turns to construct cohesive prompt blocks.",
        )
    } else {
        String::from_str(
            "This is a mock conversational response. Once a real GGUF model is loaded with -m and -t, the entire multi-turn conversation history will be compiled and executed using candle-core.",
        )
    }
}

/// The terminal responder's reply, given the lower-cased prompt and the
/// lower-cased text of every turn.
pub fn repl_reply_from_lowered(
    prompt_lower: &[char],
    manager: &ConversationManager,
    lowers: &Vec<Vec<char>>,
) -> (r: String)
    requires
        lowers@.len() == manager.messages@.len(),
    ensures
        r@ == repl_reply(prompt_lower@, manager.history(), views_of(lowers@)),
{
    match memory_reply_from_lowered(prompt_lower, &manager.messages, lowers) {
        Some(r) => r,
        None => repl_fallback_reply(prompt_lower),
    }
}

/// A context-aware offline reply that reflects the conversation held by
/// `manager` (which already holds `prompt` as its latest user turn).
pub fn get_conversational_mock_response(prompt: &str, manager: &ConversationManager) -> (r: String)
    ensures
        r@ == repl_reply(lowercase_of(prompt@), manager.history(), lowercase_all(manager.history())),
{
    let (prompt_lower, lowers) = lowered_inputs(prompt, manager);
    repl_reply_from_lowered(prompt_lower.as_slice(), manager, &lowers)
}

/// What the controller runs once the engine is set up.
#[derive(Debug, Clone, Copy, PartialEq, Eq, Structural)]
pub enum LaunchMode {
    /// Open the browser on the portal and serve the API.
    WebUi,
    /// Serve the API without opening a browser.
    ApiServer,
    /// Run the interactive terminal loop.
    Repl,
}

/// The launch mode: the web UI when asked for or when the program was started
/// with no argument at all (`arg_count` counts the program name), else the API
/// server when asked for, else the terminal loop.
pub open spec fn launch_mode_spec(ui: bool, serve: bool, arg_count: nat) -> LaunchMode {
    if ui || arg_count <= 1 {
        LaunchMode::WebUi
    } else if serve {
        LaunchMode::ApiServer
    } else {
        LaunchMode::Repl
    }
}

/// Chooses the launch mode from the flags and the number of command-line words.
pub fn launch_mode(ui: bool, serve: bool, arg_count: usize) -> (r: LaunchMode)
    ensures
        r == launch_mode_spec(ui, serve, arg_count as nat),
        ui ==> r == LaunchMode::WebUi,
        arg_count <= 1 ==> r == LaunchMode::WebUi,
        !ui && arg_count > 1 && serve ==> r == LaunchMode::ApiServer,
        !ui && arg_count > 1 && !serve ==> r == LaunchMode::Repl,
{
    if ui || arg_count <= 1 {
        LaunchMode::WebUi
    } else if serve {
        LaunchMode::ApiServer
    } else {
        LaunchMode::Repl
    }
}

/// What one line typed at the terminal asks for.
#[derive(Debug, Clone, PartialEq, Eq)]
pub enum ReplInput {
    /// Nothing but white space: prompt again.
    Skip,
    /// `exit` or `quit`, in any letter case: leave the loop.
    Exit,
    /// A prompt for the model, trimmed of surrounding white space.
    Prompt(String),
}

/// The abstract meaning of a typed line.
pub enum ReplInputView {
    Skip,
    Exit,
    Prompt(Seq<char>),
}

impl View for ReplInput {
    type V = ReplInputView;

    open spec fn view(&self) -> ReplInputView {
        match self {
            ReplInput::Skip => ReplInputView::Skip,
            ReplInput::Exit => ReplInputView::Exit,
            ReplInput::Prompt(p) => ReplInputView::Prompt(p@),
        }
    }
}

/// What a typed line asks for.
pub open spec fn classify_input_spec(line: Seq<char>) -> ReplInputView {
    let t = trim_spec(line);
    if t.len() == 0 {
        ReplInputView::Skip
    } else if eq_ignore_ascii_case_spec(t, "exit"@) || eq_ignore_ascii_case_spec(t, "quit"@) {
        ReplInputView::Exit
    } else {
        ReplInputView::Prompt(t)
    }
}

/// Reads what a line typed at the terminal asks for.
pub fn classify_input(line: &str) -> (r: ReplInput)
    ensures
        r@ == classify_input_spec(line@),
{
    let chars = chars_of(line);
    let trimmed = trim_chars(chars.as_slice());
    if trimmed.len() == 0 {
        return ReplInput::Skip;
    }
    let exit = chars_of("exit");
    let quit = chars_of("quit");
    if eq_ignore_ascii_case(trimmed.as_slice(), exit.as_slice()) || eq_ignore_ascii_case(
        trimmed.as_slice(),
        quit.as_slice(),
    ) {
        ReplInput::Exit
    } else {
        ReplInput::Prompt(string_of(trimmed.as_slice()))
    }
}


/// A line read as a prompt is never empty, never starts or ends with white
/// space, and is neither `exit` nor `quit` in any letter case.
pub proof fn lemma_prompt_is_trimmed(line: Seq<char>)
    ensures
        trim_spec(line).len() == 0 ==> classify_input_spec(line) == ReplInputView::Skip,
        trim_spec(line).len() > 0 && (eq_ignore_ascii_case_spec(trim_spec(line), "exit"@)
            || eq_ignore_ascii_case_spec(trim_spec(line), "quit"@)) ==> classify_input_spec(line)
            == ReplInputView::Exit,
        classify_input_spec(line) matches ReplInputView::Prompt(t) ==> t == trim_spec(line),
        classify_input_spec(line) matches ReplInputView::Prompt(t) ==> {
            &&& t.len() > 0
            &&& !is_whitespace_char(t[0])
            &&& !is_whitespace_char(t.last())
            &&& !eq_ignore_ascii_case_spec(t, "exit"@)
            &&& !eq_ignore_ascii_case_spec(t, "quit"@)
        },
{
    lemma_strip_ends(line, CharClass::Whitespace);
}


/// The terminal responder's reply does not change when a turn that is not the
/// user's is inserted anywhere before the latest turn.
pub proof fn lemma_repl_reply_ignores_inserted_non_user_turn(
    prompt: Seq<char>,
    history: Seq<(Role, Seq<char>)>,
    k: int,
    turn: (Role, Seq<char>),
)
    requires
        0 <= k < history.len(),
        turn.0 != Role::User,
    ensures
        repl_reply(lowercase_of(prompt), history.insert(k, turn), lowercase_all(history.insert(k, turn)))
            == repl_reply(lowercase_of(prompt), history, lowercase_all(history)),
{
    lemma_lowercase_all_insert(history, k, turn);
    lemma_memory_reply_insert_non_user(
        lowercase_of(prompt),
        history,
        lowercase_all(history),
        k,
        turn,
        lowercase_of(turn.1),
    );
}

/// The terminal responder answers a question about the dog with the latest name a user
/// turn states, whether the question holds "name" or "what is".
pub proof fn lemma_repl_reply_recalls_dog_name(
    prompt_lower: Seq<char>,
    history: Seq<(Role, Seq<char>)>,
    lowers: Seq<Seq<char>>,
    i: int,
    name: Seq<char>,
)
    requires
        contains_seq(prompt_lower, "dog"@),
        contains_seq(prompt_lower, "name"@) || contains_seq(prompt_lower, "what is"@),
        lowers.len() == history.len(),
        0 <= i < history.len(),
        history[i].0 == Role::User,
        message_dog_name(history[i].1, lowers[i]) == Some(name),
        forall|j: int|
            #![trigger history[j]]
            i < j < history.len() && history[j].0 == Role::User ==> message_dog_name(
                history[j].1,
                lowers[j],
            ) is None,
    ensures
        repl_reply(prompt_lower, history, lowers) == "You previously mentioned that your dog's name is "@
            + name + "! This is proof that my multi-turn conversation memory (Phase 3) is working flawlessly in offline demo mode. What else would you like to discuss?"@,
{
    lemma_dog_question_recalls_latest_name(prompt_lower, history, lowers, i, name);
}

/// The terminal responder quotes the user's previous prompt when asked for it (and not
/// about the dog) after an exchange.
pub proof fn lemma_repl_reply_quotes_previous_prompt(
    prompt_lower: Seq<char>,
    history: Seq<(Role, Seq<char>)>,
    lowers: Seq<Seq<char>>,
    earlier: Seq<char>,
    answer: Seq<char>,
    current: Seq<char>,
)
    requires
        !contains_seq(prompt_lower, "dog"@),
        contains_seq(prompt_lower, "last prompt"@) || contains_seq(prompt_lower, "did i say"@)
            || contains_seq(prompt_lower, "previous prompt"@),
    ensures
        repl_reply(
            prompt_lower,
            history.push((Role::User, earlier)).push((Role::Assistant, answer)).push(
                (Role::User, current),
            ),
            lowers,
        ) == "Your previous prompt in this session was: \""@ + earlier
            + "\". My ConversationManager tracks all of our historical turns perfectly!"@,
{
    lemma_recall_question_quotes_previous_prompt(prompt_lower, history, lowers, earlier, answer, current);
}

/// Without a question for memory, the terminal responder answers a prompt that holds
/// "hello", "hi" with its fixed reply.
pub proof fn lemma_repl_reply_fallback_hello(
    prompt_lower: Seq<char>,
    history: Seq<(Role, Seq<char>)>,
    lowers: Seq<Seq<char>>,
)
    requires
        !contains_seq(prompt_lower, "dog"@),
        !contains_seq(prompt_lower, "last prompt"@),
        !contains_seq(prompt_lower, "did i say"@),
        !contains_seq(prompt_lower, "previous prompt"@),
        contains_seq(prompt_lower, "hello"@) || contains_seq(prompt_lower, "hi"@),
    ensures
        repl_reply(prompt_lower, history, lowers) == "Hello! I am Pocket LLaMA, now running with Phase 3 active memory and dynamic ChatML templating. How can I help you today?"@,
{
    lemma_other_questions_skip_memory(prompt_lower, history, lowers);
}

/// Without a question for memory, the terminal responder answers a prompt that holds
/// "model", "phi", "gguf" (and none of the earlier keywords) with its fixed reply.
pub proof fn lemma_repl_reply_fallback_model(
    prompt_lower: Seq<char>,
    history: Seq<(Role, Seq<char>)>,
    lowers: Seq<Seq<char>>,
)
    requires
        !contains_seq(prompt_lower, "dog"@),
        !contains_seq(prompt_lower, "last prompt"@),
        !contains_seq(prompt_lower, "did i say"@),
        !contains_seq(prompt_lower, "previous prompt"@),
        !contains_seq(prompt_lower, "hello"@),
        !contains_seq(prompt_lower, "hi"@),
        contains_seq(prompt_lower, "model"@) || contains_seq(prompt_lower, "phi"@) || contains_seq(prompt_lower, "gguf"@),
    ensures
        repl_reply(prompt_lower, history, lowers) == "With Phase 3 complete, we can format full conversational histories into quantized GGUF CPU models like LLaMA or Phi using unified templates and stream the answers in real-time."@,
{
    lemma_other_questions_skip_memory(prompt_lower, history, lowers);
}

/// Without a question for memory, the terminal responder answers a prompt that holds
/// "help" (and none of the earlier keywords) with its fixed reply.
pub proof fn lemma_repl_reply_fallback_help(
    prompt_lower: Seq<char>,
    history: Seq<(Role, Seq<char>)>,
    lowers: Seq<Seq<char>>,
)
    requires
        !contains_seq(prompt_lower, "dog"@),
        !contains_seq(prompt_lower, "last prompt"@),
        !contains_seq(prompt_lower, "did i say"@),
        !contains_seq(prompt_lower, "previous prompt"@),
        !contains_seq(prompt_lower, "hello"@),
        !contains_seq(prompt_lower, "hi"@),
        !contains_seq(prompt_lower, "model"@),
        !contains_seq(prompt_lower, "phi"@),
        !contains_seq(prompt_lower, "gguf"@),
        contains_seq(prompt_lower, "help"@),
    ensures
        repl_reply(prompt_lower, history, lowers) == "You are in the interactive CLI REPL. I now maintain full multi-turn conversational history. You can mention facts (like 'my dog's name is Winnie') and ask me about them later to test my memory!"@,
{
    lemma_other_questions_skip_memory(prompt_lower, history, lowers);
}

/// Without a question for memory, the terminal responder answers a prompt that holds
/// "ram", "memory", "size" (and none of the earlier keywords) with its fixed reply.
pub proof fn lemma_repl_reply_fallback_ram(
    prompt_lower: Seq<char>,
    history: Seq<(Role, Seq<char>)>,
    lowers: Seq<Seq<char>>,
)
    requires
        !contains_seq(prompt_lower, "dog"@),
        !contains_seq(prompt_lower, "last prompt"@),
        !contains_seq(prompt_lower, "did i say"@),
        !contains_seq(prompt_lower, "previous prompt"@),
        !contains_seq(prompt_lower, "hello"@),
        !contains_seq(prompt_lower, "hi"@),
        !contains_seq(prompt_lower, "model"@),
        !contains_seq(prompt_lower, "phi"@),
        !contains_seq(prompt_lower, "gguf"@),
        !contains_seq(prompt_lower, "help"@),
        contains_seq(prompt_lower, "ram"@) || contains_seq(prompt_lower, "memory"@) || contains_seq(prompt_lower, "size"@),
    ensures
        repl_reply(prompt_lower, history, lowers) == "Pocket LLaMA monitors system memory using sysinfo. In this Phase 3 REPL, the ConversationManager stores all turns to construct cohesive prompt blocks."@,
{
    lemma_other_questions_skip_memory(prompt_lower, history, lowers);
}

/// Without a question for memory, the terminal responder answers a prompt that holds
/// none of the keywords (and none of the earlier keywords) with its fixed reply.
pub proof fn lemma_repl_reply_fallback_other(
    prompt_lower: Seq<char>,
    history: Seq<(Role, Seq<char>)>,
    lowers: Seq<Seq<char>>,
)
    requires
        !contains_seq(prompt_lower, "dog"@),
        !contains_seq(prompt_lower, "last prompt"@),
        !contains_seq(prompt_lower, "did i say"@),
        !contains_seq(prompt_lower, "previous prompt"@),
        !contains_seq(prompt_lower, "hello"@),
        !contains_seq(prompt_lower, "hi"@),
        !contains_seq(prompt_lower, "model"@),
        !contains_seq(prompt_lower, "phi"@),
        !contains_seq(prompt_lower, "gguf"@),
        !contains_seq(prompt_lower, "help"@),
        !contains_seq(prompt_lower, "ram"@),
        !contains_seq(prompt_lower, "memory"@),
        !contains_seq(prompt_lower, "size"@),
    ensures
        repl_reply(prompt_lower, history, lowers) == "This is a mock conversational response. Once a real GGUF model is loaded with -m and -t, the entire multi-turn conversation history will be compiled and executed using candle-core."@,
{
    lemma_other_questions_skip_memory(prompt_lower, history, lowers);
}

/// The `--ui` flag, or a start without any argument, always opens the web
/// UI; otherwise `--serve` serves the API and anything else runs the
/// terminal loop.
pub proof fn lemma_launch_mode_rules(ui: bool, serve: bool, arg_count: nat)
    ensures
        ui ==> launch_mode_spec(ui, serve, arg_count) == LaunchMode::WebUi,
        arg_count <= 1 ==> launch_mode_spec(ui, serve, arg_count) == LaunchMode::WebUi,
        !ui && arg_count > 1 ==> (launch_mode_spec(ui, serve, arg_count) == LaunchMode::ApiServer
            <==> serve),
        !ui && arg_count > 1 && !serve ==> launch_mode_spec(ui, serve, arg_count)
            == LaunchMode::Repl,
{
}

} // verus!
