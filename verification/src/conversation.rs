//! Conversation memory and its chat-template rendering.
use vstd::prelude::*;
use vstd::string::*;

verus! {

/// The role of the speaker in a conversation turn.
#[derive(Debug, Clone, Copy, PartialEq, Eq, Structural)]
pub enum Role {
    System,
    User,
    Assistant,
}

/// A single turn of a multi-turn conversation.
#[derive(Debug, Clone)]
pub struct Message {
    pub role: Role,
    pub content: String,
}

impl View for Message {
    type V = (Role, Seq<char>);

    open spec fn view(&self) -> (Role, Seq<char>) {
        (self.role, self.content@)
    }
}

impl PartialEq for Message {
    fn eq(&self, other: &Message) -> (r: bool) {
        self.role == other.role && self.content == other.content
    }
}

impl vstd::std_specs::cmp::PartialEqSpecImpl for Message {
    open spec fn obeys_eq_spec() -> bool {
        true
    }

    open spec fn eq_spec(&self, other: &Message) -> bool {
        self.role == other.role && self.content@ == other.content@
    }
}

impl Eq for Message {}

/// Rolling conversation history together with the system prompt that opens it.
#[derive(Debug, Clone)]
pub struct ConversationManager {
    pub system_prompt: String,
    pub messages: Vec<Message>,
}

/// The system prompt used when none is given.
pub open spec fn default_system_prompt() -> Seq<char> {
    "You are a helpful, highly capable AI assistant."@
}

/// The opening tag of a turn spoken in the given role.
pub open spec fn role_tag(role: Role) -> Seq<char> {
    match role {
        Role::System => "<|system|>\n"@,
        Role::User => "<|user|>\n"@,
        Role::Assistant => "<|assistant|>\n"@,
    }
}

/// The tag that closes every turn.
pub open spec fn end_tag() -> Seq<char> {
    "<|end|>\n"@
}

/// One rendered turn: its role tag, its text and the closing tag.
pub open spec fn turn_block(role: Role, content: Seq<char>) -> Seq<char> {
    role_tag(role) + content + end_tag()
}

/// The rendered history, one block per turn, oldest first.
pub open spec fn history_blocks(history: Seq<(Role, Seq<char>)>) -> Seq<char>
    decreases history.len(),
{
    if history.len() == 0 {
        Seq::empty()
    } else {
        history_blocks(history.drop_last()) + turn_block(history.last().0, history.last().1)
    }
}

/// The system block: absent when the system prompt is empty.
pub open spec fn system_block(system_prompt: Seq<char>) -> Seq<char> {
    if system_prompt.len() == 0 {
        Seq::empty()
    } else {
        turn_block(Role::System, system_prompt)
    }
}

/// The whole prompt: system block, history, and an open assistant turn.
pub open spec fn formatted_prompt(
    system_prompt: Seq<char>,
    history: Seq<(Role, Seq<char>)>,
) -> Seq<char> {
    system_block(system_prompt) + history_blocks(history) + role_tag(Role::Assistant)
}

/// The abstract history of a message log.
pub open spec fn history_of(messages: Seq<Message>) -> Seq<(Role, Seq<char>)> {
    messages.map_values(|m: Message| m@)
}

impl ConversationManager {
    /// The abstract history held by this manager.
    pub open spec fn history(&self) -> Seq<(Role, Seq<char>)> {
        history_of(self.messages@)
    }

    /// Creates a manager with the given system prompt, or the default one.
    pub fn new(system_prompt: Option<String>) -> (r: Self)
        ensures
            r.system_prompt@ == (match system_prompt {
                Some(s) => s@,
                None => default_system_prompt(),
            }),
            r.messages@.len() == 0,
    {
        let system_prompt = match system_prompt {
            Some(s) => s,
            None => String::from_str("You are a helpful, highly capable AI assistant."),
        };
        ConversationManager { system_prompt, messages: Vec::new() }
    }

    /// Appends a new turn to the message log.
    pub fn add_message(&mut self, role: Role, content: String)
        ensures
            final(self).system_prompt@ == old(self).system_prompt@,
            final(self).messages@ == old(self).messages@.push(Message { role, content }),
            final(self).history() == old(self).history().push((role, content@)),
    {
        let ghost content_view = content@;
        self.messages.push(Message { role, content });
        proof {
            assert(self.history() =~= old(self).history().push((role, content_view)));
        }
    }

    /// Empties the message log; the system prompt stays.
    pub fn clear(&mut self)
        ensures
            final(self).system_prompt@ == old(self).system_prompt@,
            final(self).messages@.len() == 0,
            final(self).history() == Seq::<(Role, Seq<char>)>::empty(),
    {
        self.messages.clear();
        proof {
            assert(self.history() =~= Seq::<(Role, Seq<char>)>::empty());
        }
    }

    /// Renders the system prompt and the history in the chat template,
    /// leaving the final assistant turn open.
    pub fn get_formatted_prompt(&self) -> (r: String)
        ensures
            r@ == formatted_prompt(self.system_prompt@, self.history()),
    {
        let mut prompt = String::new();
        if !self.system_prompt.as_str().is_empty() {
            prompt.append("<|system|>\n");
            prompt.append(self.system_prompt.as_str());
            prompt.append("<|end|>\n");
        }
        assert(prompt@ =~= system_block(self.system_prompt@));
        let ghost head = prompt@;
        let n = self.messages.len();
        let mut i: usize = 0;
        while i < n
            invariant
                n == self.messages@.len(),
                i <= n,
                head == system_block(self.system_prompt@),
                prompt@ == head + history_blocks(history_of(self.messages@.take(i as int))),
            decreases n - i,
        {
            let message = &self.messages[i];
            match message.role {
                Role::System => {
                    prompt.append("<|system|>\n");
                },
                Role::User => {
                    prompt.append("<|user|>\n");
                },
                Role::Assistant => {
                    prompt.append("<|assistant|>\n");
                },
            }
            prompt.append(message.content.as_str());
            prompt.append("<|end|>\n");
            proof {
                let h = history_of(self.messages@.take(i + 1));
                assert(h.drop_last() =~= history_of(self.messages@.take(i as int)));
                assert(h.last() == self.messages@[i as int]@);
            }
            i = i + 1;
        }
        prompt.append("<|assistant|>\n");
        proof {
            assert(self.messages@.take(n as int) =~= self.messages@);
            lemma_prompt_length(self.system_prompt@, self.history());
        }
        prompt
    }
}


/// Rendering is compositional: the blocks of two consecutive stretches of
/// history are the blocks of the first followed by those of the second.
pub proof fn lemma_history_blocks_concat(first: Seq<(Role, Seq<char>)>, second: Seq<(Role, Seq<char>)>)
    ensures
        history_blocks(first + second) == history_blocks(first) + history_blocks(second),
    decreases second.len(),
{
    if second.len() == 0 {
        assert(first + second =~= first);
        assert(history_blocks(first) + Seq::<char>::empty() =~= history_blocks(first));
    } else {
        lemma_history_blocks_concat(first, second.drop_last());
        assert((first + second).drop_last() =~= first + second.drop_last());
        assert((first + second).last() == second.last());
        assert(history_blocks(first) + history_blocks(second.drop_last()) + turn_block(
            second.last().0,
            second.last().1,
        ) =~= history_blocks(first) + (history_blocks(second.drop_last()) + turn_block(
            second.last().0,
            second.last().1,
        )));
    }
}

/// Adding a turn to the conversation extends the rendered prompt by exactly
/// that turn's block, just before the open assistant turn.
pub proof fn lemma_add_message_extends_prompt(
    system_prompt: Seq<char>,
    history: Seq<(Role, Seq<char>)>,
    role: Role,
    content: Seq<char>,
)
    ensures
        formatted_prompt(system_prompt, history.push((role, content))) == system_block(
            system_prompt,
        ) + history_blocks(history) + turn_block(role, content) + role_tag(Role::Assistant),
{
    assert(history.push((role, content)).drop_last() =~= history);
}

/// Every rendered prompt ends with the open assistant turn, and starts with
/// the system block.
pub proof fn lemma_prompt_frame(system_prompt: Seq<char>, history: Seq<(Role, Seq<char>)>)
    ensures
        ({
            let p = formatted_prompt(system_prompt, history);
            let tail = role_tag(Role::Assistant);
            let head = system_block(system_prompt);
            &&& p.len() >= head.len() + tail.len()
            &&& p.subrange(p.len() - tail.len(), p.len() as int) == tail
            &&& p.take(head.len() as int) == head
        }),
{
    let p = formatted_prompt(system_prompt, history);
    let tail = role_tag(Role::Assistant);
    let head = system_block(system_prompt);
    let mid = history_blocks(history);
    assert(p == head + mid + tail);
    assert(p.subrange(p.len() - tail.len(), p.len() as int) =~= tail);
    assert(p.take(head.len() as int) =~= head);
}

/// A conversation without turns renders as the system block followed by the
/// open assistant turn: after `clear`, the prompt is that of a fresh manager
/// with the same system prompt.
pub proof fn lemma_empty_history_prompt(system_prompt: Seq<char>)
    ensures
        formatted_prompt(system_prompt, Seq::empty()) == system_block(system_prompt) + role_tag(
            Role::Assistant,
        ),
{
    assert(system_block(system_prompt) + Seq::<char>::empty() =~= system_block(system_prompt));
}

/// The rendered prompt of a longer conversation extends that of any earlier
/// state of it: the earlier prompt without its open assistant turn is a
/// prefix of the later one.
pub proof fn lemma_prompt_grows_by_appending(
    system_prompt: Seq<char>,
    earlier: Seq<(Role, Seq<char>)>,
    later_turns: Seq<(Role, Seq<char>)>,
)
    ensures
        ({
            let before = formatted_prompt(system_prompt, earlier);
            let after = formatted_prompt(system_prompt, earlier + later_turns);
            let kept = (before.len() - role_tag(Role::Assistant).len()) as int;
            &&& 0 <= kept <= after.len()
            &&& after.take(kept) == before.take(kept)
        }),
{
    lemma_history_blocks_concat(earlier, later_turns);
    let head = system_block(system_prompt);
    let a = history_blocks(earlier);
    let b = history_blocks(later_turns);
    let tail = role_tag(Role::Assistant);
    let before = formatted_prompt(system_prompt, earlier);
    let after = formatted_prompt(system_prompt, earlier + later_turns);
    assert(before == head + a + tail);
    assert(after == head + (a + b) + tail);
    let kept = (head + a).len() as int;
    assert(before.take(kept) =~= head + a);
    assert(after.take(kept) =~= head + a);
}

/// The number of characters of a role's opening tag.
pub open spec fn tag_len(role: Role) -> nat {
    match role {
        Role::System => 11,
        Role::User => 9,
        Role::Assistant => 14,
    }
}

/// The number of characters the turns of a history take when rendered:
/// each turn its tag, its whole text and the 8 characters of the closing tag.
pub open spec fn turns_len(history: Seq<(Role, Seq<char>)>) -> nat
    decreases history.len(),
{
    if history.len() == 0 {
        0
    } else {
        turns_len(history.drop_last()) + tag_len(history.last().0) + history.last().1.len() + 8
    }
}

proof fn lemma_tag_lengths(role: Role)
    ensures
        role_tag(role).len() == tag_len(role),
        end_tag().len() == 8,
{
    reveal_strlit("<|system|>\n");
    reveal_strlit("<|user|>\n");
    reveal_strlit("<|assistant|>\n");
    reveal_strlit("<|end|>\n");
}

/// A rendered turn holds the turn's whole text, unchanged, between its tag
/// and the closing tag.
pub proof fn lemma_turn_block_keeps_content(role: Role, content: Seq<char>)
    ensures
        turn_block(role, content).len() == tag_len(role) + content.len() + 8,
        turn_block(role, content).subrange(
            tag_len(role) as int,
            (tag_len(role) + content.len()) as int,
        ) == content,
        turn_block(role, content).take(tag_len(role) as int) == role_tag(role),
{
    lemma_tag_lengths(role);
    let b = turn_block(role, content);
    assert(b.subrange(tag_len(role) as int, (tag_len(role) + content.len()) as int) =~= content);
    assert(b.take(tag_len(role) as int) =~= role_tag(role));
}

proof fn lemma_history_blocks_len(history: Seq<(Role, Seq<char>)>)
    ensures
        history_blocks(history).len() == turns_len(history),
    decreases history.len(),
{
    if history.len() > 0 {
        lemma_history_blocks_len(history.drop_last());
        lemma_turn_block_keeps_content(history.last().0, history.last().1);
    }
}

/// The rendered prompt is as long as its tags together with the whole system
/// prompt (when not empty) and the whole text of every turn: nothing is cut.
pub proof fn lemma_prompt_length(system_prompt: Seq<char>, history: Seq<(Role, Seq<char>)>)
    ensures
        formatted_prompt(system_prompt, history).len() == (if system_prompt.len() == 0 {
            0
        } else {
            11 + system_prompt.len() + 8
        }) + turns_len(history) + 14,
{
    lemma_history_blocks_len(history);
    lemma_tag_lengths(Role::Assistant);
    lemma_turn_block_keeps_content(Role::System, system_prompt);
}

/// The last turn of the history appears whole in the rendered prompt, just
/// before the closing tag that precedes the open assistant turn.
pub proof fn lemma_prompt_holds_last_turn(
    system_prompt: Seq<char>,
    history: Seq<(Role, Seq<char>)>,
)
    requires
        history.len() > 0,
    ensures
        ({
            let p = formatted_prompt(system_prompt, history);
            let c = history.last().1;
            let end = p.len() - 14 - 8;
            &&& end >= c.len()
            &&& p.subrange(end - c.len(), end) == c
        }),
{
    let p = formatted_prompt(system_prompt, history);
    let c = history.last().1;
    let r = history.last().0;
    lemma_tag_lengths(r);
    lemma_tag_lengths(Role::Assistant);
    let head = system_block(system_prompt) + history_blocks(history.drop_last()) + role_tag(r);
    assert(p =~= head + c + end_tag() + role_tag(Role::Assistant));
    assert(p.subrange(head.len() as int, (head.len() + c.len()) as int) =~= c);
}

/// The template: a user turn reads `<|user|>\n`, its text, `<|end|>\n`;
/// an assistant turn `<|assistant|>\n`, its text, `<|end|>\n`; a system turn
/// (and a non-empty system prompt) `<|system|>\n`, its text, `<|end|>\n`;
/// and every prompt closes on an open `<|assistant|>\n` turn.
pub proof fn lemma_template_text(
    system_prompt: Seq<char>,
    history: Seq<(Role, Seq<char>)>,
    content: Seq<char>,
)
    ensures
        turn_block(Role::User, content) == "<|user|>\n"@ + content + "<|end|>\n"@,
        turn_block(Role::Assistant, content) == "<|assistant|>\n"@ + content + "<|end|>\n"@,
        turn_block(Role::System, content) == "<|system|>\n"@ + content + "<|end|>\n"@,
        system_prompt.len() > 0 ==> system_block(system_prompt) == "<|system|>\n"@ + system_prompt
            + "<|end|>\n"@,
        system_prompt.len() == 0 ==> system_block(system_prompt) == Seq::<char>::empty(),
        formatted_prompt(system_prompt, history) == system_block(system_prompt) + history_blocks(
            history,
        ) + "<|assistant|>\n"@,
{
}

} // verus!
