//! Conversational memory recall of the offline responder: the pet's name that
//! the user mentioned earlier, and the user's previous prompt.
use vstd::prelude::*;
use vstd::string::*;

use crate::conversation::{history_of, ConversationManager, Message, Role};
use crate::text::{
    index_at_byte, lemma_find_from, lemma_floor_at_boundary, lemma_floor_of_prefix, lemma_utf8_size_concat,
    lemma_first_word_has_no_space, lemma_strip_ends, lemma_strip_is_stretch, is_whitespace_char, in_class,
    char_floor_at_byte, chars_of, contains, contains_seq, find, find_first, first_word,
    first_word_chars, floor_index_at_byte, lowercase_of, prefix_bytes, slice_chars, string_of, strip,
    strip_chars, to_lowercase, utf8_size, CharClass,
};

verus! {

/// The first phrase that introduces the dog's name.
pub open spec fn name_is_phrase() -> Seq<char> {
    "dog's name is "@
}

/// The second phrase that introduces the dog's name.
pub open spec fn is_named_phrase() -> Seq<char> {
    "dog is named "@
}

/// The lower-cased prompt asks for the dog's name.
pub open spec fn asks_dog_name(prompt_lower: Seq<char>) -> bool {
    contains_seq(prompt_lower, "dog"@) && (contains_seq(prompt_lower, "name"@) || contains_seq(
        prompt_lower,
        "what is"@,
    ))
}

/// The lower-cased prompt asks for the previous prompt.
pub open spec fn asks_recall(prompt_lower: Seq<char>) -> bool {
    contains_seq(prompt_lower, "last prompt"@) || contains_seq(prompt_lower, "did i say"@)
        || contains_seq(prompt_lower, "previous prompt"@)
}

/// The byte offset just past the first occurrence of `phrase` in the
/// lower-cased text, if `phrase` occurs there.
pub open spec fn name_offset(lower: Seq<char>, phrase: Seq<char>) -> Option<int> {
    match find_first(lower, phrase) {
        Some(p) => Some((utf8_size(lower.take(p)) + utf8_size(phrase)) as int),
        None => None,
    }
}

/// Where the name starts in `content`: the last character boundary of the
/// message's own text at or before the offset past the phrase.
pub open spec fn name_start(content: Seq<char>, lower: Seq<char>, phrase: Seq<char>) -> Option<
    int,
> {
    match name_offset(lower, phrase) {
        Some(b) => Some(floor_index_at_byte(content, b)),
        None => None,
    }
}

/// The name found at character index `start` of `content`: its first word,
/// stripped of characters that are neither alphabetic nor a full stop.
pub open spec fn name_at(content: Seq<char>, start: int) -> Seq<char> {
    strip(first_word(content.skip(start)), CharClass::NameJunk)
}

/// The non-empty name that a phrase introduces in one message, if any.
pub open spec fn name_after(content: Seq<char>, lower: Seq<char>, phrase: Seq<char>) -> Option<
    Seq<char>,
> {
    match name_start(content, lower, phrase) {
        Some(j) => if name_at(content, j).len() > 0 {
            Some(name_at(content, j))
        } else {
            None
        },
        None => None,
    }
}

/// The dog's name that one user message states: the first phrase is looked
/// for first, and the second only where the first does not occur.
pub open spec fn message_dog_name(content: Seq<char>, lower: Seq<char>) -> Option<Seq<char>> {
    if find_first(lower, name_is_phrase()) is Some {
        name_after(content, lower, name_is_phrase())
    } else if find_first(lower, is_named_phrase()) is Some {
        name_after(content, lower, is_named_phrase())
    } else {
        None
    }
}

/// The dog's name stated by the latest user message that states one.
pub open spec fn dog_name(history: Seq<(Role, Seq<char>)>, lowers: Seq<Seq<char>>) -> Option<
    Seq<char>,
>
    decreases history.len(),
{
    if history.len() == 0 {
        None
    } else {
        let earlier = dog_name(history.drop_last(), lowers.drop_last());
        if history.last().0 == Role::User {
            match message_dog_name(history.last().1, lowers.last()) {
                Some(n) => Some(n),
                None => earlier,
            }
        } else {
            earlier
        }
    }
}

/// The text of the latest user message in `history`.
pub open spec fn last_user_prompt(history: Seq<(Role, Seq<char>)>) -> Option<Seq<char>>
    decreases history.len(),
{
    if history.len() == 0 {
        None
    } else if history.last().0 == Role::User {
        Some(history.last().1)
    } else {
        last_user_prompt(history.drop_last())
    }
}

/// The latest user message before the last message of the history.
pub open spec fn previous_user_prompt(history: Seq<(Role, Seq<char>)>) -> Option<Seq<char>> {
    if history.len() > 1 {
        last_user_prompt(history.drop_last())
    } else {
        None
    }
}

/// The reply that recalls the dog's name.
pub open spec fn dog_reply(name: Seq<char>) -> Seq<char> {
    "You previously mentioned that your dog's name is "@ + name
        + "! This is proof that my multi-turn conversation memory (Phase 3) is working flawlessly in offline demo mode. What else would you like to discuss?"@
}

/// The reply that recalls the previous prompt.
pub open spec fn recall_reply(previous: Seq<char>) -> Seq<char> {
    "Your previous prompt in this session was: \""@ + previous
        + "\". My ConversationManager tracks all of our historical turns perfectly!"@
}

/// The reply drawn from conversational memory, if the prompt asks for one
/// and the memory holds the answer.
pub open spec fn memory_reply(
    prompt_lower: Seq<char>,
    history: Seq<(Role, Seq<char>)>,
    lowers: Seq<Seq<char>>,
) -> Option<Seq<char>> {
    if asks_dog_name(prompt_lower) && dog_name(history, lowers) is Some {
        Some(dog_reply(dog_name(history, lowers)->0))
    } else if asks_recall(prompt_lower) && previous_user_prompt(history) is Some {
        Some(recall_reply(previous_user_prompt(history)->0))
    } else {
        None
    }
}

/// The lower-cased text of each turn of a history.
pub open spec fn lowercase_all(history: Seq<(Role, Seq<char>)>) -> Seq<Seq<char>> {
    history.map_values(|m: (Role, Seq<char>)| lowercase_of(m.1))
}

/// The views of a list of character vectors.
pub open spec fn views_of(v: Seq<Vec<char>>) -> Seq<Seq<char>> {
    v.map_values(|x: Vec<char>| x@)
}


/// Whether the literal `needle` occurs in `hay`.
pub fn has(hay: &[char], needle: &str) -> (r: bool)
    ensures
        r == contains_seq(hay@, needle@),
{
    let n = chars_of(needle);
    contains(hay, n.as_slice())
}

/// Whether the lower-cased prompt asks for the dog's name.
pub fn asks_dog_name_exec(prompt_lower: &[char]) -> (r: bool)
    ensures
        r == asks_dog_name(prompt_lower@),
        r == (contains_seq(prompt_lower@, "dog"@) && (contains_seq(prompt_lower@, "name"@)
            || contains_seq(prompt_lower@, "what is"@))),
{
    has(prompt_lower, "dog") && (has(prompt_lower, "name") || has(prompt_lower, "what is"))
}

/// Whether the lower-cased prompt asks for the previous prompt.
pub fn asks_recall_exec(prompt_lower: &[char]) -> (r: bool)
    ensures
        r == asks_recall(prompt_lower@),
        r == (contains_seq(prompt_lower@, "last prompt"@) || contains_seq(
            prompt_lower@,
            "did i say"@,
        ) || contains_seq(prompt_lower@, "previous prompt"@)),
{
    has(prompt_lower, "last prompt") || has(prompt_lower, "did i say") || has(
        prompt_lower,
        "previous prompt",
    )
}

/// The character index of `content` where the name after `phrase` starts,
/// located through the lower-cased text, if `phrase` occurs there.
fn name_start_exec(content: &[char], lower: &[char], phrase: &[char]) -> (r: Option<usize>)
    ensures
        r matches Some(j) ==> name_start(content@, lower@, phrase@) == Some(j as int) && j
            <= content@.len(),
        r is None ==> name_start(content@, lower@, phrase@) is None,
{
    match find(lower, phrase) {
        Some(p) => {
            let before = prefix_bytes(lower, p);
            let plen = prefix_bytes(phrase, phrase.len());
            assert(phrase@.take(phrase@.len() as int) =~= phrase@);
            Some(char_floor_at_byte(content, before + plen))
        },
        None => None,
    }
}

/// The non-empty name that `phrase` introduces in `content`, if any.
fn name_after_exec(content: &[char], lower: &[char], phrase: &[char]) -> (r: Option<Vec<char>>)
    ensures
        r matches Some(n) ==> name_after(content@, lower@, phrase@) == Some(n@),
        r is None ==> name_after(content@, lower@, phrase@) is None,
{
    match name_start_exec(content, lower, phrase) {
        Some(j) => {
            let rest = slice_chars(content, j, content.len());
            assert(rest@ =~= content@.skip(j as int));
            let word = first_word_chars(rest.as_slice());
            let name = strip_chars(word.as_slice(), CharClass::NameJunk);
            if name.len() > 0 {
                Some(name)
            } else {
                None
            }
        },
        None => None,
    }
}

/// The dog's name that one user message states, if any.
fn message_dog_name_exec(content: &[char], lower: &[char]) -> (r: Option<Vec<char>>)
    ensures
        r matches Some(n) ==> message_dog_name(content@, lower@) == Some(n@),
        r is None ==> message_dog_name(content@, lower@) is None,
{
    let first = chars_of("dog's name is ");
    let second = chars_of("dog is named ");
    if find(lower, first.as_slice()).is_some() {
        name_after_exec(content, lower, first.as_slice())
    } else if find(lower, second.as_slice()).is_some() {
        name_after_exec(content, lower, second.as_slice())
    } else {
        None
    }
}

/// The dog's name stated by the latest user message that states one.
fn dog_name_exec(messages: &Vec<Message>, lowers: &Vec<Vec<char>>) -> (r: Option<Vec<char>>)
    requires
        lowers@.len() == messages@.len(),
    ensures
        r matches Some(n) ==> dog_name(history_of(messages@), views_of(lowers@)) == Some(n@),
        r is None ==> dog_name(history_of(messages@), views_of(lowers@)) is None,
{
    let ghost h = history_of(messages@);
    let ghost l = views_of(lowers@);
    let n = messages.len();
    let mut name: Option<Vec<char>> = None;
    let mut i: usize = 0;
    assert(h.take(0) =~= Seq::<(Role, Seq<char>)>::empty());
    while i < n
        invariant
            n == messages@.len(),
            lowers@.len() == n,
            h == history_of(messages@),
            l == views_of(lowers@),
            i <= n,
            name matches Some(x) ==> dog_name(h.take(i as int), l.take(i as int)) == Some(x@),
            name is None ==> dog_name(h.take(i as int), l.take(i as int)) is None,
        decreases n - i,
    {
        assert(h.take(i + 1).drop_last() =~= h.take(i as int));
        assert(l.take(i + 1).drop_last() =~= l.take(i as int));
        assert(h.take(i + 1).last() == h[i as int]);
        assert(l.take(i + 1).last() == l[i as int]);
        let message = &messages[i];
        if message.role == Role::User {
            let content = chars_of(message.content.as_str());
            assert(h[i as int].0 == Role::User);
            let found = message_dog_name_exec(content.as_slice(), lowers[i].as_slice());
            if found.is_some() {
                name = found;
            }
        }
        i = i + 1;
    }
    assert(h.take(n as int) =~= h);
    assert(l.take(n as int) =~= l);
    name
}

/// The latest user message before the last message of the history.
fn previous_user_prompt_exec(messages: &Vec<Message>) -> (r: Option<String>)
    ensures
        r matches Some(s) ==> previous_user_prompt(history_of(messages@)) == Some(s@),
        r is None ==> previous_user_prompt(history_of(messages@)) is None,
{
    let ghost h = history_of(messages@);
    let n = messages.len();
    if n <= 1 {
        return None;
    }
    let mut j: usize = n - 1;
    assert(h.drop_last() =~= h.take(j as int));
    while j > 0
        invariant
            n == messages@.len(),
            h == history_of(messages@),
            0 <= j < n,
            last_user_prompt(h.drop_last()) == last_user_prompt(h.take(j as int)),
        decreases j,
    {
        assert(h.take(j as int).last() == h[j - 1]);
        if messages[j - 1].role == Role::User {
            return Some(messages[j - 1].content.clone());
        }
        assert(h.take(j as int).drop_last() =~= h.take(j - 1));
        j = j - 1;
    }
    None
}

/// The reply drawn from conversational memory, given the lower-cased prompt
/// and the lower-cased text of every turn.
pub fn memory_reply_from_lowered(
    prompt_lower: &[char],
    messages: &Vec<Message>,
    lowers: &Vec<Vec<char>>,
) -> (r: Option<String>)
    requires
        lowers@.len() == messages@.len(),
    ensures
        r matches Some(s) ==> memory_reply(prompt_lower@, history_of(messages@), views_of(lowers@))
            == Some(s@),
        r is None ==> memory_reply(prompt_lower@, history_of(messages@), views_of(lowers@)) is None,
{
    if asks_dog_name_exec(prompt_lower) {
        match dog_name_exec(messages, lowers) {
            Some(name) => {
                let mut reply = String::from_str("You previously mentioned that your dog's name is ");
                let name_text = string_of(name.as_slice());
                reply.append(name_text.as_str());
                reply.append(
                    "! This is proof that my multi-turn conversation memory (Phase 3) is working flawlessly in offline demo mode. What else would you like to discuss?",
                );
                return Some(reply);
            },
            None => {},
        }
    }
    if asks_recall_exec(prompt_lower) {
        match previous_user_prompt_exec(messages) {
            Some(previous) => {
                let mut reply = String::from_str("Your previous prompt in this session was: \"");
                reply.append(previous.as_str());
                reply.append(
                    "\". My ConversationManager tracks all of our historical turns perfectly!",
                );
                return Some(reply);
            },
            None => {},
        }
    }
    None
}

/// The lower-cased text of every message, in order.
pub fn lowercase_history(messages: &Vec<Message>) -> (r: Vec<Vec<char>>)
    ensures
        views_of(r@) == lowercase_all(history_of(messages@)),
{
    let n = messages.len();
    let mut r: Vec<Vec<char>> = Vec::new();
    let mut i: usize = 0;
    while i < n
        invariant
            n == messages@.len(),
            i <= n,
            r@.len() == i,
            views_of(r@) == lowercase_all(history_of(messages@)).take(i as int),
        decreases n - i,
    {
        let lower = to_lowercase(messages[i].content.as_str());
        let lower_chars = chars_of(lower.as_str());
        let ghost before = r@;
        r.push(lower_chars);
        assert(r@ == before.push(lower_chars));
        assert(r@[i as int] == lower_chars);
        assert(history_of(messages@)[i as int] == messages@[i as int]@);
        assert(views_of(r@)[i as int] == lowercase_of(history_of(messages@)[i as int].1));
        assert(views_of(r@) =~= lowercase_all(history_of(messages@)).take(i + 1));
        i = i + 1;
    }
    assert(lowercase_all(history_of(messages@)).take(n as int) =~= lowercase_all(
        history_of(messages@),
    ));
    r
}

/// The lower-cased prompt and the lower-cased text of every turn.
pub fn lowered_inputs(prompt: &str, manager: &ConversationManager) -> (r: (Vec<char>, Vec<Vec<char>>))
    ensures
        r.0@ == lowercase_of(prompt@),
        views_of(r.1@) == lowercase_all(manager.history()),
        r.1@.len() == manager.messages@.len(),
{
    let lower = to_lowercase(prompt);
    let prompt_lower = chars_of(lower.as_str());
    let lowers = lowercase_history(&manager.messages);
    (prompt_lower, lowers)
}


/// A conversation without turns remembers nothing: every prompt gets the
/// fallback reply.
pub proof fn lemma_empty_memory(prompt_lower: Seq<char>)
    ensures
        memory_reply(prompt_lower, Seq::empty(), Seq::empty()) is None,
{
}

/// The latest mention wins: when a user message states the dog's name and no
/// later user message states one, that name is the one remembered.
pub proof fn lemma_latest_mention_wins(
    history: Seq<(Role, Seq<char>)>,
    lowers: Seq<Seq<char>>,
    i: int,
    name: Seq<char>,
)
    requires
        lowers.len() == history.len(),
        0 <= i < history.len(),
        history[i].0 == Role::User,
        message_dog_name(history[i].1, lowers[i]) == Some(name),
        forall|j: int|
            #![trigger history[j]]
            i < j < history.len() && history[j].0 == Role::User ==> message_dog_name(
                history[j].1,
                lowers[j],
            ) is None,
    ensures
        dog_name(history, lowers) == Some(name),
    decreases history.len(),
{
    let last = history.len() - 1;
    if i < last {
        let h = history.drop_last();
        let l = lowers.drop_last();
        assert(h[i] == history[i]);
        assert(l[i] == lowers[i]);
        assert forall|j: int| #![trigger h[j]] i < j < h.len() && h[j].0 == Role::User implies message_dog_name(h[j].1, l[j]) is None by {
            assert(h[j] == history[j]);
            assert(l[j] == lowers[j]);
        }
        lemma_latest_mention_wins(h, l, i, name);
        assert(history[last] == history.last());
    }
}

/// Nothing is remembered of the dog when no user message states its name.
pub proof fn lemma_no_mention_no_name(history: Seq<(Role, Seq<char>)>, lowers: Seq<Seq<char>>)
    requires
        lowers.len() == history.len(),
        forall|j: int|
            #![trigger history[j]]
            0 <= j < history.len() && history[j].0 == Role::User ==> message_dog_name(
                history[j].1,
                lowers[j],
            ) is None,
    ensures
        dog_name(history, lowers) is None,
    decreases history.len(),
{
    if history.len() > 0 {
        let h = history.drop_last();
        let l = lowers.drop_last();
        assert forall|j: int| #![trigger h[j]] 0 <= j < h.len() && h[j].0 == Role::User implies message_dog_name(h[j].1, l[j]) is None by {
            assert(h[j] == history[j]);
            assert(l[j] == lowers[j]);
        }
        lemma_no_mention_no_name(h, l);
        assert(history[history.len() - 1] == history.last());
    }
}

/// After the user asked something, got an answer, and asks again, the
/// previous prompt recalled is the first question.
pub proof fn lemma_recall_after_exchange(
    history: Seq<(Role, Seq<char>)>,
    earlier: Seq<char>,
    answer: Seq<char>,
    current: Seq<char>,
)
    ensures
        previous_user_prompt(
            history.push((Role::User, earlier)).push((Role::Assistant, answer)).push(
                (Role::User, current),
            ),
        ) == Some(earlier),
{
    let h1 = history.push((Role::User, earlier));
    let h2 = h1.push((Role::Assistant, answer));
    let h3 = h2.push((Role::User, current));
    assert(h3.drop_last() =~= h2);
    assert(h2.drop_last() =~= h1);
    assert(h1.last() == (Role::User, earlier));
    assert(last_user_prompt(h1) == Some(earlier));
    assert(h2.last() == (Role::Assistant, answer));
    assert(last_user_prompt(h2) == Some(earlier));
}

/// The previous prompt is never the latest message: it comes from the
/// history before it.
pub proof fn lemma_recall_skips_latest(history: Seq<(Role, Seq<char>)>, latest: (Role, Seq<char>))
    requires
        history.len() >= 1,
    ensures
        previous_user_prompt(history.push(latest)) == last_user_prompt(history),
{
    assert(history.push(latest).drop_last() =~= history);
}


/// Wherever the offset past the phrase is a character boundary of the
/// message's own text, the name starts exactly there.
pub proof fn lemma_name_start_on_boundary(content: Seq<char>, lower: Seq<char>, phrase: Seq<char>)
    requires
        name_offset(lower, phrase) is Some,
        index_at_byte(content, name_offset(lower, phrase)->0) is Some,
    ensures
        name_start(content, lower, phrase) == index_at_byte(content, name_offset(lower, phrase)->0),
{
    lemma_floor_at_boundary(content, name_offset(lower, phrase)->0);
}

proof fn lemma_dog_name_insert_non_user(
    history: Seq<(Role, Seq<char>)>,
    lowers: Seq<Seq<char>>,
    k: int,
    turn: (Role, Seq<char>),
    turn_lower: Seq<char>,
)
    requires
        lowers.len() == history.len(),
        0 <= k <= history.len(),
        turn.0 != Role::User,
    ensures
        dog_name(history.insert(k, turn), lowers.insert(k, turn_lower)) == dog_name(history, lowers),
    decreases history.len(),
{
    let h2 = history.insert(k, turn);
    let l2 = lowers.insert(k, turn_lower);
    if k == history.len() {
        assert(h2.drop_last() =~= history);
        assert(l2.drop_last() =~= lowers);
        assert(h2.last() == turn);
    } else {
        assert(h2.drop_last() =~= history.drop_last().insert(k, turn));
        assert(l2.drop_last() =~= lowers.drop_last().insert(k, turn_lower));
        assert(h2.last() == history.last());
        assert(l2.last() == lowers.last());
        lemma_dog_name_insert_non_user(history.drop_last(), lowers.drop_last(), k, turn, turn_lower);
    }
}

proof fn lemma_last_user_insert_non_user(
    history: Seq<(Role, Seq<char>)>,
    k: int,
    turn: (Role, Seq<char>),
)
    requires
        0 <= k <= history.len(),
        turn.0 != Role::User,
    ensures
        last_user_prompt(history.insert(k, turn)) == last_user_prompt(history),
    decreases history.len(),
{
    let h2 = history.insert(k, turn);
    if k == history.len() {
        assert(h2.drop_last() =~= history);
        assert(h2.last() == turn);
    } else {
        assert(h2.drop_last() =~= history.drop_last().insert(k, turn));
        assert(h2.last() == history.last());
        lemma_last_user_insert_non_user(history.drop_last(), k, turn);
    }
}

/// Inserting a turn that is not the user's anywhere before the latest turn
/// changes nothing the memory recalls: only user turns are searched, and the
/// latest turn stays the latest.
pub proof fn lemma_memory_reply_insert_non_user(
    prompt_lower: Seq<char>,
    history: Seq<(Role, Seq<char>)>,
    lowers: Seq<Seq<char>>,
    k: int,
    turn: (Role, Seq<char>),
    turn_lower: Seq<char>,
)
    requires
        lowers.len() == history.len(),
        0 <= k < history.len(),
        turn.0 != Role::User,
    ensures
        memory_reply(prompt_lower, history.insert(k, turn), lowers.insert(k, turn_lower))
            == memory_reply(prompt_lower, history, lowers),
{
    let h2 = history.insert(k, turn);
    lemma_dog_name_insert_non_user(history, lowers, k, turn, turn_lower);
    assert(h2.drop_last() =~= history.drop_last().insert(k, turn));
    lemma_last_user_insert_non_user(history.drop_last(), k, turn);
}

/// Lower-casing every turn commutes with inserting a turn.
pub proof fn lemma_lowercase_all_insert(
    history: Seq<(Role, Seq<char>)>,
    k: int,
    turn: (Role, Seq<char>),
)
    requires
        0 <= k <= history.len(),
    ensures
        lowercase_all(history.insert(k, turn)) == lowercase_all(history).insert(
            k,
            lowercase_of(turn.1),
        ),
{
    assert(lowercase_all(history.insert(k, turn)) =~= lowercase_all(history).insert(
        k,
        lowercase_of(turn.1),
    ));
}

/// A lower-cased prompt that holds "dog" together with "name" or "what is"
/// asks for the dog's name; when some user turn states it, the memory answers
/// with the latest stated name.
pub proof fn lemma_dog_question_recalls_latest_name(
    prompt_lower: Seq<char>,
    history: Seq<(Role, Seq<char>)>,
    lowers: Seq<Seq<char>>,
    i: int,
    name: Seq<char>,
)
    requires
        contains_seq(prompt_lower, "dog"@),
        contains_seq(prompt_lower, "name"@) || contains_seq(prompt_lower, "what is"@),
        lowers.len() == history.len(),
        0 <= i < history.len(),
        history[i].0 == Role::User,
        message_dog_name(history[i].1, lowers[i]) == Some(name),
        forall|j: int|
            #![trigger history[j]]
            i < j < history.len() && history[j].0 == Role::User ==> message_dog_name(
                history[j].1,
                lowers[j],
            ) is None,
    ensures
        asks_dog_name(prompt_lower),
        memory_reply(prompt_lower, history, lowers) == Some(
            "You previously mentioned that your dog's name is "@ + name
                + "! This is proof that my multi-turn conversation memory (Phase 3) is working flawlessly in offline demo mode. What else would you like to discuss?"@,
        ),
{
    lemma_latest_mention_wins(history, lowers, i, name);
}

/// A prompt that asks for the previous prompt, and not for the dog, is
/// answered with the user's latest message before the current one.
pub proof fn lemma_recall_question_quotes_previous_prompt(
    prompt_lower: Seq<char>,
    history: Seq<(Role, Seq<char>)>,
    lowers: Seq<Seq<char>>,
    earlier: Seq<char>,
    answer: Seq<char>,
    current: Seq<char>,
)
    requires
        !contains_seq(prompt_lower, "dog"@),
        contains_seq(prompt_lower, "last prompt"@) || contains_seq(prompt_lower, "did i say"@)
            || contains_seq(prompt_lower, "previous prompt"@),
    ensures
        memory_reply(
            prompt_lower,
            history.push((Role::User, earlier)).push((Role::Assistant, answer)).push(
                (Role::User, current),
            ),
            lowers,
        ) == Some(
            "Your previous prompt in this session was: \""@ + earlier
                + "\". My ConversationManager tracks all of our historical turns perfectly!"@,
        ),
{
    lemma_recall_after_exchange(history, earlier, answer, current);
}

/// A prompt that asks neither for the dog nor for the previous prompt gets
/// no answer from memory.
pub proof fn lemma_other_questions_skip_memory(
    prompt_lower: Seq<char>,
    history: Seq<(Role, Seq<char>)>,
    lowers: Seq<Seq<char>>,
)
    requires
        !contains_seq(prompt_lower, "dog"@),
        !contains_seq(prompt_lower, "last prompt"@),
        !contains_seq(prompt_lower, "did i say"@),
        !contains_seq(prompt_lower, "previous prompt"@),
    ensures
        memory_reply(prompt_lower, history, lowers) is None,
{
}

/// When lower-casing leaves a message as it is, the name is looked for
/// right after the first occurrence of the phrase.
pub proof fn lemma_name_follows_phrase(content: Seq<char>, phrase: Seq<char>, p: int)
    requires
        find_first(content, phrase) == Some(p),
    ensures
        name_start(content, content, phrase) == Some(p + phrase.len()),
{
    lemma_find_from(content, phrase, 0);
    let w = p + phrase.len();
    assert(content.take(w) =~= content.take(p) + phrase);
    lemma_utf8_size_concat(content.take(p), phrase);
    lemma_floor_of_prefix(content, w);
}

/// A remembered name is one word: it is not empty, holds no white space, and
/// neither starts nor ends with a character that is neither alphabetic nor a
/// full stop.
pub proof fn lemma_dog_name_is_one_clean_word(content: Seq<char>, lower: Seq<char>)
    ensures
        message_dog_name(content, lower) matches Some(n) ==> {
            &&& n.len() > 0
            &&& !in_class(CharClass::NameJunk, n[0])
            &&& !in_class(CharClass::NameJunk, n.last())
            &&& forall|i: int| 0 <= i < n.len() ==> !is_whitespace_char(#[trigger] n[i])
        },
{
    if message_dog_name(content, lower) is Some {
        let phrase = if find_first(lower, name_is_phrase()) is Some {
            name_is_phrase()
        } else {
            is_named_phrase()
        };
        let j = name_start(content, lower, phrase)->0;
        let w = first_word(content.skip(j));
        let n = strip(w, CharClass::NameJunk);
        assert(message_dog_name(content, lower) == Some(n));
        lemma_first_word_has_no_space(content.skip(j));
        lemma_strip_ends(w, CharClass::NameJunk);
        let a = lemma_strip_is_stretch(w, CharClass::NameJunk);
        assert forall|i: int| 0 <= i < n.len() implies !is_whitespace_char(#[trigger] n[i]) by {
            assert(n[i] == w[a + i]);
        }
    }
}

/// "dog's name is " is looked for first: where it occurs, the name follows
/// it; only where it does not is the name taken after "dog is named "; a
/// message with neither states no name.
pub proof fn lemma_phrase_priority(content: Seq<char>, lower: Seq<char>)
    ensures
        contains_seq(lower, "dog's name is "@) ==> message_dog_name(content, lower) == name_after(
            content,
            lower,
            "dog's name is "@,
        ),
        !contains_seq(lower, "dog's name is "@) && contains_seq(lower, "dog is named "@)
            ==> message_dog_name(content, lower) == name_after(content, lower, "dog is named "@),
        !contains_seq(lower, "dog's name is "@) && !contains_seq(lower, "dog is named "@)
            ==> message_dog_name(content, lower) is None,
{
}

} // verus!
