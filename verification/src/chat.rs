//! The requests sent to the chat model and what is made of its answers
//! and of the database service's replies.
use vstd::prelude::*;

use crate::model::{Error, Story, Vocabulary};
use crate::text::{join, join_with, string_from_chars, trim, trim_str, views};

verus! {

/// One message of a chat: who speaks (`"system"` or `"user"`) and what.
#[derive(Clone, Debug, PartialEq, Eq)]
pub struct ChatMessage {
    pub role: String,
    pub content: String,
}

/// A chat completion request.
#[derive(Clone, Debug, PartialEq, Eq)]
pub struct ChatRequest {
    /// The model to ask.
    pub model: String,
    /// The sampling temperature, in tenths (2 stands for 0.2).
    pub temperature_tenths: u32,
    /// The conversation so far.
    pub messages: Vec<ChatMessage>,
}

/// The model that answers every request.
pub open spec fn chat_model() -> Seq<char> {
    seq!['g', 'p', 't', '-', '3', '.', '5', '-', 't', 'u', 'r', 'b', 'o']
}

/// The role of the instructions.
pub open spec fn system_role() -> Seq<char> {
    seq!['s', 'y', 's', 't', 'e', 'm']
}

/// The role of the question.
pub open spec fn user_role() -> Seq<char> {
    seq!['u', 's', 'e', 'r']
}

/// `r` asks the chat model at temperature `tenths`/10 with the
/// instructions `prompt` and the question `question`.
pub open spec fn is_request(r: ChatRequest, tenths: u32, prompt: Seq<char>, question: Seq<char>) -> bool {
    &&& r.model@ == chat_model()
    &&& r.temperature_tenths == tenths
    &&& r.messages@.len() == 2
    &&& r.messages@[0].role@ == system_role()
    &&& r.messages@[0].content@ == prompt
    &&& r.messages@[1].role@ == user_role()
    &&& r.messages@[1].content@ == question
}

fn request(tenths: u32, prompt: &str, question: String) -> (res: ChatRequest)
    ensures
        is_request(res, tenths, prompt@, question@),
{
    let model = string_from_chars(&['g', 'p', 't', '-', '3', '.', '5', '-', 't', 'u', 'r', 'b', 'o']);
    let system = string_from_chars(&['s', 'y', 's', 't', 'e', 'm']);
    let user = string_from_chars(&['u', 's', 'e', 'r']);
    assert(model@ =~= chat_model());
    assert(system@ =~= system_role());
    assert(user@ =~= user_role());
    let mut messages: Vec<ChatMessage> = Vec::new();
    messages.push(ChatMessage { role: system, content: String::from_str(prompt) });
    messages.push(ChatMessage { role: user, content: question });
    ChatRequest { model, temperature_tenths: tenths, messages }
}

/// The request that asks the chat model, at temperature 0.2, to describe
/// `word` as `prompt` instructs.
pub fn vocabulary_request(prompt: &str, word: &str) -> (res: ChatRequest)
    ensures
        is_request(res, 2, prompt@, word@),
{
    request(2, prompt, String::from_str(word))
}

/// The request that asks the chat model, at temperature 1.0, to write a
/// story as `prompt` instructs with `words`, given joined by `","`.
pub fn story_request(prompt: &str, words: &Vec<String>) -> (res: ChatRequest)
    ensures
        is_request(res, 10, prompt@, join(views(words@), seq![','])),
{
    let sep = string_from_chars(&[',']);
    assert(sep@ =~= seq![',']);
    request(10, prompt, join_with(words, sep.as_str()))
}

/// The story that the chat model's answer `content` tells with `words`:
/// the trimmed answer, id 0, read 0 times, no timestamps.
pub fn story_from_answer(words: Vec<String>, content: &str) -> (res: Story)
    ensures
        res.id == 0,
        res.words@ == words@,
        res.content@ == trim(content@),
        res.read_count == 0,
        res.created_at is None,
        res.updated_at is None,
{
    Story {
        id: 0,
        words,
        content: trim_str(content),
        read_count: 0,
        created_at: None,
        updated_at: None,
    }
}

/// The outcome of storing the entry for `word`, given the entry that the
/// database service gave back, if any.
pub fn stored_vocabulary(word: &str, reply: Option<Vocabulary>) -> (res: Result<
    Vocabulary,
    Error,
>)
    ensures
        match reply {
            Some(v) => res == Ok::<Vocabulary, Error>(v),
            None => res matches Err(Error::AddWordFailed(w)) && w@ == word@,
        },
{
    match reply {
        Some(v) => Ok(v),
        None => Err(Error::AddWordFailed(String::from_str(word))),
    }
}

/// The outcome of storing the story for `words`, given the story that the
/// database service gave back, if any.
pub fn stored_story(words: Vec<String>, reply: Option<Story>) -> (res: Result<Story, Error>)
    ensures
        match reply {
            Some(s) => res == Ok::<Story, Error>(s),
            None => res matches Err(Error::AddStoryFailed(ws)) && ws@ == words@,
        },
{
    match reply {
        Some(s) => Ok(s),
        None => Err(Error::AddStoryFailed(words)),
    }
}

/// The words of `entries`, in order.
pub fn words_of(entries: &Vec<Vocabulary>) -> (res: Vec<String>)
    ensures
        views(res@) == entries@.map_values(|v: Vocabulary| v.word@),
{
    let mut res: Vec<String> = Vec::new();
    let n = entries.len();
    let mut i: usize = 0;
    while i < n
        invariant
            i <= n == entries@.len(),
            views(res@) == entries@.take(i as int).map_values(|v: Vocabulary| v.word@),
        decreases n - i,
    {
        let w = entries[i].word.clone();
        let ghost before = views(res@);
        res.push(w);
        assert(views(res@) =~= before.push(entries@[i as int].word@));
        assert(entries@.take(i + 1).map_values(|v: Vocabulary| v.word@) =~= entries@.take(
            i as int,
        ).map_values(|v: Vocabulary| v.word@).push(entries@[i as int].word@));
        i += 1;
    }
    assert(entries@.take(n as int) =~= entries@);
    res
}

} // verus!
