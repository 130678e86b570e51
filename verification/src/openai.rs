//! The vocabulary importer and the story generator: their settings and
//! the decisions that drive them. The program around the library looks
//! words up, calls the chat model and hands work to workers; it asks the
//! machines here what to do next and tells them what came back.
use vstd::prelude::*;

use crate::chat::words_of;
use crate::model::Vocabulary;
use crate::text::{parse_usize, parse_usize_spec, string_from_chars, views};

verus! {

/// Where the importer finds the database service, the chat model and
/// the words, and what it tells the chat model.
#[derive(Clone, Debug, PartialEq, Eq)]
pub struct OpenAI {
    /// Address of the vocabulary database service.
    pub rpc: String,
    /// Key of the chat model's API.
    pub key: String,
    /// Address of the chat model's API.
    pub openai_url: String,
    /// File with one word per line.
    pub word_list_file: String,
    /// Instructions for the chat model.
    pub prompt: String,
}

impl OpenAI {
    /// An importer with the given settings.
    pub fn new(
        rpc_server: String,
        key: String,
        openai_url: String,
        word_list_file: String,
        prompt: String,
    ) -> (res: OpenAI)
        ensures
            res.rpc == rpc_server,
            res.key == key,
            res.openai_url == openai_url,
            res.word_list_file == word_list_file,
            res.prompt == prompt,
    {
        OpenAI { rpc: rpc_server, key, openai_url, word_list_file, prompt }
    }
}

// ---------------------------------------------------------------------
// Settings
// ---------------------------------------------------------------------

/// The number of chat requests in flight when nothing else is said.
pub open spec fn default_concurrency() -> usize {
    2
}

/// How many chat requests may be in flight, given the setting (the
/// `OPENAI_CONCURRENCE_NUM` variable), if any: the number it spells, or 2.
pub open spec fn concurrency_spec(setting: Option<Seq<char>>) -> usize {
    match setting {
        Some(s) => match parse_usize_spec(s) {
            Some(n) => n,
            None => default_concurrency(),
        },
        None => default_concurrency(),
    }
}

/// A setting that spells a number gives that number, whatever it is; any
/// other setting, or none, gives 2.
pub proof fn lemma_concurrency_uses_setting(s: Seq<char>)
    ensures
        parse_usize_spec(s) matches Some(n) ==> concurrency_spec(Some(s)) == n,
        parse_usize_spec(s) is None ==> concurrency_spec(Some(s)) == 2,
        concurrency_spec(None) == 2,
{
}

/// How many chat requests may be in flight, given the setting, if any.
pub fn concurrency(setting: Option<&str>) -> (res: usize)
    ensures
        setting matches Some(s) ==> (parse_usize_spec(s@) matches Some(n) ==> res == n),
        setting matches Some(s) ==> (parse_usize_spec(s@) is None ==> res == 2),
        setting is None ==> res == 2,
        res == concurrency_spec(
            match setting {
                Some(s) => Some(s@),
                None => None,
            },
        ),
{
    match setting {
        Some(s) => match parse_usize(s) {
            Some(n) => n,
            None => 2,
        },
        None => 2,
    }
}

/// The chat API address used when none is given.
pub open spec fn default_url() -> Seq<char> {
    seq![
        'h', 't', 't', 'p', 's', ':', '/', '/', 'a', 'p', 'i', '.', 'o', 'p', 'e', 'n', 'a', 'i',
        '.', 'c', 'o', 'm', '/', 'v', '1', '/', 'c', 'h', 'a', 't', '/', 'c', 'o', 'm', 'p', 'l',
        'e', 't', 'i', 'o', 'n', 's',
    ]
}

/// The instructions used when none are given: to translate a word's
/// details like an English teacher.
pub open spec fn default_prompt() -> Seq<char> {
    seq![
        '你', '将', '作', '为', '我', '的', '英', '语', '老', '师', '翻', '译', '单', '词', '的',
        '这', '些', '信', '息', '：', '单', '词', '、', '英', '式', '音', '标', '、', '词', '根',
        '词', '缀', '、', '中', '文', '释', '义', '、', '常', '用', '搭', '配', '、', '近', '义',
        '词', '、', '例', '句',
    ]
}

/// What the command line gave.
#[derive(Clone, Debug, PartialEq, Eq)]
pub struct Options {
    pub key: Option<String>,
    pub url: Option<String>,
    pub db: Option<String>,
    pub word_list: String,
    pub prompt: Option<String>,
}

/// What the environment gave: `OPENAI_KEY`, `OPENAI_URL`, `VOCABULARY_DB`.
#[derive(Clone, Debug, PartialEq, Eq)]
pub struct Environment {
    pub openai_key: Option<String>,
    pub openai_url: Option<String>,
    pub vocabulary_db: Option<String>,
}

/// The settings an import runs with.
#[derive(Clone, Debug, PartialEq, Eq)]
pub struct Settings {
    pub key: String,
    pub url: String,
    pub db: String,
    pub word_list: String,
    pub prompt: String,
}

/// A setting that neither the command line nor the environment gave.
#[derive(Clone, Copy, Debug, PartialEq, Eq)]
pub enum MissingSetting {
    /// The chat API key.
    Key,
    /// The database address.
    Database,
}

/// The first of `a` and `b` that is there.
pub open spec fn first_of(a: Option<String>, b: Option<String>) -> Option<String> {
    match a {
        Some(x) => Some(x),
        None => b,
    }
}

/// A value that is given is taken as it is, whatever the fallback holds;
/// the fallback is taken only when no value is given.
pub proof fn lemma_first_of_prefers_given(a: Option<String>, b: Option<String>)
    ensures
        a matches Some(x) ==> first_of(a, b) == Some(x),
        a is None ==> first_of(a, b) == b,
{
}

fn pick(a: Option<String>, b: Option<String>) -> (res: Option<String>)
    ensures
        res == first_of(a, b),
        a is Some ==> res == a,
        a is None ==> res == b,
{
    match a {
        Some(x) => Some(x),
        None => b,
    }
}

/// The settings of an import: each from the command line, else from the
/// environment; the address defaults to the public chat API and the
/// instructions to the English teacher prompt. The key is looked at
/// first: without it the answer is `MissingSetting::Key`; without a
/// database address it is `MissingSetting::Database`.
pub fn resolve_settings(opts: Options, env: Environment) -> (res: Result<Settings, MissingSetting>)
    ensures
        res matches Ok(s) ==> (opts.key matches Some(k) ==> s.key == k),
        res matches Ok(s) ==> (opts.db matches Some(d) ==> s.db == d),
        res matches Ok(s) ==> (opts.url matches Some(u) ==> s.url == u),
        res matches Ok(s) ==> (opts.prompt matches Some(p) ==> s.prompt == p),
        res matches Ok(s) ==> (opts.key is None ==> env.openai_key == Some(s.key)),
        res matches Ok(s) ==> (opts.db is None ==> env.vocabulary_db == Some(s.db)),
        (opts.key is Some || env.openai_key is Some) && (opts.db is Some
            || env.vocabulary_db is Some) ==> res is Ok,
        first_of(opts.key, env.openai_key) is None ==> res == Err::<Settings, MissingSetting>(
            MissingSetting::Key,
        ),
        first_of(opts.key, env.openai_key) is Some && first_of(opts.db, env.vocabulary_db) is None
            ==> res == Err::<Settings, MissingSetting>(MissingSetting::Database),
        first_of(opts.key, env.openai_key) is Some && first_of(opts.db, env.vocabulary_db) is Some
            ==> (res matches Ok(s) && {
            &&& s.key == first_of(opts.key, env.openai_key).unwrap()
            &&& s.db == first_of(opts.db, env.vocabulary_db).unwrap()
            &&& s.url@ == match first_of(opts.url, env.openai_url) {
                Some(u) => u@,
                None => default_url(),
            }
            &&& s.word_list == opts.word_list
            &&& s.prompt@ == match opts.prompt {
                Some(p) => p@,
                None => default_prompt(),
            }
        }),
{
    let key = match pick(opts.key, env.openai_key) {
        Some(k) => k,
        None => {
            return Err(MissingSetting::Key);
        },
    };
    let url = match pick(opts.url, env.openai_url) {
        Some(u) => u,
        None => {
            let u = string_from_chars(
                &[
                    'h', 't', 't', 'p', 's', ':', '/', '/', 'a', 'p', 'i', '.', 'o', 'p', 'e', 'n',
                    'a', 'i', '.', 'c', 'o', 'm', '/', 'v', '1', '/', 'c', 'h', 'a', 't', '/', 'c',
                    'o', 'm', 'p', 'l', 'e', 't', 'i', 'o', 'n', 's',
                ],
            );
            assert(u@ =~= default_url());
            u
        },
    };
    let db = match pick(opts.db, env.vocabulary_db) {
        Some(d) => d,
        None => {
            return Err(MissingSetting::Database);
        },
    };
    let prompt = match opts.prompt {
        Some(p) => p,
        None => {
            let p = string_from_chars(
                &[
                    '你', '将', '作', '为', '我', '的', '英', '语', '老', '师', '翻', '译', '单',
                    '词', '的', '这', '些', '信', '息', '：', '单', '词', '、', '英', '式', '音',
                    '标', '、', '词', '根', '词', '缀', '、', '中', '文', '释', '义', '、', '常',
                    '用', '搭', '配', '、', '近', '义', '词', '、', '例', '句',
                ],
            );
            assert(p@ =~= default_prompt());
            p
        },
    };
    Ok(Settings { key, url, db, word_list: opts.word_list, prompt })
}

// ---------------------------------------------------------------------
// Importing words
// ---------------------------------------------------------------------

/// What the importer asks of the program around it.
#[derive(Clone, Debug, PartialEq, Eq)]
pub enum ImportAction {
    /// Ask the database service how many entries it has for this word.
    LookUp(String),
    /// Wait for a free slot, then hand this word to a worker that asks
    /// the chat model about it and stores the answer.
    Add(String),
    /// Every word has been dealt with.
    Finish,
}

/// The importer's decisions, as text.
pub enum ImportStep {
    LookUp(Seq<char>),
    Add(Seq<char>),
    Finish,
}

impl ImportAction {
    /// The decision, as text.
    pub open spec fn step(self) -> ImportStep {
        match self {
            ImportAction::LookUp(w) => ImportStep::LookUp(w@),
            ImportAction::Add(w) => ImportStep::Add(w@),
            ImportAction::Finish => ImportStep::Finish,
        }
    }
}

/// Where an import stands: the words, the position of the word being
/// dealt with, and whether that word is waiting to be handed to a worker.
pub struct ImportState {
    pub words: Seq<Seq<char>>,
    pub pos: nat,
    pub adding: bool,
}

/// What the importer asks for in state `st`.
pub open spec fn import_pending(st: ImportState) -> ImportStep {
    if st.pos >= st.words.len() {
        ImportStep::Finish
    } else if st.adding {
        ImportStep::Add(st.words[st.pos as int])
    } else {
        ImportStep::LookUp(st.words[st.pos as int])
    }
}

/// The state after the database service answered that it holds `count`
/// entries for the word being looked up: a known word is passed over, an
/// unknown one is to be added.
pub open spec fn import_found(st: ImportState, count: nat) -> ImportState {
    if st.pos < st.words.len() && !st.adding {
        if count > 0 {
            ImportState { pos: st.pos + 1, ..st }
        } else {
            ImportState { adding: true, ..st }
        }
    } else {
        st
    }
}

/// The state after the word being added was handed to a worker (or
/// refused a slot): the next word comes.
pub open spec fn import_handed(st: ImportState) -> ImportState {
    if st.pos < st.words.len() && st.adding {
        ImportState { pos: st.pos + 1, adding: false, ..st }
    } else {
        st
    }
}

/// The importer of a list of words: each word is looked up in the
/// database service, and those it does not hold yet are added.
pub struct WordImport {
    words: Vec<String>,
    pos: usize,
    adding: bool,
}

impl WordImport {
    /// Where the import stands.
    pub closed spec fn state(&self) -> ImportState {
        ImportState { words: views(self.words@), pos: self.pos as nat, adding: self.adding }
    }

    #[verifier::type_invariant]
    spec fn wf(&self) -> bool {
        self.pos <= self.words@.len() && (self.pos == self.words@.len() ==> !self.adding)
    }

    /// An import of `words`, about to look up the first one.
    pub fn new(words: Vec<String>) -> (res: WordImport)
        ensures
            res.state() == (ImportState { words: views(words@), pos: 0, adding: false }),
    {
        WordImport { words, pos: 0, adding: false }
    }

    /// What to do next.
    pub fn pending(&self) -> (res: ImportAction)
        ensures
            res.step() == import_pending(self.state()),
            res is Finish <==> self.state().pos >= self.state().words.len(),
            res matches ImportAction::LookUp(w) ==> !self.state().adding && w@
                == self.state().words[self.state().pos as int],
            res matches ImportAction::Add(w) ==> self.state().adding && w@
                == self.state().words[self.state().pos as int],
    {
        proof {
            use_type_invariant(self);
        }
        if self.pos >= self.words.len() {
            ImportAction::Finish
        } else if self.adding {
            ImportAction::Add(self.words[self.pos].clone())
        } else {
            ImportAction::LookUp(self.words[self.pos].clone())
        }
    }

    /// The database service holds `count` entries for the word looked up.
    pub fn found(&mut self, count: usize)
        ensures
            final(self).state() == import_found(old(self).state(), count as nat),
            final(self).state().words == old(self).state().words,
            old(self).state().pos < old(self).state().words.len() && !old(self).state().adding
                ==> (if count > 0 {
                final(self).state().pos == old(self).state().pos + 1 && !final(self).state().adding
            } else {
                final(self).state().pos == old(self).state().pos && final(self).state().adding
            }),
    {
        proof {
            use_type_invariant(&*self);
        }
        if self.pos < self.words.len() && !self.adding {
            if count > 0 {
                self.pos = self.pos + 1;
            } else {
                self.adding = true;
            }
        }
    }

    /// The word being added was handed to a worker, or refused a slot.
    pub fn handed(&mut self)
        ensures
            final(self).state() == import_handed(old(self).state()),
            final(self).state().words == old(self).state().words,
            old(self).state().pos < old(self).state().words.len() && old(self).state().adding
                ==> final(self).state().pos == old(self).state().pos + 1
                && !final(self).state().adding,
    {
        proof {
            use_type_invariant(&*self);
        }
        if self.pos < self.words.len() && self.adding {
            self.adding = false;
            self.pos = self.pos + 1;
        }
    }
}

/// The decisions of an import from state `st` on, when the database
/// service answers `counts[i]` for the word at position `i`: every
/// decision, up to and with `Finish`.
pub open spec fn import_trace(st: ImportState, counts: Seq<nat>) -> Seq<ImportStep>
    decreases 2 * (st.words.len() - st.pos) + (if st.adding { 0int } else { 1int }),
{
    if st.pos >= st.words.len() {
        seq![import_pending(st)]
    } else if st.adding {
        seq![import_pending(st)] + import_trace(import_handed(st), counts)
    } else {
        seq![import_pending(st)] + import_trace(import_found(st, counts[st.pos as int]), counts)
    }
}

/// What an import of `words[i..]` does when the database service answers
/// `counts[j]` for `words[j]`: look each word up in turn, add it right
/// after if it is not known, and finish at the end.
pub open spec fn import_plan(words: Seq<Seq<char>>, counts: Seq<nat>, i: nat) -> Seq<ImportStep>
    decreases words.len() - i,
{
    if i >= words.len() {
        seq![ImportStep::Finish]
    } else if counts[i as int] == 0 {
        seq![ImportStep::LookUp(words[i as int]), ImportStep::Add(words[i as int])]
            + import_plan(words, counts, i + 1)
    } else {
        seq![ImportStep::LookUp(words[i as int])] + import_plan(words, counts, i + 1)
    }
}

/// Once every word has been dealt with, the import finishes; before
/// that it never does, and it asks about the word at its position.
pub proof fn lemma_import_finishes(st: ImportState)
    ensures
        st.pos >= st.words.len() ==> import_pending(st) == ImportStep::Finish,
        st.pos < st.words.len() ==> (import_pending(st) == ImportStep::LookUp(
            st.words[st.pos as int],
        ) || import_pending(st) == ImportStep::Add(st.words[st.pos as int])),
{
}

/// Driven to the end, an import looks every word up once, in order, adds
/// exactly the words the database service has no entry for, each right
/// after its look-up, and then finishes.
pub proof fn lemma_import_follows_plan(words: Seq<Seq<char>>, counts: Seq<nat>, i: nat)
    requires
        i <= words.len(),
    ensures
        import_trace(ImportState { words, pos: i, adding: false }, counts) == import_plan(
            words,
            counts,
            i,
        ),
    decreases words.len() - i,
{
    if i < words.len() {
        lemma_import_follows_plan(words, counts, i + 1);
        let st = ImportState { words, pos: i, adding: false };
        let next = ImportState { words, pos: i + 1, adding: false };
        if counts[i as int] == 0 {
            let st2 = import_found(st, counts[i as int]);
            assert(st2 == ImportState { words, pos: i, adding: true });
            assert(import_handed(st2) == next);
            assert(import_trace(st2, counts) == seq![import_pending(st2)] + import_trace(
                next,
                counts,
            ));
            assert(import_trace(st, counts) =~= import_plan(words, counts, i));
        } else {
            assert(import_found(st, counts[i as int]) == next);
            assert(import_trace(st, counts) =~= import_plan(words, counts, i));
        }
    }
}

// ---------------------------------------------------------------------
// Generating stories
// ---------------------------------------------------------------------

/// What the story generator asks of the program around it.
#[derive(Clone, Debug, PartialEq, Eq)]
pub enum StoryAction {
    /// Ask the database service for this many random entries.
    Fetch(i64),
    /// Wait for a free slot, then hand these words to a worker that asks
    /// the chat model for a story with them and stores it.
    Write(Vec<String>),
    /// All stories have been handed out.
    Finish,
}

/// The generator's decisions, as text.
pub enum StoryStep {
    Fetch(i64),
    Write(Seq<Seq<char>>),
    Finish,
}

impl StoryAction {
    /// The decision, as text.
    pub open spec fn step(self) -> StoryStep {
        match self {
            StoryAction::Fetch(n) => StoryStep::Fetch(n),
            StoryAction::Write(ws) => StoryStep::Write(views(ws@)),
            StoryAction::Finish => StoryStep::Finish,
        }
    }
}

/// Where a story run stands: entries asked for each story, stories to
/// write, stories handed out, and the words fetched for the next one.
pub struct StoryState {
    pub limit: i64,
    pub total: nat,
    pub done: nat,
    pub fetched: Option<Seq<Seq<char>>>,
}

/// What the generator asks for in state `st`.
pub open spec fn story_pending(st: StoryState) -> StoryStep {
    if st.done >= st.total {
        StoryStep::Finish
    } else {
        match st.fetched {
            Some(ws) => StoryStep::Write(ws),
            None => StoryStep::Fetch(st.limit),
        }
    }
}

/// The state after the database service gave `entries` back.
pub open spec fn story_fetched(st: StoryState, entries: Seq<Vocabulary>) -> StoryState {
    if st.done < st.total && st.fetched is None {
        StoryState { fetched: Some(entries.map_values(|v: Vocabulary| v.word@)), ..st }
    } else {
        st
    }
}

/// The state after the words were handed to a worker (or refused a slot).
pub open spec fn story_handed(st: StoryState) -> StoryState {
    if st.done < st.total && st.fetched is Some {
        StoryState { done: st.done + 1, fetched: None, ..st }
    } else {
        st
    }
}

/// A run that writes `total` stories, each with `limit` random words
/// from the database service.
pub struct StoryRun {
    limit: i64,
    total: u32,
    done: u32,
    fetched: Option<Vec<String>>,
}

impl StoryRun {
    /// Where the run stands.
    pub closed spec fn state(&self) -> StoryState {
        StoryState {
            limit: self.limit,
            total: self.total as nat,
            done: self.done as nat,
            fetched: match self.fetched {
                Some(ws) => Some(views(ws@)),
                None => None,
            },
        }
    }

    #[verifier::type_invariant]
    spec fn wf(&self) -> bool {
        self.done <= self.total && (self.done == self.total ==> self.fetched is None)
    }

    /// A run of `total` stories with `limit` words each, about to fetch
    /// the words of the first.
    pub fn new(limit: i64, total: u32) -> (res: StoryRun)
        ensures
            res.state() == (StoryState { limit, total: total as nat, done: 0, fetched: None }),
    {
        StoryRun { limit, total, done: 0, fetched: None }
    }

    /// What to do next.
    pub fn pending(&self) -> (res: StoryAction)
        ensures
            res.step() == story_pending(self.state()),
            res is Finish <==> self.state().done >= self.state().total,
            res matches StoryAction::Fetch(n) ==> n == self.state().limit
                && self.state().fetched is None,
            res matches StoryAction::Write(ws) ==> self.state().fetched == Some(views(ws@)),
    {
        proof {
            use_type_invariant(self);
        }
        if self.done >= self.total {
            StoryAction::Finish
        } else {
            match &self.fetched {
                Some(ws) => {
                    let copy = copy_strings(ws);
                    StoryAction::Write(copy)
                },
                None => StoryAction::Fetch(self.limit),
            }
        }
    }

    /// The database service gave `entries` back.
    pub fn fetched(&mut self, entries: &Vec<Vocabulary>)
        ensures
            final(self).state() == story_fetched(old(self).state(), entries@),
            final(self).state().done == old(self).state().done,
            final(self).state().total == old(self).state().total,
            final(self).state().limit == old(self).state().limit,
            old(self).state().done < old(self).state().total && old(self).state().fetched is None
                ==> final(self).state().fetched == Some(
                entries@.map_values(|v: Vocabulary| v.word@),
            ),
    {
        proof {
            use_type_invariant(&*self);
        }
        if self.done < self.total && self.fetched.is_none() {
            self.fetched = Some(words_of(entries));
        }
    }

    /// The words were handed to a worker, or refused a slot.
    pub fn handed(&mut self)
        ensures
            final(self).state() == story_handed(old(self).state()),
            final(self).state().total == old(self).state().total,
            final(self).state().limit == old(self).state().limit,
            old(self).state().done < old(self).state().total && old(self).state().fetched is Some
                ==> final(self).state().done == old(self).state().done + 1
                && final(self).state().fetched is None,
    {
        proof {
            use_type_invariant(&*self);
        }
        if self.done < self.total && self.fetched.is_some() {
            self.fetched = None;
            self.done = self.done + 1;
        }
    }
}

fn copy_strings(v: &Vec<String>) -> (res: Vec<String>)
    ensures
        res@ == v@,
{
    let mut res: Vec<String> = Vec::new();
    let n = v.len();
    let mut i: usize = 0;
    while i < n
        invariant
            i <= n == v@.len(),
            res@ == v@.take(i as int),
        decreases n - i,
    {
        res.push(v[i].clone());
        assert(v@.take(i + 1) =~= v@.take(i as int).push(v@[i as int]));
        i += 1;
    }
    assert(v@.take(n as int) =~= v@);
    res
}

/// The decisions of a story run from state `st` on, when the database
/// service gives `batches[k]` back for the `k`-th fetch.
pub open spec fn story_trace(st: StoryState, batches: Seq<Seq<Vocabulary>>) -> Seq<StoryStep>
    decreases 2 * (st.total - st.done) + (if st.fetched is Some { 0int } else { 1int }),
{
    if st.done >= st.total {
        seq![story_pending(st)]
    } else if st.fetched is Some {
        seq![story_pending(st)] + story_trace(story_handed(st), batches)
    } else {
        seq![story_pending(st)] + story_trace(
            story_fetched(st, batches[st.done as int]),
            batches,
        )
    }
}

/// What a story run does from story `k` on: fetch `limit` entries, write
/// a story with their words, `total - k` times, then finish.
pub open spec fn story_plan(limit: i64, total: nat, batches: Seq<Seq<Vocabulary>>, k: nat) -> Seq<
    StoryStep,
>
    decreases total - k,
{
    if k >= total {
        seq![StoryStep::Finish]
    } else {
        seq![
            StoryStep::Fetch(limit),
            StoryStep::Write(batches[k as int].map_values(|v: Vocabulary| v.word@)),
        ] + story_plan(limit, total, batches, k + 1)
    }
}

/// Once `total` stories have been handed out the run finishes; before
/// that it never does.
pub proof fn lemma_story_finishes(st: StoryState)
    ensures
        st.done >= st.total ==> story_pending(st) == StoryStep::Finish,
        st.done < st.total ==> story_pending(st) != StoryStep::Finish,
{
}

/// Driven to the end, a story run fetches `limit` entries exactly `total`
/// times, each time hands a story with the fetched words to a worker, and
/// then finishes.
pub proof fn lemma_story_follows_plan(limit: i64, total: nat, batches: Seq<Seq<Vocabulary>>, k: nat)
    requires
        k <= total,
    ensures
        story_trace(StoryState { limit, total, done: k, fetched: None }, batches) == story_plan(
            limit,
            total,
            batches,
            k,
        ),
    decreases total - k,
{
    if k < total {
        lemma_story_follows_plan(limit, total, batches, k + 1);
        let st = StoryState { limit, total, done: k, fetched: None };
        let st2 = story_fetched(st, batches[k as int]);
        let next = StoryState { limit, total, done: k + 1, fetched: None };
        assert(story_handed(st2) == next);
        assert(story_trace(st2, batches) == seq![story_pending(st2)] + story_trace(next, batches));
        assert(story_trace(st, batches) =~= story_plan(limit, total, batches, k));
    }
}

} // verus!
