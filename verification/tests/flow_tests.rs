use orion::chat::{
    stored_story, stored_vocabulary, story_from_answer, story_request, vocabulary_request,
    words_of, ChatMessage, ChatRequest,
};
use orion::model::{Error, Story, Timestamp, Vocabulary};
use orion::openai::{
    concurrency, resolve_settings, Environment, ImportAction, MissingSetting, OpenAI, Options,
    StoryAction, StoryRun, WordImport,
};

fn vocab(word: &str) -> Vocabulary {
    Vocabulary {
        id: 0,
        word: word.to_string(),
        soundmark: "s".to_string(),
        roots: "r".to_string(),
        paraphrase: "p".to_string(),
        collocations: "c".to_string(),
        synonyms: "y".to_string(),
        examples: "e".to_string(),
        created_at: None,
        updated_at: None,
    }
}

fn strings(ws: &[&str]) -> Vec<String> {
    ws.iter().map(|w| w.to_string()).collect()
}

fn message(role: &str, content: &str) -> ChatMessage {
    ChatMessage { role: role.to_string(), content: content.to_string() }
}

#[test]
fn vocabulary_request_asks_about_the_word() {
    let r = vocabulary_request("be my teacher", "apple");
    assert_eq!(
        r,
        ChatRequest {
            model: "gpt-3.5-turbo".to_string(),
            temperature_tenths: 2,
            messages: vec![message("system", "be my teacher"), message("user", "apple")],
        }
    );
}

#[test]
fn story_request_lists_the_words() {
    let r = story_request("write a story", &strings(&["apple", "pear"]));
    assert_eq!(r.model, "gpt-3.5-turbo");
    assert_eq!(r.temperature_tenths, 10);
    assert_eq!(
        r.messages,
        vec![message("system", "write a story"), message("user", "apple,pear")]
    );
    let empty = story_request("p", &vec![]);
    assert_eq!(empty.messages[1].content, "");
}

#[test]
fn story_from_answer_trims_the_answer() {
    let s = story_from_answer(strings(&["a", "b"]), "\n  Once upon a time.  \n");
    assert_eq!(
        s,
        Story {
            id: 0,
            words: strings(&["a", "b"]),
            content: "Once upon a time.".to_string(),
            read_count: 0,
            created_at: None,
            updated_at: None,
        }
    );
}

#[test]
fn stored_vocabulary_needs_the_reply() {
    let stored = vocab("apple").with_id(7);
    assert_eq!(stored.id, 7);
    assert_eq!(stored.word, "apple");
    assert_eq!(stored_vocabulary("apple", Some(stored.clone())), Ok(stored));
    assert_eq!(
        stored_vocabulary("apple", None),
        Err(Error::AddWordFailed("apple".to_string()))
    );
}

#[test]
fn stored_story_needs_the_reply() {
    let s = story_from_answer(strings(&["a"]), "x").with_id(3);
    assert_eq!(s.id, 3);
    assert_eq!(stored_story(strings(&["a"]), Some(s.clone())), Ok(s));
    assert_eq!(
        stored_story(strings(&["a", "b"]), None),
        Err(Error::AddStoryFailed(strings(&["a", "b"])))
    );
}

#[test]
fn with_id_keeps_the_rest() {
    let mut v = vocab("go");
    v.created_at = Some(Timestamp { seconds: 1, nanos: 2 });
    let w = v.clone().with_id(-5);
    assert_eq!(w.id, -5);
    assert_eq!(Vocabulary { id: 0, ..w }, v);
}

#[test]
fn words_of_takes_each_word() {
    assert_eq!(words_of(&vec![vocab("a"), vocab("b"), vocab("a")]), strings(&["a", "b", "a"]));
    assert!(words_of(&vec![]).is_empty());
}

#[test]
fn concurrency_defaults_to_two() {
    assert_eq!(concurrency(None), 2);
    assert_eq!(concurrency(Some("5")), 5);
    assert_eq!(concurrency(Some("+0")), 0);
    assert_eq!(concurrency(Some("many")), 2);
    assert_eq!(concurrency(Some("-3")), 2);
}

#[test]
fn new_keeps_the_settings() {
    let o = OpenAI::new(
        "http://[::1]:5015".to_string(),
        "k".to_string(),
        "u".to_string(),
        "words.txt".to_string(),
        "p".to_string(),
    );
    assert_eq!(o.rpc, "http://[::1]:5015");
    assert_eq!(o.key, "k");
    assert_eq!(o.openai_url, "u");
    assert_eq!(o.word_list_file, "words.txt");
    assert_eq!(o.prompt, "p");
}

fn opts(key: Option<&str>, url: Option<&str>, db: Option<&str>, prompt: Option<&str>) -> Options {
    Options {
        key: key.map(String::from),
        url: url.map(String::from),
        db: db.map(String::from),
        word_list: "words.txt".to_string(),
        prompt: prompt.map(String::from),
    }
}

fn env(key: Option<&str>, url: Option<&str>, db: Option<&str>) -> Environment {
    Environment {
        openai_key: key.map(String::from),
        openai_url: url.map(String::from),
        vocabulary_db: db.map(String::from),
    }
}

#[test]
fn settings_prefer_the_command_line() {
    let s = resolve_settings(
        opts(Some("k1"), Some("u1"), Some("d1"), Some("p1")),
        env(Some("k2"), Some("u2"), Some("d2")),
    )
    .unwrap();
    assert_eq!((s.key.as_str(), s.url.as_str(), s.db.as_str(), s.prompt.as_str()), ("k1", "u1", "d1", "p1"));
    assert_eq!(s.word_list, "words.txt");
}

#[test]
fn settings_fall_back_to_the_environment_and_defaults() {
    let s = resolve_settings(opts(None, None, None, None), env(Some("k2"), None, Some("d2"))).unwrap();
    assert_eq!(s.key, "k2");
    assert_eq!(s.db, "d2");
    assert_eq!(s.url, "https://api.openai.com/v1/chat/completions");
    assert_eq!(
        s.prompt,
        "你将作为我的英语老师翻译单词的这些信息：单词、英式音标、词根词缀、中文释义、常用搭配、近义词、例句"
    );
    let s = resolve_settings(opts(None, None, None, None), env(Some("k"), Some("u2"), Some("d"))).unwrap();
    assert_eq!(s.url, "u2");
}

#[test]
fn settings_need_a_key_then_a_database() {
    assert_eq!(
        resolve_settings(opts(None, None, None, None), env(None, None, None)),
        Err(MissingSetting::Key)
    );
    assert_eq!(
        resolve_settings(opts(Some("k"), None, None, None), env(None, None, None)),
        Err(MissingSetting::Database)
    );
}

/// Runs an import where the database holds `known` words.
fn run_import(words: &[&str], known: &[&str]) -> Vec<ImportAction> {
    let mut run = WordImport::new(strings(words));
    let mut trace = vec![];
    loop {
        let a = run.pending();
        trace.push(a.clone());
        match a {
            ImportAction::LookUp(w) => {
                let count = known.iter().filter(|k| **k == w).count();
                run.found(count);
            }
            ImportAction::Add(_) => run.handed(),
            ImportAction::Finish => break,
        }
    }
    trace
}

#[test]
fn import_adds_only_unknown_words_in_order() {
    let trace = run_import(&["apple", "pear", "", "plum"], &["pear"]);
    assert_eq!(
        trace,
        vec![
            ImportAction::LookUp("apple".to_string()),
            ImportAction::Add("apple".to_string()),
            ImportAction::LookUp("pear".to_string()),
            ImportAction::LookUp("".to_string()),
            ImportAction::Add("".to_string()),
            ImportAction::LookUp("plum".to_string()),
            ImportAction::Add("plum".to_string()),
            ImportAction::Finish,
        ]
    );
    assert_eq!(run_import(&[], &[]), vec![ImportAction::Finish]);
}

#[test]
fn import_ignores_events_out_of_turn() {
    let mut run = WordImport::new(strings(&["a"]));
    run.handed();
    assert_eq!(run.pending(), ImportAction::LookUp("a".to_string()));
    run.found(0);
    run.found(3);
    assert_eq!(run.pending(), ImportAction::Add("a".to_string()));
    run.handed();
    assert_eq!(run.pending(), ImportAction::Finish);
    run.found(0);
    run.handed();
    assert_eq!(run.pending(), ImportAction::Finish);
}

#[test]
fn story_run_writes_total_stories() {
    let mut run = StoryRun::new(3, 2);
    let batches = vec![vec![vocab("a"), vocab("b")], vec![]];
    let mut k = 0;
    let mut trace = vec![];
    loop {
        let a = run.pending();
        trace.push(a.clone());
        match a {
            StoryAction::Fetch(_) => {
                run.fetched(&batches[k]);
                k += 1;
            }
            StoryAction::Write(_) => run.handed(),
            StoryAction::Finish => break,
        }
    }
    assert_eq!(
        trace,
        vec![
            StoryAction::Fetch(3),
            StoryAction::Write(strings(&["a", "b"])),
            StoryAction::Fetch(3),
            StoryAction::Write(vec![]),
            StoryAction::Finish,
        ]
    );
    let mut none = StoryRun::new(5, 0);
    assert_eq!(none.pending(), StoryAction::Finish);
    none.fetched(&vec![vocab("x")]);
    assert_eq!(none.pending(), StoryAction::Finish);
}
