use orion::content::parse_vocabulary;
use orion::model::{Error, Vocabulary};
use regex::Regex;

const ENTRY_PATTERN: &str = r#"单词：(?P<word>.+)(\n)+英式音标：(?P<soundmark>.+)(\n)+词根词缀：(?P<roots>.+)(\n)+中文释义：(?P<paraphrase>.+)(\n)+常用搭配：(?P<collocations>.+)(\n)+近义词：(?P<synonyms>.+)(\n)+例句：(?P<examples>(.|\s)+)"#;

fn entry(v: &Vocabulary) -> Vec<&str> {
    vec![
        v.word.as_str(),
        v.soundmark.as_str(),
        v.roots.as_str(),
        v.paraphrase.as_str(),
        v.collocations.as_str(),
        v.synonyms.as_str(),
        v.examples.as_str(),
    ]
}

/// What the equivalent regular expression finds in the trimmed text.
fn by_regex(content: &str) -> Option<Vec<String>> {
    let re = Regex::new(ENTRY_PATTERN).unwrap();
    let content = content.trim();
    let caps = re.captures(content)?;
    Some(
        [
            "word",
            "soundmark",
            "roots",
            "paraphrase",
            "collocations",
            "synonyms",
            "examples",
        ]
        .iter()
        .map(|n| caps.name(n).unwrap().as_str().to_string())
        .collect(),
    )
}

fn agrees_with_regex(content: &str) {
    let ours = parse_vocabulary(content);
    match by_regex(content) {
        Some(fields) => {
            let v = ours.expect("the regular expression finds an entry");
            let got: Vec<String> = entry(&v).iter().map(|s| s.to_string()).collect();
            assert_eq!(got, fields, "content: {:?}", content);
            assert_eq!(v.id, 0);
            assert_eq!(v.created_at, None);
            assert_eq!(v.updated_at, None);
        }
        None => {
            assert_eq!(
                ours,
                Err(Error::NoMatch(content.trim().to_string())),
                "content: {:?}",
                content
            );
        }
    }
}

const APPLE: &str = "单词：apple\n英式音标：/ˈæpl/\n词根词缀：无\n中文释义：苹果\n常用搭配：an apple a day (每天一苹果)\n近义词：无\n例句：I like to eat apples for breakfast. (我喜欢在早餐时吃苹果。)";

#[test]
fn match_should_work() {
    let content = "单词：apple\n英式音标：/ˈæpl/\n词根词缀：无\n中文释义：苹果\n常用搭配：an apple a day (每天一苹果)\n近义词：无\n例句：I like to eat apples for breakfast. (我喜欢在早餐时吃苹果。)";
    let re = Regex::new(
        r#"单词：(?P<word>.+)(\n)+英式音标：(?P<phonetic>.+)(\n)+词根词缀：(?P<root>.+)(\n){1,2}中文释义：(?P<chinese>.+)(\n){1,2}常用搭配：(?P<collocation>.+)(\n){1,2}近义词：(?P<synonym>.+)(\n){1,2}例句：(?P<example>(.|\s)+)"#,
    )
    .unwrap();
    let caps = re.captures(&content).unwrap();

    assert_eq!(caps.name("word").unwrap().as_str(), "apple");
    assert_eq!(caps.name("root").unwrap().as_str(), "无");

    let v = parse_vocabulary(content).unwrap();
    assert_eq!(v.word, "apple");
    assert_eq!(v.roots, "无");
}

#[test]
fn parses_every_field() {
    let v = parse_vocabulary(APPLE).unwrap();
    assert_eq!(
        entry(&v),
        vec![
            "apple",
            "/ˈæpl/",
            "无",
            "苹果",
            "an apple a day (每天一苹果)",
            "无",
            "I like to eat apples for breakfast. (我喜欢在早餐时吃苹果。)",
        ]
    );
    assert_eq!(v.id, 0);
}

#[test]
fn answer_is_trimmed_first() {
    let padded = format!("\n\n  {}  \n\t", APPLE);
    let v = parse_vocabulary(&padded).unwrap();
    assert_eq!(v.word, "apple");
    assert_eq!(
        v.examples,
        "I like to eat apples for breakfast. (我喜欢在早餐时吃苹果。)"
    );
}

#[test]
fn text_before_the_entry_is_ignored() {
    let content = format!("Here you are:\n{}", APPLE);
    let v = parse_vocabulary(&content).unwrap();
    assert_eq!(v.word, "apple");
}

#[test]
fn blank_lines_between_fields_are_allowed() {
    let content = "单词：go\n\n\n英式音标：/ɡəʊ/\n\n词根词缀：无\n中文释义：去\n\n常用搭配：go home\n近义词：leave\n\n例句：Go!";
    let v = parse_vocabulary(content).unwrap();
    assert_eq!(entry(&v), vec!["go", "/ɡəʊ/", "无", "去", "go home", "leave", "Go!"]);
}

#[test]
fn examples_run_to_the_end() {
    let content = "单词：a\n英式音标：b\n词根词缀：c\n中文释义：d\n常用搭配：e\n近义词：f\n例句：line one\nline two\n\nline three";
    let v = parse_vocabulary(content).unwrap();
    assert_eq!(v.examples, "line one\nline two\n\nline three");
}

#[test]
fn a_missing_field_is_no_match() {
    let content = "单词：a\n英式音标：b\n中文释义：d\n常用搭配：e\n近义词：f\n例句：g";
    assert_eq!(
        parse_vocabulary(content),
        Err(Error::NoMatch(content.to_string()))
    );
}

#[test]
fn an_empty_field_is_no_match() {
    let content = "  单词：\n英式音标：b\n词根词缀：c\n中文释义：d\n常用搭配：e\n近义词：f\n例句：g\n";
    assert_eq!(
        parse_vocabulary(content),
        Err(Error::NoMatch(content.trim().to_string()))
    );
}

#[test]
fn empty_examples_are_no_match() {
    let content = "单词：a\n英式音标：b\n词根词缀：c\n中文释义：d\n常用搭配：e\n近义词：f\n例句：";
    assert!(matches!(parse_vocabulary(content), Err(Error::NoMatch(_))));
}

#[test]
fn fields_on_one_line_are_no_match() {
    let content = "单词：a 英式音标：b\n词根词缀：c\n中文释义：d\n常用搭配：e\n近义词：f\n例句：g";
    assert!(matches!(parse_vocabulary(content), Err(Error::NoMatch(_))));
}

#[test]
fn the_earliest_entry_is_taken() {
    let content = format!("{}\n{}", APPLE.replace("apple", "pear"), APPLE);
    let v = parse_vocabulary(&content).unwrap();
    assert_eq!(v.word, "pear");
    assert!(v.examples.contains("单词：apple"));
}

#[test]
fn a_broken_first_entry_falls_back_to_a_later_one() {
    let content = format!("单词：x\n例句：y\n{}", APPLE);
    let v = parse_vocabulary(&content).unwrap();
    assert_eq!(v.word, "apple");
}

#[test]
fn carriage_returns_stay_in_values() {
    let content = "单词：a\r\n英式音标：b\r\n词根词缀：c\n中文释义：d\n常用搭配：e\n近义词：f\n例句：g";
    let v = parse_vocabulary(content).unwrap();
    assert_eq!(v.word, "a\r");
    assert_eq!(v.soundmark, "b\r");
}

#[test]
fn empty_answer_is_no_match() {
    assert_eq!(parse_vocabulary(""), Err(Error::NoMatch(String::new())));
    assert_eq!(parse_vocabulary(" \n "), Err(Error::NoMatch(String::new())));
}

#[test]
fn agrees_with_the_regular_expression() {
    let samples = [
        APPLE.to_string(),
        format!("  preface 单词：z\n{}  ", APPLE),
        format!("单词：x\n例句：y\n{}", APPLE),
        format!("{}\n{}", APPLE, APPLE),
        "单词：a\n\n英式音标：b\n词根词缀：c\n\n\n中文释义：d\n常用搭配：e\n近义词：f\n例句：g\nh".to_string(),
        "单词：a\r\n英式音标：b\r\n词根词缀：c\n中文释义：d\n常用搭配：e\n近义词：f\n例句：\ng".to_string(),
        "单词：单词：a\n英式音标：b\n词根词缀：c\n中文释义：d\n常用搭配：e\n近义词：f\n例句：g".to_string(),
        "单词：a\n英式音标：b\n词根词缀：c\n中文释义：d\n常用搭配：e\n近义词：f\n例句：".to_string(),
        "单词：a\n英式音标：\n词根词缀：c\n中文释义：d\n常用搭配：e\n近义词：f\n例句：g".to_string(),
        "单词：a\n 英式音标：b\n词根词缀：c\n中文释义：d\n常用搭配：e\n近义词：f\n例句：g".to_string(),
        "单词：a\n英式音标：b\n词根词缀：c\n中文释义：d\n常用搭配：e\n近义词：f\n例句： ".to_string(),
        String::new(),
        "no entry here".to_string(),
    ];
    for s in samples.iter() {
        agrees_with_regex(s);
    }
}

#[test]
fn surrounding_space_does_not_change_the_entry() {
    for padded in [format!(" \n{}\n\n", APPLE), format!("\u{3000}{}\t", APPLE)] {
        assert_eq!(parse_vocabulary(&padded), parse_vocabulary(APPLE));
    }
}

#[test]
fn values_are_not_empty_and_single_line() {
    let samples = [
        APPLE.to_string(),
        "单词：a\n\n英式音标：b\n词根词缀：c\n中文释义：d\n常用搭配：e\n近义词：f\n例句：g\nh".to_string(),
        format!("x 单词：y\n{}", APPLE),
    ];
    for s in samples.iter() {
        let v = parse_vocabulary(s).unwrap();
        let fields = entry(&v);
        assert!(fields.iter().all(|f| !f.is_empty()));
        assert!(fields[..6].iter().all(|f| !f.contains('\n')));
    }
}
