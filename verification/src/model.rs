//! The records that the tools exchange with the database service and the
//! chat model, the configuration, and the error type.
use vstd::prelude::*;

verus! {

/// A point in time: seconds and nanoseconds since the Unix epoch.
#[derive(Clone, Copy, Debug, PartialEq, Eq)]
pub struct Timestamp {
    pub seconds: i64,
    pub nanos: i32,
}

/// A vocabulary entry: a word with what a learner needs to know of it.
#[derive(Clone, Debug, PartialEq, Eq)]
pub struct Vocabulary {
    /// Database id; 0 until the entry is stored.
    pub id: i64,
    /// The word.
    pub word: String,
    /// Its British phonetic transcription.
    pub soundmark: String,
    /// Its roots and affixes.
    pub roots: String,
    /// Its Chinese meaning.
    pub paraphrase: String,
    /// Common collocations.
    pub collocations: String,
    /// Synonyms.
    pub synonyms: String,
    /// Example sentences.
    pub examples: String,
    /// When the entry was created.
    pub created_at: Option<Timestamp>,
    /// When the entry was last updated.
    pub updated_at: Option<Timestamp>,
}

impl Vocabulary {
    /// The seven text fields, in the order word, soundmark, roots,
    /// paraphrase, collocations, synonyms, examples.
    pub open spec fn text_fields(self) -> Seq<Seq<char>> {
        seq![
            self.word@,
            self.soundmark@,
            self.roots@,
            self.paraphrase@,
            self.collocations@,
            self.synonyms@,
            self.examples@,
        ]
    }

    /// The entry as stored under database id `id`.
    pub fn with_id(self, id: i64) -> (res: Vocabulary)
        ensures
            res == (Vocabulary { id, ..self }),
    {
        Vocabulary { id, ..self }
    }
}

/// A story written around a list of words.
#[derive(Clone, Debug, PartialEq, Eq)]
pub struct Story {
    /// Database id; 0 until the story is stored.
    pub id: i64,
    /// The words the story was written with.
    pub words: Vec<String>,
    /// The story text.
    pub content: String,
    /// How many times the story was read.
    pub read_count: i64,
    /// When the story was created.
    pub created_at: Option<Timestamp>,
    /// When the story was last updated.
    pub updated_at: Option<Timestamp>,
}

impl Story {
    /// The story as stored under database id `id`.
    pub fn with_id(self, id: i64) -> (res: Story)
        ensures
            res == (Story { id, ..self }),
    {
        Story { id, ..self }
    }
}

/// Where the database is.
#[derive(Clone, Debug, PartialEq, Eq)]
pub struct DbConfig {
    pub database_url: String,
}

/// The service configuration.
#[derive(Clone, Debug, PartialEq, Eq)]
pub struct Config {
    pub db: DbConfig,
}

/// What can go wrong.
#[derive(Clone, Debug, PartialEq, Eq)]
pub enum Error {
    /// The database failed; its message.
    SqlxError(String),
    /// Reading or writing a file failed; its message.
    IOError(String),
    /// Nothing more is known.
    Unknown,
    /// Another failure, such as of a remote call; its message.
    AnyhowError(String),
    /// The chat model's answer (trimmed) is not a vocabulary entry.
    NoMatch(String),
    /// The database service did not give back the entry for this word.
    AddWordFailed(String),
    /// The database service did not give back the story for these words.
    AddStoryFailed(Vec<String>),
}

} // verus!
