//! Verified core of the orion vocabulary tools: parsing the vocabulary
//! entries that a chat model answers with, building chat requests, and
//! the decisions that drive importing words and generating stories.

pub mod text;
pub mod model;
pub mod content;
pub mod chat;
pub mod openai;
