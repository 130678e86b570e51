# orion

Tools for learning English vocabulary with a chat model: words from a
list are described by the model and stored through the vocabulary
service; stories are written around random stored words.

- `src/` is the verified library (Verus):
  - `text.rs`: characters, trimming, splitting on line breaks, joining,
    reading a decimal count;
  - `model.rs`: vocabulary entries, stories, configuration, errors;
  - `content.rs`: the labelled vocabulary entry format of the model's
    answers, with a parser proved against its specification;
  - `chat.rs`: chat requests and what is made of answers and replies;
  - `openai.rs`: settings, and the state machines that decide what the
    importer and the story generator do next, with proofs of whole runs.
- `app/` is the program around it: command line, gRPC clients, the chat
  API over HTTP, the database service, workers and channels.
- `tests/` runs the library on concrete inputs, and checks the entry
  parser against an equivalent regular expression (regex crate).
