# rustfasttext

A text classifier that asks a fastText model first and falls back to an
OpenAI-compatible chat model when the small model is not confident.

- `src/` is the verified library (Verus):
  - `text.rs` — trimming, searching, joining over the characters of a string;
  - `input.rs` — where the texts come from, and the cutting of input into lines;
  - `json.rs` — a plain JSON model, its lookups, parsing and string quoting by `serde_json`;
  - `llm.rs` — configuration, chat request, reading the reply, classification prompt
    and reading the model's verdict;
  - `analyze.rs` — when the large model is asked, and the outcome for a text;
  - `classifier.rs` — what is read off a fastText model (the labels and vocabulary only
    when its dictionary counts fit its entries), and the training thread count.
- `app/` is the command-line program: argument parsing, files, HTTP, training and
  prediction (whose probabilities are floating point).
- `tests/` runs the library on concrete values.
