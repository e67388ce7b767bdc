# parser

Reader for the question banks of a kanji proficiency exam application, with
the state logic of a small question browser, verified with Verus.

- `src/decode.rs`: refusals, decoder outcomes, little endian integers.
- `src/question.rs`: strings, texts, text lists and questions; the alignment
  of every field on four bytes.
- `src/bank.rs`: whole question files (header, asset name, questions, field id).
- `src/master.rs`: the field master table (CSV) and its rows.
- `src/fields.rs`: joining question files with master rows.
- `src/kyu.rs`, `src/types.rs`: grades and the data types.
- `src/text.rs`: decimal text, white space, integer parsing.
- `src/browser.rs`, `src/present.rs`: the browser's state and what it shows.
- `app/`: the browser window (iced), reading `data/combined_fields.json`.
