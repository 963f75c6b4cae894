# derive_survey

Surveys derived from Rust types: a survey is a tree of questions (text,
numbers, confirmations, lists, choices of one or several variants, nested
groups); a backend asks them and collects the answers, keyed by dotted
response paths.

The library under `src/` is written in Verus. Every function carries a
contract over a mathematical model of its data (paths as character
sequences, collected responses as maps, flattened questions as sequences)
and is verified:

- `path`, `responses`, `value`, `question`: response paths, the response
  table and its typed reads, the survey structure.
- `builder`: suggestions and assumptions, and how they are written into the
  questions of a survey.
- `test_backend`: collecting a survey from pre-set answers.
- `flat`, `wizard`: the terminal wizard's flattened questions and its state
  machine (editing, submitting, bounds, validation, variant follow-ups,
  going back).
- `cli`: the decisions of the prompt-by-prompt backend, including what is
  asked after a choice and where the items of a multi-select go.
- `derive`, `infer`, `naming`: what the derives choose for a field, and
  which validator the derived validation runs for an answer's path.
- `fields`: reading a field of a given type back from collected responses,
  and suggestions taken from an existing instance.
- `display`: the bounds hint and password mask the terminal wizard shows.
- `text`: the string helpers the rest is built on.

`app/` holds what Verus does not check: the traits that tie survey types to
backends, the `requestty` and `ratatui` front ends, and the error types with
their `Display` messages. Floating-point numbers are carried in the library
as `f64` bit patterns; reading, comparing and printing them happens in the
front ends.
