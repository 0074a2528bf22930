# review_to_md

Review comments, pull request reviews, issues and local diff reviews as
markdown, with the logic verified by Verus.

- `src/` is the library, verified: the parsers of `git diff` output
  (`diff`, `line_diff`, `side_by_side_diff`), the markdown of review
  comments and issues (`formatting`), inserting comments into source files
  (`apply`), choosing the review, pull request and repository
  (`review`, `repository`, `github`, `cli`), the state and API of a
  local review session (`local`), the agent skills and where they are
  installed (`skills`), and the law that a parsed chunk is written back as
  its text (`round_trip`). Calls into `syntect`, `regex`, `uuid` and
  `pathsearch` stand behind small trusted wrappers whose contracts are
  stated in their doc comments.
- `app/` is the program around it: the command line (`argh`), `git` and
  `gh`, files, the web server (`axum`, `tokio`) and the browser.
- `tests/` runs the library on concrete inputs.
