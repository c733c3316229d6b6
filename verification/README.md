# branch_deck

The logic behind a tool that keeps "virtual branches" in a Git repository:
commits on the main line whose subjects start with `(name)` or an issue number
such as `ABC-123` are grouped and copied onto branches of their own, branches
that are no longer used are archived, and archived branches are checked for
having been integrated (rebased, merged or squashed) into the baseline.

## Layout

- `src/` is the verified library. Each function states what it returns in its
  `ensures`, over spec functions on sequences of characters, and the laws that
  relate several functions are public proof functions:
  - `commit_list`, `record_stream`: reading `git log` records, in whole or in
    chunks, into commits;
  - `commit_grouper`, `issue_reference`: grouping commits by prefix or issue
    number, and adding an issue reference to a branch's messages;
  - `sync`, `copy_commit`, `cherry_pick`, `tree_cache`: the decisions of
    copying commits onto their branches, conflict reports included;
  - `rewrite`, `reword`, `amend_conflict`: recreating history when a commit is
    dropped, amended or reworded;
  - `branch_data`, `detection`, `integration`, `archive`: the state of
    virtual and archived branches, integration detection, the cache kept in
    notes, and archiving;
  - `model`, `model_utils`, `model_config`, `prompt`, `raw_git_format`,
    `suggestion`, `download`: branch-name suggestions and model files;
  - `text`, `unicode`, `number`: the character and number operations the rest
    is stated over.
- `tests/` runs the library on concrete inputs.
- `app/` runs git, the network, threads and the model, and hands the library
  plain values.
