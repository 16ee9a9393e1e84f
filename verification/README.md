# git-forge

Issues, pull requests and CI checks inside a Git repository. Everything is a chain of
events under `refs/forge/`; what an issue or a pull request looks like is what its chain
folds to.

- `src/` is the library, verified with Verus: the event model and its JSON form, folding,
  command lines, ref transactions and merges and CI runs as state machines, the justfile
  scanner, and the wording of every answer and error. What `git`, libgit2 and the system
  say themselves is passed on.
- `app/` is the `git-forge` program: it opens the repository, runs `git` and the CI plan,
  and does the work that the machines of the library ask for.
- `tests/` runs the library.

A merge needs an approving last review and a passing latest CI check. It runs in a
temporary worktree and ends in one ref transaction.
