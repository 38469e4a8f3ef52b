# jj_testkit

Building blocks for tests of Jujutsu repositories, verified with Verus.

- `src/` is the library. It decides and computes, and touches neither disk nor
  clock: scratch environments, the setup of repositories and workspaces, trees
  and commits to make, readable listings of trees, and checks on rebases,
  transactions and new workspaces. What it takes on trust from jj-lib, itertools,
  rand and std stands in `src/upstream.rs`.
- `app/` is a program around the library. It makes the directories, opens the
  repositories, reads and writes the stores, and hands the library what it needs.
- `tests/` runs the library, with jj-lib behind it.
