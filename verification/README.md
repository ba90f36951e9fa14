# zmax_term

The verified core of a handful of terminal overlays: the games (Nova,
Missile Command, Nonogram, Mpuz) and the editor tools (the three-pane merge
viewer with its line diff, conflict-marker parser and three-way merge; the
project search-and-replace review; the package menu; the preferences page;
the powerline status bar; command-line completion matching).

- `src/` is the library, written in Verus: every function carries a contract
  and is proved against it. Calls into `imara-diff`, `regex` and the parts of
  std that Verus has no specification for go through small trusted wrappers
  whose contracts say what those functions return.
- `app/` is the edge: it runs `rg` and `git`, reads and writes files, and
  paces the games on the wall clock, handing the library plain values.
- `tests/` exercises the library through its public interface.

What is not here: the process viewer, the editor's own prompt and command
plumbing, and vim's `diffopt`/`diffexpr` settings belong to the host editor,
whose crates are not part of this build; the merge viewer aligns lines with
the plain histogram diff. Its `wordwise` flag is recorded on the view, but
refining changed lines word by word rests on the host editor's word
classes, which are not part of this build, so here the flag has no effect.
