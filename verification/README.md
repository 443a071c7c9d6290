# afg

The tools of the AFG bot language, verified with Verus:

- `token`, `lexer`: two lexers of AFG source (a splitting one and a scanning one);
- `ast`: the recursive-descent parser building the syntax tree of a program;
- `semantic`: the analysis of declared variables, assignments and calls;
- `pasm`: the translation of the tree into pseudo-assembly (PASM);
- `allocation`: the stack slots of variables;
- `liveness`: basic blocks, their graph (a `petgraph` graph) and live variables;
- `machine`: the AsmFG parser, the virtual machine, and the state of its
  terminal debugger.

Every function of `src/` carries a contract proved by Verus; the laws of the
library (what a step of the machine does over two instructions, what blocks and
allocation keep, what analysis guarantees of accepted programs, ...) are public
proof functions next to the code they speak of.

`app/` holds the terminal debugger (`clap`, `crossterm`, `ratatui`): it reads a
program file, then draws the machine's state while it runs. `tests/` holds the
tests of the library.
