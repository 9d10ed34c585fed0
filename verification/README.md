# rpython

A compiler for rPython, a statically typed language with Python-shaped
syntax, written as a Verus library: the functions in `src/` carry
contracts that Verus proves; the calls into `indexmap` and into a few std
string functions go through small wrappers whose contracts are
trusted.

## Layout

- `src/` — the library.
  - `ids`, `span`, `text`: identifiers, source spans, decimal and quoted text.
  - `errors`: diagnostics, the handler that counts them, the source map and
    the plain-text emitter.
  - `syntax`, `parse`: the token model and the recursive-descent parser.
  - `ast`: the node arena, the AST dump and the visitor.
  - `hir`, `hir_build`: HIR and its construction from the typed AST.
  - `mir`, `mir_build`, `borrowck`: MIR, its construction from HIR, the MIR
    dump and the MIR interpreter (with an exact semantics of a run).
  - `codegen`: C source from MIR.
  - `types`, `resolve`: what type checking and name resolution hand to the
    later stages.
  - `driver`, `cli`: the stages of a compilation and the decisions of the
    command line.
- `tests/` — tests of the library.
- `app/` — the `rpythonc` command: argument handling, file I/O, the
  calls into the project's lexer, name resolver, type checker and C
  runtime, and the C compiler.
