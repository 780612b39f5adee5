# russell front end, verified

A small functional language with `fn` definitions, `typedef`s with
constructors, closures, `match`, and `read`/`echo` statements. The library
under `src/` holds its front end, each stage stated against a mathematical
model and proved with Verus:

- `lexer`, `token`, `chars`: the lexical grammar as spec functions over the
  characters of the program; `lex` returns exactly the tokens (or every
  error) that the grammar describes, with byte offsets.
- `grammar`, `parser`, `ast`: a spec parser over token sequences; each
  parsing function returns what the spec parser returns at its position.
- `resolution`: names replaced by identifiers, over a model of the scoped
  symbol table; laws on lookup, shadowing and scopes.
- `typechecker`: monomorphic inference (`infer`), and inference by
  unification over a union-find arena (`inference`).
- `show`, `error`, `location`: printed forms of expressions and types, error
  messages, and error reports with line, column and source line.

`app/` is the `rsli` command: it reads a file, reports lexing and parsing
errors, and runs the program with a tree-walking interpreter (floating-point
values and I/O keep it outside the verified library).
