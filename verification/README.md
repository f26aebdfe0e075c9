# aspect

The front end of a compiler for Aspect, a statically typed systems language:
lexing, preprocessing, parsing and type checking. The functions of the library
carry contracts that Verus proves, except nine that it believes: those of the
five wrappers around `indexmap::IndexSet` in `src/parser/literals.rs`, of the
three wrappers around `syn` and `str::to_lowercase` in `src/dsl.rs`, and of
`String::push` in `src/text.rs`. The comment above each says what it claims of
the function it stands for.

- `src/lexer`: tokens and their places
- `src/preprocessor`: directives, defines, conditionals and module imports
- `src/parser`: the grammar, declarations, deferred bodies and visibility
- `src/symbol`, `src/scope.rs`, `src/names.rs`: names and what they stand for
- `src/typechecker`: coercions, statements, switches, register contracts
- `src/variants.rs`, `src/target.rs`, `src/registers.rs`: what the other parts share
- `src/dsl.rs`: the words in which grammar rules can be written
- `app`: the `aspc` program, which reads files and prints what is found

File access goes through `preprocessor::disk::Disk`. Where a run needs to know
more of the file system it stops with a query; the caller adds the answer and
starts again.
