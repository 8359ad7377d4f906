# rusty_javac

A small Java compiler written as a Verus library: Java source goes through a
lexer, a recursive-descent parser (events replayed into a rowan green tree),
lowering to a typed HIR, and JVM bytecode generation; `rust-asm` writes the
class file.

Layout of `src/`:

- `lexer`, `syntax`, `parser`, `green` — tokens, syntax kinds, the parser and
  its event stream; the green tree holds the whole source text, trivia and any
  tokens the grammar leaves included.
- `lowering`, `expr_lowering`, `tree_lowering` — literals, type resolution,
  the expression reader, statements, members and compilation units; lowered
  bodies store every expression after its operands.
- `hir`, `ty`, `sig`, `check` — the intermediate representation and types.
- `codegen`, `ops`, `opcodes`, `classfile` — instruction selection into a
  label-based instruction list (every jump lands on a label of its method),
  then writing through `rust-asm`.
- `catalog`, `platform`, `resolver`, `calls`, `java_lang`, `system`, `javax` —
  the built-in platform classes and the calls the compiler knows.
- `diagnostics`, `error`, `compiler` — reporting and the driver for one source.

`app/main.rs` is the command-line driver: it reads the sources and writes the
class files.
