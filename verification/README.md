# cminus

A small C compiler for x86_64 Linux together with an ELF64 toolkit and a
static linker, written in Verus.

- `src/` is the verified library: lexer, parser, type checker, frame
  allocation, three-address code generation, control-flow graphs, liveness
  analysis, register allocation, x86_64 code generation in Intel and AT&T
  syntax, ELF64 images and the static linker. Every function carries a
  contract that Verus proves.
- `app/` is the command-line program around it: argument handling, reading
  the source file, the diagnostic dumps and colored messages.
- `tests/` runs the library on concrete inputs.
