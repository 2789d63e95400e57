# minilisp

A small Lisp compiler for AArch64, written in Verus: every function of the library in
`src/` carries a contract that Verus proves.

- `common`, `logical_imm`: constants, condition and register codes, branch offsets, and the
  logical-immediate encoder with its DecodeBitMasks model.
- `object`, `ast`: tagged words for integers, characters, booleans and nil; pairs and symbols
  in an arena (`AstHeap`); the printer.
- `parser`, `lower`: the reader, specified by its grammar, and the lowering of what it reads
  into heap nodes.
- `codegen`, `compile`: instruction encoders, and the compiler of primitive calls, whose
  output is stated word for word.
- `labelmap`, `label`: label and call-site tables, and the linker that lays buffers out and
  patches calls.
- `listing`, `image`: disassembly listings (through the capstone crate) and object files
  (through the object crate) of linked code.
- `text`, `env`, `syscall`: numerals, variable environments, system call numbers.

`app/` is the program around the library: it runs compiled code in memory (mmap through
libc), prints listings, writes object files and calls the system linker, and has a
read-compile-run loop (`repl` argument).
