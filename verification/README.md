# kaleidoscope

An operator provider that compiles operator trees to machine code through an
LLVM backend.

- `src/` is the verified library: the operator trees and what they compute
  (`operator_tree`), their lowering to a straight-line program of backend calls
  with the proof that lowering keeps their meaning (`codegen`,
  `codegen::semantics`), the naming and bookkeeping of compiled operators
  (`operator_compiler`), the handles of backend objects, the sharing of
  compiled modules, and the operator grammar (`parse`).
- `app/` makes the calls into the C++ backend, owns and frees the backend
  objects, and plugs the compiler into the operator model as an operator
  provider.
