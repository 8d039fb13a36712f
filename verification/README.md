# registry

The verified core of an on-chain account registry program and of the code
generators that come with it, written in Verus.

- `src/` is the library. Every function there carries a contract that Verus
  proves: the byte layouts of the registry's accounts and instructions, the
  field-by-field codec, the account checks, what each instruction decides,
  and what the derive macros and the TypeScript bindings generator decide
  about a declaration. Calls into the runtime crates (`pinocchio-system`,
  `pinocchio-token`) and a few std functions stand behind small trusted
  wrappers whose doc comments say what is assumed of them.
- `tests/` runs the library on concrete values.
- `app/` is the part that only the runtime can do: the program entrypoint,
  address derivation, clock and rent reads, cross-program calls, and the
  error types with `thiserror` derives.

