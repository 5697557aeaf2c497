# razero_compiler

The compiler side of the razero WebAssembly runtime: the compiled-module
cache format, the AOT metadata and its linked runtime state, relocatable ELF
objects of compiled modules, native packaging (C ABI wrappers, entry
preambles, the hello-host driver and the package metadata bundle), and the
call engine's stack arithmetic and exit-code decisions.

`src/` is verified with Verus: the public functions state in their
contracts what they return; what `object` writes and the wording of std's
UTF-8 texts are named rather than spelled out, and a result that depends on
where the allocator put a buffer is stated for every address it may have
chosen. The laws of the library (round trips of the
cache and bundle formats, what the sorted module list finds, how text
pieces are laid out, ...) are proof functions next to the code they speak
of.

- `checksum`, `le_bytes`, `leb128`, `text`: CRC32C, little-endian words,
  LEB128 immediates, decimal and hexadecimal text, UTF-8.
- `engine_cache`: the compiled-module cache entry and its key.
- `module_registry`: the compiled modules an engine holds, counted, with
  their executables ordered by address.
- `package`: the package metadata bundle written beside an executable.
- `aot`, `const_expr`, `runtime_state`, `runtime_support`: AOT metadata,
  constant expressions, and the runtime state of a linked module.
- `relocation`, `elf`, `link_objects`: call-site normalization and the ELF
  objects written with the `object` crate.
- `linker`, `c_source`, `hello_host`, `native_link`: validation and the C
  sources of native packaging, and what a link writes.
- `call_engine`, `code_map`, `module_engine`, `hostmodule`, `memmove`,
  `linked_module`, `isa_amd64`, `isa_other`, `frontend`: the call engine's
  decisions, address lookups, opaque module contexts and small helpers.

`app/` holds what cannot be verified: host detection, the C compiler and
linker runs, file I/O, the raw-pointer `memmove` that compiled code calls,
the exit-code loop of a call, and the native entrypoints that abort.
