# glyphshift_adapters

The decision logic of the Glyphshift runtime adapters, written in Verus and proved
against its contracts: which text an adapter observes, when it asks the host for a
replacement, what it draws or writes back, and what it restores afterwards.

- `src/` is the verified library. Each adapter family has a module (`directwrite`,
  `direct2d`, `gtk3_pango`, `qt_*`, `raylib*`, `sidefx`, `monogame`, `console`, `uia*`,
  `unity_*`, `catsystem2*`), with shared text helpers in `unicode` and `chars`.
  `catsystem2_shape` reads the engine's machine code through `x86`, which decodes
  instructions with `iced-x86`; that decoder call is the library's one trusted item
  outside the standard library.
- `tests/` exercises the library on concrete values.
- `app/` holds what stays outside the proofs: the sequencers that ask the host and hand
  its answer to the library, process and file-system access, the observer thread,
  floating-point geometry, and panic containment around host callbacks.
- The native hook bodies themselves (function detours, COM/UI Automation, screen capture,
  IL2CPP and Qt symbol resolution) are not part of this crate: they are unsafe FFI into the
  host process. Their decisions are the library's step functions, such as `plan_draw`,
  `pass_pumps_writeback` and `status_after_pass`.
