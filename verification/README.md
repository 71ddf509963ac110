# Feather Fences

Fences on the Windows desktop: panels that show a folder or hold files, which
are dragged, resized, paged through and hidden, and a desktop that is swept by
file extension.

The library decides, and the program around it acts.

- `src/` is the library, verified with Verus: what each message asks a window
  for, how fences follow the pointer, where new ones go, which icons of the
  desktop have to make room, how files are named when they are moved, what the
  formats and bytes of a drag are, how directories are watched and what the
  configuration means. It does no I/O and no floating-point arithmetic; display
  scaling is computed on integers, with the rounding of single precision.
- `tests/` runs the library on concrete values.
- `app/` is the program: windows, messages, files, the registry and the shell.
  It hands the library what it has read and carries out what comes back.

Two functions of the standard library are used with contracts that are not
proved here: `String::from_utf16_lossy` and `str::to_lowercase`. Both contracts
stand in `src/text.rs`.
