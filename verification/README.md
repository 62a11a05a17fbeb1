# renpy_rust_module

A Rust extension module for Ren'Py games and the tool that builds and
distributes it, with the logic of both proved correct with Verus.

- `src/` is the verified library:
  - `greeting`, `computation`, `tracker`: what the Python module offers to
    Ren'Py scripts (a greeting, a wrapping sum computed off the interpreter
    lock, and a score tracker whose state survives saves, loads and
    rollback);
  - `platform`, `config`, `manifest`, `setup`, `watch`: the decisions of the
    build tool (which platforms a target list selects, the cargo arguments and
    artifact names, how command-line and configured settings combine, the
    PyO3 configuration rewrite, crate discovery from manifests, the setup
    script steps, and when watch mode rebuilds);
  - `text`: character-level string operations the rest is built from.
- `app/` holds the command line of the build tool and the PyO3 bindings; it
  does the file, process and interpreter work, and takes the build tool's
  choices (targets, crates, arguments, file names, next steps, deployment,
  rebuilds) from the library.
- `tests/` exercises the library on concrete values.
