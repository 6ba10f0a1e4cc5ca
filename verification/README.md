# buildk

A build tool for Kotlin projects, as a verified library and a thin command
line program around it.

- `src/` is the library, written in Verus. Each function states in its
  contract what it returns or changes, and Verus proves it. `src/laws.rs`
  holds the properties that span several functions (what a cache lookup gives
  back after an insert, that sorted package sets hold each package once, that
  the dependency walk is given enough depth, and others).
- `tests/` runs the library on concrete inputs.
- `app/` is the program: argument parsing, reading and writing files, running
  `kotlinc` and `java`, downloading packages, printing. It hands plain values
  to the library and acts on what comes back.

Calls into outside crates that compute (`roxmltree`, `toml_edit`, `regex`,
`xml-rs`, `home`, `gryf`) stand in `src/` behind small trusted wrappers, each
with a doc comment that says what its contract claims of the outside function.
