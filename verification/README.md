# accessforge

A verified library for AccessForge, a one-click installer of accessibility
mods for blind gamers, with the program around it.

- `src/` is the library, written in Verus: manifests and sources, slugs and
  versions, loader releases, the install and discovery sequences (as state
  machines that say what to fetch, extract and report next), the state file's
  records, UE4SS's `mods.txt`, release packaging checks, the PATH edit, the
  developer `init` questionnaire and the GUI's lists and install log. Every
  function carries a contract that Verus proves; the few calls into outside
  crates (`versions`, `chrono`) sit behind small trusted wrappers.
- `tests/` runs the library on concrete values.
- `app/` is the program: the command line (clap), the wxdragon GUI, HTTP
  (ureq), zip files, Steam lookups, the state file (serde) and threads. It
  performs what the library's state machines ask for and hands back the
  answers.
