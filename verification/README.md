# afm

Auto File Manager: background tasks that unpack archives, mirror folders, sort
files by rules and clean old files away.

- `src/` is the library, verified with Verus. It holds what is decided and
  computed: the list of tasks and every change to it, the command lines that
  daemons and copying programs are started with, the rules for sorting,
  cleaning and renaming, the records of what happened and what can be taken
  back, and the texts that are shown. Modules whose names end in `_laws` hold
  the laws that relate several functions.
- `tests/` runs the library on concrete values.
- `app/` is the program around it: arguments, files, processes and watching
  folders.

A few outside functions are trusted by contract: matching a name against a
pattern (`glob`), reading the clock (`chrono`), finding the user's directory
for configuration (`dirs`), and the standard library's `Debug` formatting and
`String::push`.
