# rs_mod_lua

Verified core of a family of Lua modules: regular expressions (`rsre`), run-time
grammars and their parse trees (`rsast`), JSON encoding and decoding settings
(`rsjson`), file-system helpers (`rsfs`), JSON Schema drafts and checks
(`jsonschema`) and template-engine conversions and filters (`minijinja`).

- `src/` is the library, checked by Verus: functions state their behaviour in
  `requires`/`ensures` (where an outside crate's result depends on more than
  its arguments, as with `pest`'s process-wide call limit, the contract states
  what holds of every outcome), and the properties that relate several
  functions are proved as `law_*` proof functions. Calls into outside crates go through small
  trusted wrappers whose contracts say what the crate's source or documentation
  shows.
- `app/` builds the Lua module tables with `mlua`: it converts between Lua
  values and the library's plain values, and performs the I/O.
- `tests/` exercises the library from outside.
