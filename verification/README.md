# esprit

Esprit is a local-first AI workspace tool: it indexes a project, searches
it, answers questions about it with a local model, organises folders, finds
duplicate files, draws the project's dependency graph and keeps itself up to
date.

This crate is its verified core, written in Verus. The functions in `src/`
are proved by Verus against their `requires`/`ensures` contracts. Where a
result comes from the disk (the search indexes, the index database), the
trusted calls keep in ghost fields the directory, query, path or SQL they
were given, so the contracts say which index or database a result comes
from and what was asked of it; a verified function that takes the outside
result as an argument says what is made of it. Two kinds of result are left
open: the clock, and the contents of the cache shared between threads. The
calls into outside crates (hashing, regular expressions, TOML and JSON
parsing, the graph store, the full-text index, terminal colours) stand
behind small trusted wrappers whose contracts say what those crates'
sources show.

## Layout

- `src/` — the library, one module per concern: text primitives (`text`),
  the model registry (`models`), file organisation and hashing
  (`filesystem`), folder statistics (`stats`), the file index and search
  (`index`, `search`, `database`), the dependency graph (`graph`), code
  intelligence (`codeintel`, `analysis`), answering with retrieved context
  (`rag`, `agents`, `ai`, `api`), conversation memory (`memory`), the
  daemon's state machines (`daemon`, `watcher`), self-update decisions
  (`updater`), tool versions (`doctor`), terminal layout (`ui`, `cli`),
  settings (`config`), counters, pipelines and a shared cache.
- `tests/` — tests of the library on concrete values.
- `app/` — the `esprit` command line: argument parsing, files, SQLite,
  network, processes, the model runtime and the terminal dashboard, all
  driven by the library's decisions.
