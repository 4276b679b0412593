# twintail

The decision logic of a Linux/Windows game launcher (downloads, updates,
preloads and repairs of games, runners and runtimes; launching through Wine or
Proton; install upkeep), written in Verus with contracts that state what each
function returns.

Layout:

- `src/` — the verified library. `queue` is the download queue (with its laws
  in `queue_laws`), `plan` plans downloads, updates, preloads and repairs,
  `launch` builds launch commands and environments, `compat`, `ini`,
  `scan`, `games`, `versions` parse and rewrite the texts the launcher reads,
  `installs`, `runners`, `extras`, `shortcuts`, `session`, `folders`,
  `patches`, `repository`, `locales`, `host` and `network` hold the smaller
  rules, `text` the character-level helpers the contracts are stated in, and
  `laws` and `compat_laws` the properties that relate several functions.
- `tests/` — tests of the library on concrete values.
- `app/` — the command-line program around the library: reading and writing
  files, spawning processes, the queue's worker thread and the connection
  monitor.
