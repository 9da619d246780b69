# akey

API keys and Workload Identity Federation profiles for agent tooling, kept
in the OS credential vault, injected per process, with the SDKs' credential
precedence diagnosed.

The library (`src/`) is written in Verus and proved:

* `cli` — argument parsing, with an exact contract per command and error.
* `store` — the WIF profile, its JSON form (written and read through the
  `json` crate) and the environment it injects; secret input cleaning.
* `vault` — every store operation as a small state machine that asks for
  one vault operation at a time; laws relate the operations over a model
  of the vault as a map from entry names to bytes.
* `status` — the five-tier precedence report.
* `commands` — the messages and decisions of the command-line tool.
* `json_text`, `text` — JSON text and string helpers.

`app/` is the command-line program: it reads arguments and stdin, performs
the vault operations with the `cred` crate, spawns processes and prints.
