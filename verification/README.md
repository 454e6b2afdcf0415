# nixbox

A terminal package manager for NixOS and home-manager: search a nixpkgs
channel, pick a package, and nixbox records it in a managed nix file and runs
the rebuild.

The library under `src/` is verified with Verus; the program under `app/`
drives it from the terminal.

## Library

- `text`, `order`, `number` — characters, white space, lines, the order of
  names, decimal numbers.
- `manifest` — the managed package files: a sorted set of names, the modules
  written for home-manager and NixOS, and reading them back (with the
  round-trip laws). The set is a `Vec<String>` kept strictly sorted, in the
  order a `BTreeSet<String>` gives: vstd's specification of ordered sets
  proves nothing about `String` keys, so the order is stated and proved here.
- `config` — settings, targets, recent searches and where files live.
- `search` — the `nix search` command line, output limits, collecting and
  ordering hits.
- `flakes` — GitHub code-search arguments and what a flake's source declares.
- `rebuild` — the rebuild commands and their events.
- `input`, `vim` — one-line text inputs, plain and vim-style.
- `session` — the interface's state and the decisions it takes on a key, an
  event or the end of a write, answered with a command or a step for the
  program to carry out.
- `view` — what each pane shows: labels, key help, the progress bar, the
  rows of the Installed tab.

## Program

`app/main.rs` reads the settings and the managed files, runs the event loop,
and carries out the library's commands: saving the settings, running
searches, writing the managed files and running the rebuilds. Packages
declared by hand in the user's main config files are not scanned: no scanner
for those files is part of this code base. `app/ui.rs`
draws with ratatui.
