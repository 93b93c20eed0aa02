# stereocord

Forces true stereo, 48 kHz and a high Opus bitrate in Discord's Linux voice
module by patching `discord_voice.node`, and switches off the noise suppression,
automatic gain and echo cancellation that would otherwise reshape the signal
before it is ever encoded. Everything is grouped and optional.

Run it with no arguments and it opens a terminal interface: pick a client, read
what its voice module is currently doing to your audio in plain words, and patch
or restore from there. Give it a command and it behaves as a plain command-line
tool instead; `stereocord --help` lists the commands.

Modifying Discord's client files is against Discord's terms of service. Not
affiliated with Discord Inc.

## Layout

`src/` is the library, written in Verus: every function there is proved to do
what its contract says.

| module | what it holds |
| --- | --- |
| `text`, `bytes`, `md5` | strings, little-endian words, the digest |
| `sig`, `elf`, `resolve` | byte patterns, the symbol table, locating sites |
| `sites` | the catalogue of patch sites and groups |
| `shellcode` | the two injected filters, byte by byte |
| `patch`, `apply` | planning, checking, writing and verifying a patch |
| `status` | what a module is doing, site by site and in plain words |
| `discovery`, `backup`, `manage` | installs, backups, clearing a module |
| `cli`, `console` | arguments, selection, and what the commands print |
| `picker` | the group picker that needs nothing but escape sequences |
| `tui` | the interface: its state, its dialogs, its jobs and its screens |

`app/` is the program around it: files, processes, threads, the terminal, and
floating point. `tests/` runs the library on concrete inputs.

Public proof functions named `law_…` state what holds of the library as a whole:
that a written patch verifies and touches nothing else, that a patch reads back as
applied, that only directories of the voice module are ever removed, that a job
never starts without its dialog having been confirmed.

A handful of functions are trusted rather than proved: `String::push`,
`str::to_lowercase`, `{:?}` on a string and `str::from_utf8` of the standard
library, and the splitting of an area by ratatui's `Layout`. Each says in its
comment what is taken from it.

## License

CC BY-NC-SA 4.0. Copyright (c) 2026 Paul Neri
`<67437654+DasPauluteli@users.noreply.github.com>`.
