# Sway

A proxy for a whole system that goes through an SSH server. It keeps profiles of several hosts,
offers a SOCKS5 and an HTTP proxy on this machine, and can make the system use them.

- `src/` is the library: everything that decides or computes, proved with Verus.
- `tests/` runs the library on concrete values.
- `app/` is the program around it: the window, the network, files and the system proxy.

## The library

| Module | What it holds |
|---|---|
| `text` | strings as sequences of characters: trimming, lines, searching, numbers |
| `config` | host profiles, settings, identifiers, reading and writing, the former form |
| `socks5` | the conversation with a SOCKS5 client |
| `http_proxy` | request heads, targets, rewriting, answers |
| `channel` | opening a channel by name and by address, resolving, trying the way out |
| `flow` | the course of one connection, and relaying bytes with their count |
| `tunnel` | setting a tunnel up, serving, errors that are no failures |
| `stats` | traffic figures and how they are written |
| `keys` | Ed25519 key pairs and where they go |
| `proxy`, `windows_proxy`, `macos_proxy` | what the system proxy takes, and what was left behind |
| `session`, `pages` | the state behind the window and what its pages show |
| `fonts`, `startup` | fonts to try, and what is told where no window can be made |

Contracts speak of plain models: a type `T` has a view `T@` with sequences in place of strings
and vectors. Public proof functions named `law_…` state what holds over several functions.

Time is a reading of a clock in nanoseconds, handed in by the caller, so that each function is
exact for every moment.
