# yroz

A universal software manager for Linux: one command (`yroz search`,
`install`, `remove`, `update`, `info`, `list`, `status`, `self-update`) over
the package managers found on the machine (APT, DNF, Portage, XBPS, Zypper,
APK, eopkg, the AUR through yay, Nix, Flatpak, Snap) and over AppImages.

The tool's decisions (which backends are active, the order `install` tries
them, each step of `install` and `remove`, how every command output is read,
names, messages and downloads) are written in Verus and proved against their
contracts. Running programs, the network, the file system, the terminal, the
loops that carry out those steps and the JSON/TOML parsing are left to a thin
executable around them.

## Layout

- `src/` — the verified library.
  - `text.rs`, `numfmt.rs`, `parse.rs` — text, numbers and the shared shapes
    of the output readers, each with its mathematical model.
  - `backend/` — one module per package manager: how its command output is
    read (search hits, package details, installed packages); `backend/mod.rs`
    holds what every backend shares when it runs a command.
  - `backend/appimage.rs` — AppImage names, shortcuts, the catalogue and
    GitHub release downloads.
  - `manager.rs` — which backends are active, how a name designates one, the
    order in which `install` asks them, the steps of `install` and `remove`,
    and the laws that tie these together.
  - `levenshtein.rs` — the edit distance used for catalogue suggestions.
  - `update.rs` — the download address of the newest release.
  - `config.rs` — the user's settings.
- `tests/` — tests of the library on concrete outputs and values.
- `app/` — the `yroz` executable: command line, processes, files, network,
  progress display and colours.

## Settings

`~/.config/yroz/config.toml`:

```toml
disabled_backends = ["Snap"]
priority = ["Nix", "Flatpak", "APT"]
```
