# obsidian_bar

A status bar for the niri compositor. The library holds what the bar knows and decides; the
contracts of its functions are proved by Verus, but for the few items that rest on other crates or
on the standard library. The program around it draws the widgets and talks
to the compositor, D-Bus, PipeWire and the file system.

## The library, `src/`

| Modules | What they hold |
| --- | --- |
| `text`, `text_set`, `sort`, `json`, `paths` | texts, sets of texts, stable sorting, JSON documents, file paths |
| `gate`, `pending`, `cache`, `command` | stale answers, coalesced reads and writes, retries, cached answers, captured programs |
| `niri` | the event stream: workspaces, windows, keyboard layouts |
| `bar`, `bar_features`, `tooltip`, `osd`, `clock`, `power` | the bar's windows and its plain widgets |
| `audio_backend`, `audio`, `spectrum` | sinks, hidden sinks, the sound spectrum's worker |
| `brightness` | backlights and external displays |
| `network_backend`, `network` | Wi-Fi networks, profiles and the panel |
| `bluetooth_backend`, `bluetooth_agent`, `bluetooth` | adapters, devices, pairing and the panel |
| `launcher` | the application catalog and what its list shows |
| `player` | media players and which of them is in front |
| `tray`, `tray_items` | tray items, their watcher, icons and menus |

These items are marked
`external_body` or `assume_specification`, in `text`, `json` and `niri` only; each such item says
what it claims.

## The program, `app/`

The GTK widgets, the D-Bus proxies, the threads and the processes. Numbers that are floating point,
such as volumes and animations, live here.
