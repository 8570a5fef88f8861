# CosmicDNS

The logic of a panel applet for the COSMIC desktop that switches which DNS servers the device
uses: which commands a switch runs and what their output means, how the applet reacts to
everything that happens to it, and what its popup and settings show. It is written in Verus; the
contracts are proved, and so are the laws under `src/laws/`.

- `src/text.rs`: splitting, trimming, joining and unescaping text
- `src/servers.rs`: saved entries and lists of addresses
- `src/report.rs`: reading what `ip`, `nmcli` and `resolvectl` print
- `src/backend.rs`: switching, resetting, reading and flushing, as plans of commands
- `src/version.rs`: comparing release tags
- `src/window.rs`, `src/update.rs`: the applet's state, its messages, and how it reacts to them
- `src/view.rs`: what the panel button, the popup and the settings show
- `src/laws/`: what holds of all of it
- `app/`: the applet around the library: widgets, running commands, persisting settings
- `tests/`: the library on concrete values
