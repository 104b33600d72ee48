# openclip

A clipboard-history manager for the menu bar. The library under `src/` is
written in Verus and holds the logic, with contracts that Verus proves:

- `clipping`: one remembered text, its preview and its LZ4-compressed bytes;
- `history`: what a clipboard change or a reload of the settings does to the
  history (newest first, no text twice, at most `remember_clippings`);
- `menu`: which clippings the tray menu lists and what a click does;
- `storage`: the encrypted history file and the keychain record of the key;
- `prefs`: the number fields and login-item script of the preferences window;
- `config`, `text`: the settings and character-level text operations;
- `compression`, `crypto`, `json`: the calls into `lz4_flex`, `aes-gcm` and
  `serde_json`, with the contracts the library relies on.

`app/` is the program around it: the tray icon and event loop, the clipboard
watcher, the files and the keychain, and the preferences window.

The preferences window uses `eframe`, and the macOS dock handling uses
`objc2` and `objc2-app-kit`; none of them is in `Cargo.toml`. With `eframe`
the dependency set grows beyond what this build environment accepts, and the
`objc2` crates only build for macOS. `tray-icon` is listed but needs GTK on
Linux, which is not installed here, so `app/` does not compile here. The
icons `MenuBarIcon.png` and `AppIcon.png` are read from beside the
executable at run time instead of being embedded.
