# oku

The decision-making core of Oku, a hive browser, written in Verus: the
functions in `src/` carry contracts that Verus proves, except the small
trusted wrappers around outside code, whose contracts are assumed.

- `src/` — the verified library: settings, the history graph of a browsing
  session and the address-bar suggestions drawn from it, the `oku:` and
  `hive://` paths, what the address bar does with typed text, the colours
  of the window, the pages of the OkuNet site, the sidebar lists and the
  text helpers they rest on. Calls into `url`, `html-escape`, `bs58`,
  `daggy`, `chrono` and `uuid`, and into std's `String::push` and `str`
  hashing (`push_char`, `hash_text`), stand behind trusted wrappers whose
  contracts are documented where they are declared.
- `tests/` — tests of the library on concrete values.
- `app/` — the command-line front end: options, the settings file on disk,
  and the TOML text of the site's front matter.
