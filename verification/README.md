# wraith

Wraith locks the physical keyboard and mouse of a Windows desk while
software-driven input (AI agents, automation, remote desktop) keeps flowing:
Windows flags such input as injected, and the low-level hooks let it through
while holding back everything physical.

## Layout

- `src/` — the verified library (Verus):
  - `hooks.rs`: the keyboard and mouse hook decisions, the hook handles, the
    panic-key timer, and the laws they obey (injected input always passes,
    physical input is held back only while locked, combinations are consumed,
    the panic key needs a continuous hold).
  - `app.rs`: lock, unlock and toggle with the actions each real change owes
    (Task Manager policy, panic timer, power state, tray icon), the window's
    handling of its messages, and the auto-start switch.
  - `config.rs`: the `wraith.ini` keys, their defaults, reading a value (a
    missing or invalid one gives the key's default), loading once per run,
    and the path of the file beside the program.
  - `tray.rs`: the icon and tooltip for each lock state, the menu, and the
    fixed-buffer string copy the Shell structures need.
  - `autostart.rs`: the Run-key value that starts Wraith with Windows.
  - `updater.rs`: UTF-16 encoding, reading the release tag and versions, and
    the update decision, with the version round-trip law.
- `app/` — the Windows program around the library: the single-instance
  mutex, the message-only window and its procedure, and the Win32 calls
  (hooks, registry, Shell, power state, WinHTTP) that carry out the library's
  decisions.
- `tests/` — tests of the library on concrete values.
