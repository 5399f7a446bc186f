# agwaita

The service layer of the Agwaita desktop shell: notifications, calendar,
network, Bluetooth, audio, brightness, battery, privacy indicators, the
system tray watcher, the window-manager bridge for Niri, and the small
settings services (accent color, dark mode, do-not-disturb, power profile,
airplane mode).

- `src/` is the library, written in Verus. The services' decisions (what a
  D-Bus message, a command's output or a file's contents mean, what the state
  becomes, which signal fires and with what, what to send back) are functions
  with contracts proved by Verus. Calls into `chrono`, `rrule`, `calcard`,
  `tokio` and `std` stand behind small trusted functions whose contracts say
  what those crates document; where a result depends on the machine's time
  zone or clock, the contracts state what holds whatever it is.
- `app/` is the `agwaita` command and the outside work around the library:
  argument parsing, the daemon socket, D-Bus servers and proxies (`zbus`),
  PulseAudio, Niri's IPC socket, inotify, processes and files, and the values
  kept as fractions (volume, brightness, battery charge).
- `tests/` exercises the library on concrete values.
