# Waywarm

A blue-light filter for wlroots-based Wayland desktops: warmth, brightness, and automatic
schedules with smooth transitions between day and night.

The decisions of the program are a library that is verified with Verus. What the machine has to
do is ordinary Rust around it.

## The library (`src/`)

| module | what it holds |
| --- | --- |
| `config` | levels, schedules, presets, settings and when they are valid |
| `schedule` | which levels hold at a time of day, by the clock or by civil twilight |
| `gamma` | the gamma ramps that give an output its levels |
| `binary64` | exact arithmetic on double-precision numbers, as integers |
| `coordinate` | latitude and longitude as bit patterns of double-precision numbers |
| `protocol`, `ipc` | requests and responses, and what a client makes of them |
| `daemon` | outputs, ramps, answers to requests, and the life of the daemon |
| `conflict` | other programs that set gamma ramps |
| `cli` | arguments, subcommands and what they print |
| `service` | the steps that install, start, stop and remove the background service |
| `ui_common`, `tui`, `dashboard` | the settings interface: keys, state and what is drawn |
| `service_tui` | the service interface: keys, state and what is drawn |
| `gui`, `tray` | what the window and the tray icon show and do |
| `screen` | areas, styles and the pieces that a terminal screen is made of |
| `text`, `error` | text as sequences of characters, and every failure with its message |

Contracts are stated over views of the types: sequences of characters for text, and records of
views for everything else. Numbers that the program computes in double precision are integers in
units of 2^-86, rounded after every operation as the format rounds them.

## The program (`app/`)

`app/` reads arguments, files, sockets, the clock and the sun, runs the Wayland connection and the
service manager, and draws what the library asks for. The window needs GTK 4 and libadwaita.
