# Captura core

The verified core of Captura, a menu-bar tool for screenshots and screen
recordings. `src/` is checked by Verus; `app/` is the program around it
(menu bar, hotkey registration, processes, files, audio and pixel capture).

Modules of the library:

- `config` — settings, their defaults, the settings-file location and the
  debounce rule for change notifications.
- `storage` — filename templates (`{type}`, `{date}`, `{time}`,
  `{timestamp}`, `{index}`), the rendering of a clock reading, their
  validation and the `_N` collision search. The `{index}` counter is shared
  by the whole process and lives in `app/` (`storage_io::next_session_index`);
  the library takes its value as an argument. `resolve_path_in` takes the
  clock reading and the check whether a path is taken as arguments and is
  proved to return the first candidate reported free; `resolve_path` reads
  the clock and asks the disk.
- `paths` — joining names onto folders and replacing extensions.
- `hotkeys` — parsing of hotkey strings and the registry of bound hotkeys.
- `capture` — capture regions, row packing of grabbed images and the
  `screencapture` arguments.
- `encoder` — output formats, BGRA to RGBA conversion, GIF frames (size
  check, quantization through `gif`, timing) and the `ffmpeg` arguments.
- `audio` — audio settings and the choice of source.
- `ui` — the application state machine, recent captures, recording menu
  items and the menu-bar icon.
- `scripts` — notification and clipboard scripts, menu labels, thumbnails
  (decoding and Lanczos resizing through `image`) and helper locations.
- `instance` — the single-instance lock file.
- `text` — decimal rendering, padding, trimming and replacement over characters.
