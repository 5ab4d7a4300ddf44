# bacak_compositor

The logic of the BacakOS Wayland compositor and of its command line tool, written
in Verus: window management, input routing, gestures, the on-screen keyboard,
shell plugins, settings, Wi-Fi, sound and Bluetooth control, icons, emoji, QR codes
and the remote desktop panel. Every function carries a contract, and the contracts
are proved.

## Layout

- `src/` – the verified library. Everything in it works on plain values: what a
  tool printed, what a file holds, which finger moved where. It answers with values
  that say what to run, write or draw.
- `app/` – the program around it: arguments, files, sockets, processes, D-Bus,
  font and SVG files, the springs and the blur shader.
- `tests/` – examples with concrete values.

## Conventions

- Lengths and positions on screen are whole numbers of 1/256 logical pixel
  (`wm::PX` of them make one pixel).
- A floating-point setting is carried by its bits (`config::Number`), and ordered
  by them.
- Text is specified as a sequence of characters; `src/text.rs` holds splitting,
  trimming, searching and number reading, with their specifications.
- A `View` of each type says what contracts speak of; functions named `law_…` are
  theorems that relate several operations.

## What is trusted

Calls into `image`, `qrcode`, `ttf-parser` and `zstd`, and three functions of the
standard library (`String::push`, `str::to_uppercase`, `str::to_lowercase`). Each
is declared next to where it is used, with what is claimed of it.
