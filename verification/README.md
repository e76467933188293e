# Orange Beam

A companion for a Bluetooth or receiver-connected presentation remote: it speaks the
remote's request and reply protocol, lends itself the top button, and draws a
spotlight, a laser dot, a magnifier or a box over the displays.

- `src/` is the library. Every function in it is verified with Verus against its
  contract; laws that span several functions are public proof functions beside them.
- `tests/` runs the library on concrete values.
- `app/` is the program around it: devices, files, windows and drawing. Its `macos`
  part is built on macOS only.

Points, seconds, opacities and zoom factors are integers in millionths
(`measure::UNIT`). `Settings::parse` reads plain decimal numbers itself, so that what
the panel saves reads back. Any other text that stands for a number is handed to a
reader that the caller supplies; the contract speaks of the answers that it gave.
