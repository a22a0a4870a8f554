# cyders

The logic of a CYD ("Cheap Yellow Display") ESP32 board emulator, verified
with Verus, and the desktop program around it.

`src/` is the verified library:

- `input` — the touch screen the mouse stands in for (clamped position,
  tap latched on each press), the mapping of window to display coordinates
  and the bounded log of press/release events;
- `display` — the 320x240 RGB565 framebuffer: conversion to RGBA8888,
  fill, test pattern, and the dirty flag that decides re-rendering;
- `peripherals::nvs` — the NVS key-value store of typed values, with the
  auto-save decision of each change;
- `peripherals::sdcard` — the SD card: 512-byte sector reads and writes
  over a memory-mapped image (`memmap2`);
- `emulator` — the decisions of the emulator thread's loop (commands,
  failed batches, performance windows) and the status the UI reads;
- `board` — the catalogue of supported boards;
- `controls`, `ui` — keyboard shortcuts and the text shown by the panels;
- `text` — decimal text of integers.

Each module states its laws as `law_*` proof functions.

`app/` is the program: window, GPU rendering and egui panels, the command
line, the emulator thread and its FFI session, and the files behind the NVS
store and the SD card.
