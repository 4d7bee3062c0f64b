# shikit

The core of two desktop tools, written in Verus and proved against its contracts:
ShiPing, a screen recorder, and ShiTu, a screenshot tool.

## Layout

- `src/` — the verified library.
  - `recorder/` — recording targets and displays (`domain`, `desktop`, `frames`), the
    settings (`config`, `controls`), the recording timeline (`session`), the writers'
    timing and the FFmpeg command (`encode`), output names (`output`), sound formats and
    the microphone queue (`audio`), the cursor overlay (`overlay`) and the global
    shortcuts (`shortcuts`, `hotkeys`, and `replacement`, the steps of replacing one
    registered set by another).
  - `screenshot/` — the settings (`config`), the capture shortcut (`hotkey`), file names
    and formats (`output`), PNG and JPEG encoding (`encoding`), screen geometry (`geometry`), text recognition (`ocr`) and
    start with the system (`startup`).
  - `bitmap` (clipboard bitmaps), `android` (state shared with the Android shell),
    `paths`, `text`, `scale`, `i18n`, `shell`.
- `app/` — a command-line program around the library: settings files, the recording
  thread, GIF and MP4 writers, image files, global shortcut events and the recognition
  worker's command line.
- `tests/` — tests of the library on concrete values.

The laws of the library are public proof functions named `lemma_*`, next to the
functions they speak of.
