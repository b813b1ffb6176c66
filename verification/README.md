# lt

A tool for listing and describing audio files (MPEG-4/AAC, MP3, FLAC and
WAV) and their metadata, with an interactive mode.

`src/` is the library, verified with Verus:

- `mpeg4/` walks MPEG-4 boxes (`boxes/`: headers, the table of known box
  types, the `ilst`, `mdia` and `stbl` readers), finds boxes by path
  (`find`), keeps the stack of open containers (`util`), and reads a track
  and the box structure of a file (`mod.rs`).
- `file`, `flac`, `mp3`, `mp4`, `wav` identify files by their first bytes and
  read tracks from a file's bytes, calling the format readers (metaflac,
  hound, mp3-metadata, id3) behind stated contracts.
- `track` and `album` model tracks and albums; `display` says what listing
  and describing show; `completion`, `cmd` and `run` hold the rules of the
  interactive mode.

`app/` is the program: argument parsing, the terminal loop, the file system,
and printing.
