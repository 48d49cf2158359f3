# video_player_console_r

A console video player: it shows a folder of numbered PNG frames in the
terminal, in true color, as ASCII glyphs or as shade blocks (optionally
dithered), with audio and SubRip subtitles.

- `src/` is the verified library (Verus): how a pixel becomes a terminal cell
  (`modes`), the command-line options (`options`), frame pacing (`playback`),
  subtitle lookup (`srtreader`), and the text and number handling they share
  (`text`, `decimal`).
- `app/` is the program around it: terminal, files, images, audio, timing,
  and the floating-point parts (frame rate, scaling, subtitle times).
- `tests/` exercises the library on concrete values.
