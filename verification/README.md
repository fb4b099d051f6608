# ytkew

A terminal YouTube Music player in the style of kew: a queue, a library that
browses like a file manager, search, lyrics, cover art drawn with sixel, kitty
graphics or half blocks, a visualizer, media keys over MPRIS, and the mouse.

## Layout

- `src/` is the library, written in Verus. The player's rules live here,
  with their contracts proved: the queue and its shuffle and repeat rules,
  what each key, click, player event and background reply does to the session,
  the library tree and its loading, lyrics parsing and timing, decoding and
  scaling the cover and the median-cut palette, sixel and kitty encoding, the
  text of every row and the size of every box drawn, the key table, the theme
  and configuration rules, and what is published to the desktop's media
  controls.
- `app/` is the program around it: the terminal, the mpv process, the network,
  files, D-Bus and the drawing with ratatui. It also keeps what is computed in
  floating point: the track view's proportions, the half-block cover's aspect,
  the visualizer and the colours taken from a cover.
- `tests/` runs the library on concrete values.

Calls into outside crates that the library makes (random shuffling, display
widths, image decoding and resampling, PNG and base64 encoding, the YouTube
Music client's error text) go through small wrappers. Each states what the
crate's source shows of its result: in a few lines where that is short (base64,
the width of spaces), otherwise by giving the result a name.
