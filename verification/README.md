# rayhunter_tools

A verified library for the status display of the rayhunter daemon and for its
QMDL fuzzing harness.

- `src/` is the library, checked by Verus: colours and line patterns, the pixel
  buffers of drawn lines, the status-line style of each display state, the
  decisions of the display refresh loop, the comparison of messages from the
  current and the previous diagnostic parser, and the de-duplication of
  messages by their XXH3 hash.
- `app/` holds the programs around it: the async display task, the fuzz
  targets, which call the diagnostic parser, and the seed splitter.
- `tests/` runs the library on concrete values.
