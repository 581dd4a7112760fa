# generic_daw_core

The logic of a digital audio workstation, verified with Verus: musical and wall-clock time
in fixed point and the conversions between them, clip and note ranges and their editing,
the edits of the playlist and the piano roll over a selection (trims, splits, drags across
tracks, duplicates, quantizing), the arrangement view's response to its messages, voice
allocation, live MIDI input and its recording, the routing of a track's input, the
command registry and key bindings of the editor, the settings of audio devices, the wire
format of the plugin scanner, and the queue of messages for the audio thread.

- `src/` is the library. Every function there carries a contract that Verus checks; the
  public proof functions state the properties that hold across calls.
- `tests/` runs the library on concrete values.
- `app/` is a small command-line program around the library: checksums of files, reading
  the settings file, listing scanned plugins, and the parts that compute in floating point.
