# qingjian

The verified core of a Chinese input method's voice, scheme and shortcut
handling, written in Verus.

- `src/` is the library. Its functions carry contracts that Verus proves: the voice recording state machine and its hand-off to a background
  recognizer, the server's router decisions (status bar, voice shortcut,
  recognized text waiting in the candidate window, code table), input schemes
  and shortcut fallbacks, the character error rate, the speech-model catalog
  and the checksum-guarded download state machine, model family detection,
  the microphone stream plan,
  and the shape-code table converter with its merge sort.
- `tests/` runs the library on concrete values.
- `app/` is the command-line tool around it: argument parsing, WAV reading,
  the recognition thread, the download thread and its network and disk work,
  the table conversion's file reading and writing, and the evaluation
  report's rates and ranking.

A few trusted functions, whose contracts say what the documentation
promises and nothing more, stand for what the library takes from elsewhere:
`char`'s Unicode letter and lowercase tables and conversions from the
standard library, and
SHA-256 from the `sha2` crate, and the two channel ends (`mpsc`) through
which recordings go to the recognition thread and text comes back.
