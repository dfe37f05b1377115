# popmgr

A management tool for Pop!_OS with the COSMIC desktop: Korean input
methods, USB and Bluetooth input devices, audio devices and the headset
microphone, external disks, COSMIC patches and shortcuts, and applications.

## Layout

- `src/` is the verified library (Verus). It holds everything the tool
  decides: the parsers of command output and configuration files, the
  rewriting of configuration files, the shell scripts the tool runs, and
  each tab as a state machine that maps an event to its next state and the
  outside work to do.
  - `text.rs`: the character-sequence model every parser is specified against.
  - `runner.rs`: command results and the output log.
  - `ui/`: one module per tab (`ime*`, `usb*`, `audio*`, `disk`, `cosmic`,
    `apps`, `printer`, `power`, `display`, `monitor`); `ime_policy.rs` holds
    the proofs about the fcitx5 configuration rewrite; `clock.rs` proves that
    the log's time stamp and the recording file name give the same date.
- `app/` is the program around the library: it reads files and devices,
  runs commands, and feeds the results back to the state machines, driven by
  commands read from standard input.
- `tests/` exercises the library on concrete inputs.
