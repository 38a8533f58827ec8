# dontspeakd

The engine of a local voice layer for agents in a terminal: the agent's replies are
spoken, and the user dictates back with the Caps Lock key.

`src/` is a library that decides. It is written in Verus, and every function is verified
against its contract. `app/` is the program around it: keyboard, microphone, sockets,
files, processes and threads. `tests/` run the library.

## The key

| Gesture | Idle | Recording |
|---|---|---|
| tap | start recording, or pause the voice where dictation is off | stop and submit |
| hold | silence everything | discard, and silence everything |
| double tap | skip the message that is spoken | stop and paste without Enter |

The light of the key is on exactly while a dictation is recorded: that, and what the
table says, are proved in `src/engine/laws.rs`.

## What is trusted

Verus reads every function body but those that call another crate or a part of the
standard library that it has no contract for. These are

- `src/json.rs`: parsing and writing JSON with `serde_json`;
- `src/record.rs`: finding where a JSON value ends, with `serde_json` and `serde`;
- `src/dictation_presenter.rs`: random bytes from `getrandom`;
- `src/text.rs`: properties of characters, lower case and quoting;
- `src/grok_stream/tail.rs`: decoding bytes as UTF-8.
