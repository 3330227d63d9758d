# arc

Remote control of another machine for agents and people: a controller (`arc`) drives a
runner on the other machine, directly or through a relay that sees only ciphertext.

The library under `src/` holds what the programs decide and compute, each function with
a contract that Verus proves:

- `proto`: identifiers, the wire types, and the encrypted channel.
- `net`: configuration, the handshake that builds a link, requests and their answers.
- `relay`: which connections belong together, and what each is told.
- `runner_core`, `runner`, `android`: how a request is served on each platform.
- `adb`: keys, pairing and streams of Android devices.
- `cli`: the command line, file transfer, screenshots, tool calls.
- `capture`, `sync`, `text`, `number`, `path`, `bytes`, `radix64`: what these share.

Longer exchanges are state machines: a function takes a state and what happened, and
gives the next state and what is to be done. `app/` does it: sockets, files, processes
and the screen, around the library. The properties that span several functions are the
public proof functions whose names begin with `law_`.

Calls into other crates stand behind small wrappers. Each names the function it calls and
says what is relied on.
