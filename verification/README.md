# sidgate

A remote-access gateway for a Windows workstation: hardware-encoded desktop video
and input injection over WebRTC, for clients that were paired once at the machine.

`src/` is the verified core. It takes plain values and gives plain values:

| Module | What it holds |
| --- | --- |
| `proto` | Input frames, control commands, signaling messages, signed transcripts |
| `agent` | Configuration, identity and pairing, handshake, session, capture loop, service supervisor |
| `capture`, `encode`, `inject` | Decisions of the duplication, encoder and injection backends |
| `wol` | Wake-on-LAN service of the sentinel node |
| `text`, `net`, `clock`, `crypto` | What the others share, and the calls into cryptography and clocks |

`app/` is the program around it: command line, files, HTTPS and WebSocket server,
WebRTC connection, Direct3D, Media Foundation and the service manager. The
application performs what the core asks for and reports what came of it.

Time is counted in nanoseconds since a moment that the caller keeps. A function that
reads the clock has a twin, named with `_at`, that is given the time.

The public proof functions named `law_…` state what holds across calls: what a
signature is bound to, what a refused client can change, what is released before the
host is locked.

`tests/` runs the core on concrete values, with the real cryptography.
