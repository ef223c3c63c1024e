# ClassMesh

The core of a classroom screen-sharing mesh, verified with Verus. One teacher presents to many
students, students can be watched and helped, and a slow receiver or a broken encoder never takes
the class down.

## Layout

- `src/protocol`: versions, capabilities, the media header, feedback datagrams and control messages.
- `src/network`: packets and frames, loss recovery, multicast membership, address policy and the
  seeded impairment model.
- `src/engine`: bounded queues, presence, recovery, quality adaptation, cohorts and latency metrics.
- `src/video`: frame distribution, rendition planning, keyframe gating and pacing.
- `src/security`: principals, credentials, permissions, replay windows and group-media keys.
- `src/control`: the control session, its handshake, its authorization, enrollment and issuance.
- `src/identity`: machine keys, their certificates and what is kept of them.
- `src/discovery.rs`, `src/durable.rs`, `src/render.rs`: announcements on the local network, the
  replacement of files that survives an interruption, and the decisions of the presenter.
- `tests`: the library from outside, with its real dependencies.
- `app`: sockets, files, TLS and the platform's key storage and graphics device around the library.

## How it is specified

Each type has a mathematical view, and each function says over these views what it returns and
what it changes. What holds of several functions together stands in public proof functions whose
names begin with `law_`. Frame rates, losses and latencies are held as bit patterns (`Measure`),
whose order is defined in `src/measure.rs`.

What comes from other crates is declared next to its use, with a comment that says what is relied
on: digests (`sha2`), sealed frames (`sframe`), randomness and key encodings (`rustls`), signing
requests (`rcgen`), signature encodings (`p256`), message errors (`prost`) and wiping (`zeroize`).
