# mac2win

Verified core of a tool that joins two machines (Windows and macOS) into one desktop
over the local network: one keyboard and mouse, a shared clipboard, audio routed
between them, peers found through mDNS.

- `src/` is the library, verified with Verus:
  - `protocol`: ports, message and settings types;
  - `connection`: length-prefixed control frames over TCP, media packets split into
    numbered UDP datagrams, and what the receiver accepts;
  - `clipboard`: which peer updates are applied, when local changes are announced,
    how clipboard content is read (PNG through the `image` crate) and written;
  - `audio`: settings changes and the naming of audio devices;
  - `discovery`: what a peer advertises, what is read back, the table of peers;
  - `text`, `hashing`, `imaging`: decimal text, content fingerprints, PNG coding.
- `app/` is the desktop shell: sockets (tokio), mDNS (mdns-sd), the system clipboard
  (arboard), audio devices (cpal), serialisation (serde, bincode, serde_json) and the
  Tauri window.
- `tests/` exercise the library on concrete values.
