# aegis_host

A native-messaging host that lets a browser extension sign, encrypt and
decrypt with the local `gpg`, with its decisions verified in Verus.

- `src/` — the verified library:
  - `frame` — four-byte length headers (native byte order) and frames;
  - `assoc`, `chunks` — the store that reassembles chunked requests;
  - `json` — what `serde_json` reads out of a request's bytes;
  - `host` — reading a request from a frame, and what each request leads to: an immediate reply, the key
    listing, or a `gpg` job, and the replies a job's run produces;
  - `gpg` — the `gpg` command lines, stdin text, lock policy and the
    meaning of a run's output;
  - `reply` — replies, and the splitting of large results into chunk
    replies;
  - `listing` — reading `gpg --list-secret-keys --with-colons` output and
    the `list-keys` reply;
  - `install` — manifests, registration locations, and the actions an
    installation performs (repeating them changes nothing);
  - `text` — lossy decoding and character helpers.
- `app/main.rs` — the program: standard input and output, turning replies
  into JSON text, running
  `gpg`, the lock file, temporary key files, and installation.
- `tests/` — tests of the library.
