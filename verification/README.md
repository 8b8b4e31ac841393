# pinentry_omarchy

A GnuPG pinentry that asks for PINs and passphrases in omarchy-shell's
overlay dialog. The protocol logic is a library verified with Verus; a
small program around it does the reading, writing and talking to the
dialog plugin.

- `src/text.rs`: character-level helpers (trimming, decimal parsing,
  substring search, ASCII upper case) with their specifications.
- `src/assuan.rs`: parsing gpg-agent's request lines, percent-decoding,
  sanitizing display texts, and composing response lines. The `Writer`
  only ever holds well-formed response lines (at most 1000 bytes, no
  control bytes); "D" lines never split an escape and decode back to
  exactly the data they carry.
- `src/request.rs`: the dialog settings gathered from SET* commands and the
  request they make; texts never carry control characters or
  bidirectional overrides, and timeouts are capped at a day.
- `src/session.rs`: what each request line and each dialog reply is
  answered with, and when the dialog is asked. Lines longer than Assuan's
  1000 bytes are refused; a failed exchange with the dialog counts as a
  timeout or a cancellation by the kind of I/O error.
- `src/secret.rs`: wiping buffers that held a PIN.
- `app/`: `main`, the Unix-socket connection to the plugin, the JSON forms
  of requests and replies, process hardening and the fallback pinentry.
- `tests/`: unit and session tests, driven through the
  library, and more.
