# CloudNest core

Restores recently deleted iCloud Drive items in batches, with a scan and a restore that
can be paused and resumed.

- `src/` is the verified library (Verus). It holds the decisions of the application:
  cutting ids into batches, which items still need restoring, the restore run from batch
  to batch (send, retry with doubling delays, pause between batches, record as restored or
  failed), the resumable scan of deleted items and its checkpoint, the request URLs, the
  interpretation of iCloud and Chrome replies, the sign-in watch, the session state that
  the user interface shows, and the redaction of session values from error messages.
- `app/` is the desktop program around it: HTTP, the Chrome DevTools connection, files,
  timers, JSON and the user-interface commands. It hands the library plain values and
  performs what the library decides.
- `tests/` exercises the library on concrete values.
