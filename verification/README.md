# imapmaildir

The verified IMAP side of a mail synchroniser: it parses server
greetings and status responses, keeps track of server capabilities, builds
the commands the client sends (SELECT, FETCH, STORE, EXPUNGE, APPEND,
LOGIN), and decides what each response of the server means for the client:
what a SELECT tells of the mailbox, which changes a selected mailbox reports,
when an IDLE has to end, and where a response on the connection goes.

Layout:

- `src/` is the library, written in Verus; every function in it comes with a
  contract that Verus proves. `src/imap/response.rs` holds, as plain values,
  what the client reads of a parsed server response.
- `tests/` runs the library on concrete values.
- `app/` is the program around the library: command line, settings files,
  logging, the password command, and the asynchronous loops that feed the
  server's responses to the library.
