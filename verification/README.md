# guestbook

A super simple guestbook: visitors leave pages, readers list the public ones.

- `src/` is the library, verified with Verus: settings and their defaults
  (`config`), pages and how they are sanitised, overridden and shown (`model`),
  what is stored and the database schema (`storage`), what notifiers say
  (`notifications`), manual review answers (`review`), the front page
  (`web`), string helpers (`text`) and the calls into other crates with what
  is claimed of them (`outside`).
- `app/` is the program around it: command line, HTTP API, database access,
  and the notifiers' network calls.
- `tests/` exercises the library on concrete values.
