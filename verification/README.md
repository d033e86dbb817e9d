# dsh_launcher

A launcher for the web service of `dsh` on Windows. It finds the `dsh` entry (at the configured path
and nowhere else, or, where none is configured, in a vendor directory beside it, on the search path
or through `npx`), starts it, waits until the service speaks HTTP, opens the browser, and ends the
service when the browser is closed, the tray menu asks for it or the user interrupts.

- `src/` holds the decisions, verified with Verus. It does no input or output: a run is a machine
  that asks the system for one thing at a time and goes on with the reply.
- `app/` is the program around it: files, sockets, processes, the tray and the browser.
- `tests/` runs the library on concrete values.

What the launcher is told comes from the command line, else from `config.json` beside it, else from
its defaults.

Exit codes: 0 for a run that ended on purpose (or a check that found an entry), 1 for a mistake on
the command line or an entry that does not start, 2 and 3 for a service that does not come up in
time (with its port open, or never open), 4 for a service that ends by itself, 5 where no entry is
found.
