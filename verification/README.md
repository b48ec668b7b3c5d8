# launch

A launcher for the desktop: it finds and starts applications, shows notifications,
keeps the status items of other programs, locks the screen, greets users at login and
authorizes privileged actions.

What the program decides is a library, written and proved in Verus. What talks to the
rest of the system is ordinary Rust around it.

- `src/` holds the library. Each state machine has a view, and each operation says
  what it makes of that view. Laws that hold across operations are public proof
  functions, named `law_…`.
- `tests/` runs the library on concrete values.
- `app/` holds the program: argument handling, the session and system bus, the
  compositor's socket, and a front end in the terminal. Its lock screen covers that
  terminal only. It has no front end for the greeter, whose rules the library holds.
