# Joi

Joi is a realtime voice and screen companion for the terminal. This crate is its engine, verified
with Verus, and the application around it.

- `src/` is the library. It holds everything that Joi decides: configuration and settings, the
  session manager as a step machine, history and sessions, the provider's messages as session
  events, tools and their permissions, audio framing and resampling, screen frames, and the terminal
  frontend's model and layout. Its functions state what they give, and Verus proves it; only what a
  clock reads and which digits a new session's random id has are left open. Properties that span
  several functions stand as public proof functions whose names begin with `law_`.
- `app/` is the application: the tasks, sockets, files, devices and the terminal itself. It performs
  what the library asks for and hands back what came of it.
- `tests/` runs the library.

Where the library calls another crate (`image`, `textwrap`, `unicode-width`, `uuid`) or a function of
the standard library that Verus has no contract for, a small wrapper makes the call and says in its
doc comment what is taken on trust.
