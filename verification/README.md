# Arknights cost bar ruler

The overlay, the programming interface and the worker of a tool that reads the time of a battle off
the cost bar of a game.

- `src/` is the library. It holds what the program decides and computes: the timer and its undo, the
  frames that clients can ask for, requests and answers, profiles, the search for emulators and
  devices, the start window, the overlay and its menu, logs, reports and update notices. Its
  functions have contracts that Verus proves. The contracts of the few functions that only call
  another crate, or a part of the standard library that Verus does not know, are believed: each of
  them names what it calls and what it takes on trust.
- `tests/` runs the library on concrete values.
- `app/` is the program around it: files, sockets, threads, other programs and windows. Capturing and
  reading frames is the work of an engine behind the traits in `app/engine.rs`.

Floating-point values cross the library as bit patterns (`number::Real64`) or as exact fractions;
where a result depends on how they are rounded, the library rounds as single and double precision
do. Paths follow the rules of Windows.

A search (`target_discovery`) asks no one. It takes the facts that are known of the machine, assumes
that what is not known has no answer, and adds each assumption to the facts; the program finds out
the first of them and searches again, until nothing was assumed. To ask whether `adb` can connect to
an address is to connect to it, so the order counts: a search says exactly what it asks and when, it
asks nothing of a device before it is connected, and it connects to nothing but emulators.
