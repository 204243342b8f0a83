# inventory_agent

An inventory agent for Windows desktops, with its logic verified in Verus.

The agent collects the computer's inventory (service tag, model, Windows
version and activation, processor, memory, disks, monitor, local IP,
installed programs) every half hour and posts it to the inventory
server; it follows the foreground window and reports the time spent on each
page, and the time the user was away; and it asks for a restart of a
computer that has been on for more than three days (a whole-day count of
three or more).

* `src/` is the verified library. Each inventory field is computed from the
  output of the system command that queries it (`getinfo`, `memory`); the
  text handling those computations rest on is in `text` and `strings`; the
  activity tracking decisions are in `activity`; dates in `clock`; the records
  sent in `report`.
* `app/` runs the commands, reads the clock, the idle time and the foreground
  window, and talks HTTP; it holds no decision of its own.
* `tests/` exercise the library on concrete values.
