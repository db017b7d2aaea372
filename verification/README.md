# rptemp

Keeps an eye on host temperatures and cools the hosts with a USB-connected fan
controller. A client on each host reports the temperature of its CPU; a monitor
collects the reports, drops the hosts that have fallen silent, and tells the fan
controller the highest temperature that is left.

- `src/` is the library, verified with Verus: which sensors are reported, the HTTP
  request and its reply, the table of hosts and its sweep, the search for the
  controller and the steps of opening it, and the monitor's loop.
- `app/` is the program around it: configuration files, sensors, sockets, the HTTP
  server, USB transfers and logging. `rptemp client` and `rptemp monitor` start
  the two services.
- `tests/` runs the library.

A report is stamped with the time at which the monitor receives it. A host counts
as offline once its last report is more than three minutes old.

A configuration that cannot be read, or whose `log_level` is not one of `off`,
`error`, `warn`, `info`, `debug` and `trace`, is replaced by the default one.
