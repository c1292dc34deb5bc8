# ptpsim

A simulator for PTP (IEEE 1588) networks built from Linux netdevsim devices:
each node is a network namespace holding one netdevsim device whose ports
ptp4l drives; links join ports of different nodes, and an HTTP API adds and
removes links and sets per-port delays while PHC readings and ptp4l servo
reports are logged.

- `src/` is the verified library (Verus): the simulation model and its rules
  (unique node names, unique links, link lookups and their error messages,
  per-port delays), the `ip`/sysfs command lines and requests, and the parsers
  for `ls`, `cat`, `ethtool -T`, `phc_ctl` and ptp4l output.
- `app/` is the program around it: argument parsing, the topology file, running
  commands, processes and files, the logging service and the HTTP server.
- `tests/` exercises the library on concrete values.
