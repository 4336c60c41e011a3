# shack-amqp-monitor

History and Prometheus metrics for Submarine sensor data.

The monitor subscribes to an AMQP broker for input data updates. The data is published on
Prometheus as well as on a local HTTP endpoint, including a history of timestamped updates.

- `src/` is the verified library: the inputs and their histories (`sensor`, `monitor`), the
  metrics and the updates to them (`metrics`), the state of the machine (`system`), requests for
  the history (`query`), the addresses of Submarine (`endpoints`), log lines (`text`), the
  configuration (`config`), and what holds of it all (`laws`).
- `app/` is the program around it: files, network, threads and tasks. It takes Submarine's own
  types from the `alloy` crate, which lives beside this project.
- `tests/` exercises the library.
