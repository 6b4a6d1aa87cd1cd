# y2kexplorer

A terminal UI for Apache Kafka: topics and their messages (with live
follow), consumer groups and offset resets, ACLs, local topic labels, the
Schema Registry and Kafka Connect.

## Layout

- `src/` — the library, verified with Verus. The explorer is a state
  machine: `App` takes keys, dialog input, timer ticks and the replies of
  background work, and answers with the `Effect`s to perform. Each step has
  a contract over spec functions (`key_outcome`, `submit_outcome`,
  `worker_outcome`, `tick_outcome`, `command_outcome`, ...). Beside it:
  the configuration model and client settings (`config`, `client`), the
  label store (`labels`), ACL forms and bindings (`acl`), the REST requests
  and replies of the Schema Registry and Kafka Connect (`http`,
  `registry`, `connect`), message and list views (`messages`, `views`,
  `table`, `detail`), dialogs (`modal`) and the footer help (`help`).
- `app/` — the program around it: terminal drawing (ratatui), key input,
  the configuration file, Kafka through rdkafka, HTTP through ureq, the
  clipboard, and the `y2k-probe` connection test (the same binary, started
  under that name).
- `tests/` — tests of the library on concrete values.
