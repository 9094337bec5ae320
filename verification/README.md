# for_mqtt

The core of an MQTT desktop client: the brokers a user keeps, their subscriptions,
subscription history and messages, and what every touch in the window and every answer of a
broker does to them. The library is written in Verus; every function in it is proved
against its contract, but for a handful of thin calls into std, `pretty-hex`,
`serde_json` and `for-mqtt-client`, whose contracts state what those crates document.

## Layout

- `src/data` — the application state (`hierarchy`: brokers, tabs, subscriptions,
  messages), its records and the views the window binds to (`lens`).
- `src/util` — MQTT topic-filter matching, the broker store's bookkeeping and the
  writes it asks for, and the calls into `pretty-hex`, `serde_json` and std's lenient
  UTF-8 decoding.
- `src/mqtt` — what is sent to brokers, the options a connection is opened with, and how a
  connection's reports become events.
- `src/ui` — input parsing and validation, tab labels, the labels of the broker list, what
  a click on a broker row, a history icon, a settings button or the subscribe and publish
  buttons sends, when those buttons are shown or usable, and the decisions of the window's
  controllers.
- `src/logic.rs` — handling one event (`deal_event`): which state change it makes and
  what it asks the worker for, with single clicks told from double clicks.
- `app/` — the program: the `sled` store, connections through `for-mqtt-client`, serde
  copies of the stored records, and the event loop that hands events to `deal_event` and
  carries out the effects it returns.

State changes never perform I/O themselves: they return `Effect`s (events to send, store
writes) that the event loop carries out.
