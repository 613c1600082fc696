# govee_events

Device events of the Govee platform, such as "lack of water" or "presence", on
their way to Home Assistant.

`src/` is a verified library. It decides, and leaves input and output to its
caller; only `broker::new_client_id` draws from the system's random source.

* `json`, `entry`, `message`: JSON values, and what the fields of the platform's
  messages say
* `device`, `event`, `entity`, `topic`, `text`: which events a device can
  report, and how Home Assistant is told of them
* `platform`: what is published, and when a device is polled instead
* `poll`, `supervisor`: how often a device is polled, and how soon a lost
  connection is built up again
* `broker`, `ca`: how the broker is reached and subscribed to

`app/` holds the broker client, the file system, the clock and the serde types
around it, with the reader that takes a payload apart into its fields.
