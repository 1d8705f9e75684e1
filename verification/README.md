# camera_streaming

A camera streaming service: cameras send JPEG frames and audio to a server,
which serves them to browsers as multipart HTTP streams, keyed by the
camera's label.

- `src/` is the verified library (Verus): labels (`label.rs`), the per-label
  registries of watched devices and of frame channels (`registry.rs`, over
  the association list in `table.rs`), the length-prefixed framing between
  camera and server (`frame.rs`), the HTTP bytes sent to browsers
  (`http.rs`), the request-label parsing, admission of browsers and the names
  of recording files (`parse/video_parse.rs`), and the broker settings
  (`rabbitmq.rs`).
- `app/` is the asynchronous service around it: sockets, camera and
  microphone capture, video files, RabbitMQ calls, locks and tasks.
- `tests/` runs the library on concrete inputs.
